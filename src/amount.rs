use vstd::prelude::*;

verus! {

/// Wei in one ether.
pub const WEI_PER_ETHER: u128 = 1_000_000_000_000_000_000;

/// Decimal places of an amount written in ether.
pub const ETHER_DECIMALS: u32 = 18;

/// The character of a decimal digit.
pub open spec fn digit_char(d: nat) -> char {
    ((d + 48) as u8) as char
}

/// A natural number in decimal, without leading zeros.
pub open spec fn decimal_text(n: nat) -> Seq<char>
    decreases n,
{
    if n < 10 {
        seq![digit_char(n)]
    } else {
        decimal_text(n / 10) + seq![digit_char(n % 10)]
    }
}

/// A natural number in decimal, padded on the left with zeros to `width`
/// characters.
pub open spec fn zero_padded(n: nat, width: nat) -> Seq<char> {
    let t = decimal_text(n);
    if t.len() < width {
        Seq::new((width - t.len()) as nat, |i: int| '0') + t
    } else {
        t
    }
}

/// An amount of wei written in ether: the whole ethers, a point, and the
/// eighteen decimals.
pub open spec fn ether_text(wei: nat) -> Seq<char> {
    decimal_text(wei / (WEI_PER_ETHER as nat)) + seq!['.'] + zero_padded(
        wei % (WEI_PER_ETHER as nat),
        ETHER_DECIMALS as nat,
    )
}

} // verus!
