use vstd::prelude::*;

verus! {

/// Number of bytes in an account address.
pub const ADDRESS_LEN: usize = 20;

/// A fixed-width account identifier on the network.
#[derive(Clone, Copy, Debug)]
pub struct Address {
    pub bytes: [u8; 20],
}

impl View for Address {
    type V = Seq<u8>;

    open spec fn view(&self) -> Seq<u8> {
        self.bytes@
    }
}

/// Lower-case hexadecimal digit of a nibble.
pub open spec fn hex_char(n: u8) -> char {
    if n < 10 {
        ((n + 48) as u8) as char
    } else {
        ((n + 87) as u8) as char
    }
}

/// Two lower-case hexadecimal digits for each byte, most significant first.
pub open spec fn hex_text(b: Seq<u8>) -> Seq<char>
    decreases b.len(),
{
    if b.len() == 0 {
        Seq::empty()
    } else {
        hex_text(b.drop_last()) + seq![hex_char(b.last() / 16), hex_char(b.last() % 16)]
    }
}

/// The text of an address: `0x` followed by its bytes in hexadecimal.
pub open spec fn address_text(b: Seq<u8>) -> Seq<char> {
    seq!['0', 'x'] + hex_text(b)
}

fn hex_digit_str(n: u8) -> (r: &'static str)
    requires
        n < 16,
    ensures
        r@ == seq![hex_char(n)],
{
    let r = match n {
        0 => "0",
        1 => "1",
        2 => "2",
        3 => "3",
        4 => "4",
        5 => "5",
        6 => "6",
        7 => "7",
        8 => "8",
        9 => "9",
        10 => "a",
        11 => "b",
        12 => "c",
        13 => "d",
        14 => "e",
        _ => "f",
    };
    proof {
        reveal_strlit("0");
        reveal_strlit("1");
        reveal_strlit("2");
        reveal_strlit("3");
        reveal_strlit("4");
        reveal_strlit("5");
        reveal_strlit("6");
        reveal_strlit("7");
        reveal_strlit("8");
        reveal_strlit("9");
        reveal_strlit("a");
        reveal_strlit("b");
        reveal_strlit("c");
        reveal_strlit("d");
        reveal_strlit("e");
        reveal_strlit("f");
        assert(r@ =~= seq![hex_char(n)]);
    }
    r
}

impl Address {
    pub fn from_bytes(bytes: [u8; 20]) -> (r: Address)
        ensures
            r@ == bytes@,
    {
        Address { bytes }
    }

    /// Two addresses are the same account when all their bytes agree.
    pub fn equals(&self, other: &Address) -> (r: bool)
        ensures
            r == (self@ == other@),
    {
        let mut i: usize = 0;
        while i < ADDRESS_LEN
            invariant
                i <= ADDRESS_LEN,
                self@.len() == ADDRESS_LEN,
                other@.len() == ADDRESS_LEN,
                forall|k: int| 0 <= k < i ==> self@[k] == other@[k],
            decreases ADDRESS_LEN - i,
        {
            if self.bytes[i] != other.bytes[i] {
                return false;
            }
            i = i + 1;
        }
        assert(self@ =~= other@);
        true
    }

    /// The address as `0x` and forty lower-case hexadecimal digits.
    pub fn to_hex_string(&self) -> (r: String)
        ensures
            r@ == address_text(self@),
    {
        let mut s = String::from_str("0x");
        proof {
            reveal_strlit("0x");
        }
        let mut i: usize = 0;
        while i < ADDRESS_LEN
            invariant
                i <= ADDRESS_LEN,
                self@.len() == ADDRESS_LEN,
                s@ == address_text(self@.subrange(0, i as int)),
            decreases ADDRESS_LEN - i,
        {
            let b = self.bytes[i];
            s.append(hex_digit_str(b / 16));
            s.append(hex_digit_str(b % 16));
            proof {
                let pre = self@.subrange(0, i as int);
                let post = self@.subrange(0, i + 1);
                assert(post.drop_last() =~= pre);
                assert(post.last() == b);
                assert(s@ =~= address_text(post));
            }
            i = i + 1;
        }
        assert(self@.subrange(0, ADDRESS_LEN as int) =~= self@);
        s
    }
}

/// Characters that the hexadecimal reader skips.
pub open spec fn is_hex_space(c: char) -> bool {
    c == ' ' || c == '\r' || c == '\n' || c == '\t'
}

pub open spec fn is_hex_digit(c: char) -> bool {
    ('0' <= c && c <= '9') || ('a' <= c && c <= 'f') || ('A' <= c && c <= 'F')
}

/// The value of a hexadecimal digit.
pub open spec fn hex_value(c: char) -> int {
    if '0' <= c && c <= '9' {
        c as int - '0' as int
    } else if 'a' <= c && c <= 'f' {
        c as int - 'a' as int + 10
    } else {
        c as int - 'A' as int + 10
    }
}

/// The digits of an address text: without one leading `0x` and without the
/// characters that the reader skips.
pub open spec fn address_digits(text: Seq<char>) -> Seq<char> {
    let body = if text.len() >= 2 && text[0] == '0' && text[1] == 'x' {
        text.subrange(2, text.len() as int)
    } else {
        text
    };
    body.filter(|c: char| !is_hex_space(c))
}

/// The address that a text gives, or `None` when its digits are not forty
/// hexadecimal digits.
pub open spec fn parsed_address(text: Seq<char>) -> Option<Seq<u8>> {
    let d = address_digits(text);
    if d.len() == 2 * ADDRESS_LEN && forall|i: int| 0 <= i < d.len() ==> is_hex_digit(#[trigger] d[i]) {
        Some(
            Seq::new(
                ADDRESS_LEN as nat,
                |i: int| (hex_value(d[2 * i]) * 16 + hex_value(d[2 * i + 1])) as u8,
            ),
        )
    } else {
        None
    }
}

} // verus!
