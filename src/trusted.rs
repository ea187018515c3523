//! The calls into outside crates that the library makes, each with the
//! contract that the library relies on.
use vstd::prelude::*;

use crate::address::parsed_address;
use crate::amount::ether_text;

verus! {

/// The address that the standard derivation path `m/44'/60'/0'/0/<index>`
/// gives for a mnemonic phrase (English word list) and a passphrase, or
/// `None` when the phrase is not a valid mnemonic.
pub uninterp spec fn hd_address(phrase: Seq<char>, password: Seq<char>, index: u32) -> Option<
    Seq<u8>,
>;

/// The number of terminal columns that a text takes.
pub uninterp spec fn text_width(text: Seq<char>) -> nat;

/// The receipt of a settled transaction, carried through unread.
#[verifier::external_type_specification]
#[verifier::external_body]
pub struct ExTransactionReceipt(ethers::types::TransactionReceipt);

/// Relies on ethers' `MnemonicBuilder::<English>` with the phrase given as a
/// string (never read as a file path), `password` and `index`, then `build`
/// and `Signer::address`: the address depends on the three arguments alone
/// (a missing passphrase is the empty one), and `build` fails on a phrase
/// that is not a valid mnemonic.
#[verifier::external_body]
pub(crate) fn derive_address(phrase: &str, password: &str, index: u32) -> (r: Option<[u8; 20]>)
    ensures
        r is Some <==> hd_address(phrase@, password@, index) is Some,
        r is Some ==> hd_address(phrase@, password@, index) == Some(r->Some_0@),
{
    let builder = ethers::signers::MnemonicBuilder::<ethers::signers::coins_bip39::English>::default()
        .phrase(ethers::types::PathOrString::String(phrase.to_string()))
        .password(password);
    match builder.index(index) {
        Ok(b) => match b.build() {
            Ok(w) => Some(ethers::signers::Signer::address(&w).0),
            Err(_) => None,
        },
        Err(_) => None,
    }
}

/// Relies on ethers' `utils::format_ether` (`format_units` with 18 places):
/// the quotient by 10^18, a point, and the remainder padded with zeros to
/// eighteen digits.
#[verifier::external_body]
pub(crate) fn format_ether(wei: u128) -> (r: String)
    ensures
        r@ == ether_text(wei as nat),
{
    ethers::utils::format_ether(ethers::types::U256::from(wei))
}

/// Relies on `FromStr` of ethers' `Address` (fixed-hash `H160` over
/// rustc-hex's `FromHexIter`): one leading `0x` is dropped, spaces, tabs and
/// line breaks are skipped, and exactly forty hexadecimal digits of either
/// case must remain, two per byte, most significant first.
#[verifier::external_body]
pub(crate) fn parse_address(text: &str) -> (r: Option<[u8; 20]>)
    ensures
        r is Some <==> parsed_address(text@) is Some,
        r is Some ==> parsed_address(text@) == Some(r->Some_0@),
{
    match text.parse::<ethers::types::Address>() {
        Ok(a) => Some(a.0),
        Err(_) => None,
    }
}

/// Relies on unicode-width's `UnicodeWidthStr::width`: the displayed width
/// of a string, a function of its characters; the empty string takes none.
#[verifier::external_body]
pub(crate) fn display_width(text: &str) -> (r: usize)
    ensures
        r == text_width(text@),
        text@.len() == 0 ==> r == 0,
{
    unicode_width::UnicodeWidthStr::width(text)
}

} // verus!
