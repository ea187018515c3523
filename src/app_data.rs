use vstd::prelude::*;
use vstd::string::StrSliceExecFns;

use crate::address::{address_text, parsed_address, Address};
use crate::trusted::{hd_address, parse_address};
use crate::wallet::{addresses, distinct_addresses, has_address, DerivationError, Wallet};

verus! {

/// Every index below `number` gives an address.
pub open spec fn derivable(phrase: Seq<char>, password: Seq<char>, number: u32) -> bool {
    forall|k: u32| k < number ==> (#[trigger] hd_address(phrase, password, k)) is Some
}

/// The addresses of the indices below `number` are pairwise distinct.
pub open spec fn derived_distinct(phrase: Seq<char>, password: Seq<char>, number: u32) -> bool {
    forall|j: u32, k: u32|
        j < k < number ==> #[trigger] hd_address(phrase, password, j) != #[trigger] hd_address(
            phrase,
            password,
            k,
        )
}

/// `ws` is the directory of `number` wallets derived from the phrase and
/// passphrase: wallet `k` has index `k`, the address derived at `k`, and no
/// balance observed yet.
pub open spec fn derived_directory(
    phrase: Seq<char>,
    password: Seq<char>,
    number: u32,
    ws: Seq<Wallet>,
) -> bool {
    &&& ws.len() == number
    &&& forall|k: int|
        0 <= k < ws.len() ==> {
            &&& (#[trigger] ws[k]).index == k
            &&& hd_address(phrase, password, k as u32) == Some(ws[k].address@)
            &&& ws[k].eth_balance == 0
        }
}

/// Deriving twice from the same phrase, passphrase and count gives the same
/// addresses in the same order.
pub proof fn lemma_derivation_deterministic(
    phrase: Seq<char>,
    password: Seq<char>,
    number: u32,
    first: Seq<Wallet>,
    second: Seq<Wallet>,
)
    requires
        derived_directory(phrase, password, number, first),
        derived_directory(phrase, password, number, second),
    ensures
        addresses(first) == addresses(second),
{
    assert forall|k: int| 0 <= k < first.len() implies addresses(first)[k] == addresses(
        second,
    )[k] by {
        assert(first[k].index == k && second[k].index == k);
    }
    assert(addresses(first) =~= addresses(second));
}

/// Why the configuration cannot be used.
#[derive(Clone, Copy, Debug, PartialEq, Eq, Structural)]
pub enum ConfigError {
    /// The destination is not an address.
    InvalidAddress,
    /// The wallet count is not a decimal number that fits in 32 bits.
    InvalidNumber,
}

/// Whether every character is a decimal digit.
pub open spec fn all_digits(s: Seq<char>) -> bool {
    forall|i: int| 0 <= i < s.len() ==> '0' <= #[trigger] s[i] <= '9'
}

/// The value of a string of decimal digits, most significant first.
pub open spec fn digits_value(s: Seq<char>) -> int
    decreases s.len(),
{
    if s.len() == 0 {
        0
    } else {
        digits_value(s.drop_last()) * 10 + (s.last() as int - '0' as int)
    }
}

/// The digits of a count: the text without one leading `+`, if it has one.
pub open spec fn count_digits(s: Seq<char>) -> Seq<char> {
    if s.len() > 0 && s[0] == '+' {
        s.drop_first()
    } else {
        s
    }
}

/// The text is a count that fits in 32 bits: an optional `+`, then at least
/// one decimal digit.
pub open spec fn valid_count(s: Seq<char>) -> bool {
    let d = count_digits(s);
    d.len() > 0 && all_digits(d) && digits_value(d) <= u32::MAX
}

proof fn lemma_digits_value_grows(s: Seq<char>, k: int)
    requires
        all_digits(s),
        0 <= k <= s.len(),
    ensures
        digits_value(s.subrange(0, k)) <= digits_value(s),
    decreases s.len() - k,
{
    if k < s.len() {
        lemma_digits_value_grows(s, k + 1);
        let p = s.subrange(0, k + 1);
        assert(p.drop_last() =~= s.subrange(0, k));
        assert('0' <= s[k] <= '9');
        assert(digits_value(p) == digits_value(s.subrange(0, k)) * 10 + (p.last() as int - '0' as int));
        assert(digits_value(s.subrange(0, k)) >= 0) by {
            lemma_digits_value_nonneg(s.subrange(0, k));
        }
    } else {
        assert(s.subrange(0, k) =~= s);
    }
}

proof fn lemma_digits_value_nonneg(s: Seq<char>)
    requires
        all_digits(s),
    ensures
        digits_value(s) >= 0,
    decreases s.len(),
{
    if s.len() > 0 {
        assert(all_digits(s.drop_last())) by {
            assert forall|i: int| 0 <= i < s.drop_last().len() implies '0' <= #[trigger] s.drop_last()[i] <= '9' by {
                assert(s.drop_last()[i] == s[i]);
            }
        }
        lemma_digits_value_nonneg(s.drop_last());
        assert('0' <= s[s.len() - 1] <= '9');
    }
}

/// The data of one session: the wallet directory, the number of wallets
/// derived and the address that receives the funds.
#[derive(Clone, Debug)]
pub struct AppData {
    pub wallets: Vec<Wallet>,
    pub next_index: u32,
    pub to_address: Address,
}

impl AppData {
    pub fn new(wallets: Vec<Wallet>, next_index: u32, to_address: Address) -> (r: Self)
        ensures
            r.wallets@ == wallets@,
            r.next_index == next_index,
            r.to_address == to_address,
    {
        AppData { wallets, next_index, to_address }
    }

    /// Derives the wallets of indices `0..number` from the phrase and
    /// passphrase. Fails when `number` is zero, when the phrase is not a
    /// mnemonic, or when two indices give the same address.
    pub fn create_wallets_list(number: u32, phrase: &str, password: &str) -> (r: Result<
        Vec<Wallet>,
        DerivationError,
    >)
        ensures
            r is Ok <==> number > 0 && derivable(phrase@, password@, number) && derived_distinct(
                phrase@,
                password@,
                number,
            ),
            r is Ok ==> derived_directory(phrase@, password@, number, r->Ok_0@),
            r is Ok ==> distinct_addresses(r->Ok_0@),
            r matches Err(DerivationError::ZeroCount) <==> number == 0,
            r matches Err(DerivationError::InvalidSeed) ==> !derivable(phrase@, password@, number),
            r matches Err(DerivationError::Collision { first, second }) ==> first < second < number
                && hd_address(phrase@, password@, first) is Some && hd_address(
                phrase@,
                password@,
                first,
            ) == hd_address(phrase@, password@, second),
    {
        if number == 0 {
            return Err(DerivationError::ZeroCount);
        }
        let mut wallets: Vec<Wallet> = Vec::new();
        let mut i: u32 = 0;
        while i < number
            invariant
                i <= number,
                derived_directory(phrase@, password@, i, wallets@),
                distinct_addresses(wallets@),
                derivable(phrase@, password@, i),
                derived_distinct(phrase@, password@, i),
            decreases number - i,
        {
            let wallet = match Wallet::new(phrase, password, i) {
                Ok(w) => w,
                Err(e) => {
                    return Err(e);
                },
            };
            match wallet.position_in_list(&wallets) {
                Some(p) => {
                    proof {
                        assert(wallets@[p as int].index == p);
                    }
                    return Err(DerivationError::Collision { first: p as u32, second: i });
                },
                None => {},
            }
            proof {
                crate::wallet::lemma_push_new(wallets@, wallet);
                assert forall|j: u32, k: u32| j < k < i + 1 implies #[trigger] hd_address(
                    phrase@,
                    password@,
                    j,
                ) != #[trigger] hd_address(phrase@, password@, k) by {
                    if k == i {
                        assert(wallets@[j as int].index == j);
                        if hd_address(phrase@, password@, j) == hd_address(phrase@, password@, k) {
                            assert(wallets@[j as int].address@ == wallet.address@);
                        }
                    }
                }
                assert forall|k: u32| k < i + 1 implies (#[trigger] hd_address(
                    phrase@,
                    password@,
                    k,
                )) is Some by {
                    if k < i {
                        assert(wallets@[k as int].index == k);
                    }
                }
            }
            wallets.push(wallet);
            i = i + 1;
        }
        Ok(wallets)
    }

    /// Reads the destination address from its text.
    pub fn parse_to_address(text: &str) -> (r: Result<Address, ConfigError>)
        ensures
            r is Ok <==> parsed_address(text@) is Some,
            r is Ok ==> parsed_address(text@) == Some(r->Ok_0@),
            r is Err ==> r->Err_0 == ConfigError::InvalidAddress,
    {
        match parse_address(text) {
            Some(bytes) => Ok(Address::from_bytes(bytes)),
            None => Err(ConfigError::InvalidAddress),
        }
    }

    /// Reads the number of wallets to derive from its decimal text.
    pub fn parse_wallets_number(text: &str) -> (r: Result<u32, ConfigError>)
        ensures
            r is Ok <==> valid_count(text@),
            r is Ok ==> r->Ok_0 == digits_value(count_digits(text@)),
            r is Err ==> r->Err_0 == ConfigError::InvalidNumber,
    {
        let n = text.unicode_len();
        let mut start: usize = 0;
        if n > 0 && text.get_char(0) == '+' {
            start = 1;
        }
        let ghost d = count_digits(text@);
        assert(d =~= text@.subrange(start as int, n as int));
        if start >= n {
            return Err(ConfigError::InvalidNumber);
        }
        let mut value: u64 = 0;
        let mut i: usize = start;
        while i < n
            invariant
                start <= i <= n,
                n == text@.len(),
                d == text@.subrange(start as int, n as int),
                d == count_digits(text@),
                all_digits(d.subrange(0, i - start)),
                value == digits_value(d.subrange(0, i - start)),
                value <= u32::MAX,
            decreases n - i,
        {
            let c = text.get_char(i);
            if c < '0' || c > '9' {
                assert(d[i - start] == c);
                assert(!('0' <= d[i - start] <= '9'));
                assert(!all_digits(d));
                return Err(ConfigError::InvalidNumber);
            }
            let ghost pre = d.subrange(0, i - start);
            let ghost post = d.subrange(0, i - start + 1);
            assert(post.drop_last() =~= pre);
            assert(post.last() == c);
            assert(all_digits(post)) by {
                assert forall|k: int| 0 <= k < post.len() implies '0' <= #[trigger] post[k] <= '9' by {
                    if k < pre.len() {
                        assert(post[k] == pre[k]);
                    }
                }
            }
            let digit = (c as u32 - '0' as u32) as u64;
            value = value * 10 + digit;
            assert(value == digits_value(post));
            if value > 0xffff_ffff {
                proof {
                    if all_digits(d) {
                        lemma_digits_value_grows(d, i - start + 1);
                    }
                }
                return Err(ConfigError::InvalidNumber);
            }
            i = i + 1;
        }
        assert(d.subrange(0, n - start) =~= d);
        Ok(value as u32)
    }

    /// Records a newly observed balance for the wallet at `index`; an index
    /// outside the directory changes nothing.
    pub fn refresh_balance(&mut self, index: usize, eth_balance: u128)
        ensures
            index < old(self).wallets@.len() ==> final(self).wallets@ == old(self).wallets@.update(
                index as int,
                old(self).wallets@[index as int].with_balance_spec(eth_balance),
            ),
            index >= old(self).wallets@.len() ==> final(self).wallets@ == old(self).wallets@,
            final(self).next_index == old(self).next_index,
            final(self).to_address == old(self).to_address,
    {
        if index < self.wallets.len() {
            let w = self.wallets[index].with_eth_balance(eth_balance);
            self.wallets.set(index, w);
        }
    }

    pub fn wallets(&self) -> (r: Vec<Wallet>)
        ensures
            r@ == self.wallets@,
    {
        self.wallets.clone()
    }

    pub fn next_index(&self) -> (r: u32)
        ensures
            r == self.next_index,
    {
        self.next_index
    }

    pub fn to_address(&self) -> (r: Address)
        ensures
            r == self.to_address,
    {
        self.to_address
    }

    /// The destination as `0x` and forty lower-case hexadecimal digits.
    pub fn to_address_to_string(&self) -> (r: String)
        ensures
            r@ == address_text(self.to_address@),
    {
        self.to_address.to_hex_string()
    }
}

} // verus!
