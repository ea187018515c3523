use vstd::prelude::*;

use crate::address::{address_text, Address};
use crate::amount::ether_text;
use crate::trusted::{derive_address, format_ether, hd_address};

verus! {

/// A wallet of the directory: its derivation index, its address and the last
/// balance observed for it, in wei.
#[derive(Clone, Copy, Debug)]
pub struct Wallet {
    pub index: u32,
    pub address: Address,
    pub eth_balance: u128,
}

/// Why a wallet could not be derived.
#[derive(Clone, Copy, Debug, PartialEq, Eq, Structural)]
pub enum DerivationError {
    /// The phrase is not a valid mnemonic.
    InvalidSeed,
    /// A directory must hold at least one wallet.
    ZeroCount,
    /// Two indices gave the same address.
    Collision { first: u32, second: u32 },
}

/// Why the total of balances could not be given.
#[derive(Clone, Copy, Debug, PartialEq, Eq, Structural)]
pub enum BalanceError {
    /// The sum does not fit in 128 bits.
    Overflow,
}

/// The addresses of a list of wallets, in order.
pub open spec fn addresses(ws: Seq<Wallet>) -> Seq<Seq<u8>> {
    ws.map_values(|w: Wallet| w.address@)
}

/// The set of addresses of a list of wallets.
pub open spec fn address_set(ws: Seq<Wallet>) -> Set<Seq<u8>> {
    addresses(ws).to_set()
}

/// Whether some wallet of the list has address `a`.
pub open spec fn has_address(ws: Seq<Wallet>, a: Seq<u8>) -> bool {
    exists|i: int| 0 <= i < ws.len() && ws[i].address@ == a
}

/// No address occurs twice in the list.
pub open spec fn distinct_addresses(ws: Seq<Wallet>) -> bool {
    addresses(ws).no_duplicates()
}

/// Sum of the balances of a list of wallets.
pub open spec fn total_balance(ws: Seq<Wallet>) -> int
    decreases ws.len(),
{
    if ws.len() == 0 {
        0
    } else {
        total_balance(ws.drop_last()) + ws.last().eth_balance
    }
}

/// `i` is the first position of the list that holds address `a`.
pub open spec fn first_position(ws: Seq<Wallet>, a: Seq<u8>, i: int) -> bool {
    &&& 0 <= i < ws.len()
    &&& ws[i].address@ == a
    &&& forall|k: int| 0 <= k < i ==> ws[k].address@ != a
}

/// What toggling address of `w` does to a list: the first wallet with that
/// address leaves (the last one takes its place), or `w` is appended.
pub open spec fn toggled(ws: Seq<Wallet>, w: Wallet) -> Seq<Wallet> {
    if has_address(ws, w.address@) {
        let i = choose|i: int| first_position(ws, w.address@, i);
        ws.update(i, ws.last()).drop_last()
    } else {
        ws.push(w)
    }
}

proof fn lemma_first_position_exists(ws: Seq<Wallet>, a: Seq<u8>)
    requires
        has_address(ws, a),
    ensures
        exists|i: int| first_position(ws, a, i),
    decreases ws.len(),
{
    if ws.last().address@ == a && !has_address(ws.drop_last(), a) {
        let i = ws.len() - 1;
        assert forall|k: int| 0 <= k < i implies ws[k].address@ != a by {
            if ws[k].address@ == a {
                assert(ws.drop_last()[k] == ws[k]);
            }
        }
        assert(first_position(ws, a, i));
    } else {
        if !has_address(ws.drop_last(), a) {
            let j = choose|j: int| 0 <= j < ws.len() && ws[j].address@ == a;
            if j < ws.len() - 1 {
                assert(ws.drop_last()[j] == ws[j]);
            }
        }
        lemma_first_position_exists(ws.drop_last(), a);
        let i = choose|i: int| first_position(ws.drop_last(), a, i);
        assert forall|k: int| 0 <= k < i implies ws[k].address@ != a by {
            assert(ws.drop_last()[k] == ws[k]);
        }
        assert(ws.drop_last()[i] == ws[i]);
        assert(first_position(ws, a, i));
    }
}

pub proof fn lemma_has_address_set(ws: Seq<Wallet>, a: Seq<u8>)
    ensures
        has_address(ws, a) <==> address_set(ws).contains(a),
{
    if has_address(ws, a) {
        let i = choose|i: int| 0 <= i < ws.len() && ws[i].address@ == a;
        assert(addresses(ws)[i] == a);
    }
    if address_set(ws).contains(a) {
        let i = choose|i: int| 0 <= i < addresses(ws).len() && addresses(ws)[i] == a;
        assert(ws[i].address@ == a);
    }
}

/// Appending a wallet whose address is new keeps the addresses distinct and
/// adds its address to the set.
pub proof fn lemma_push_new(ws: Seq<Wallet>, w: Wallet)
    requires
        distinct_addresses(ws),
        !has_address(ws, w.address@),
    ensures
        distinct_addresses(ws.push(w)),
        address_set(ws.push(w)) == address_set(ws).insert(w.address@),
{
    assert(addresses(ws.push(w)) =~= addresses(ws).push(w.address@));
    lemma_has_address_set(ws, w.address@);
    assert(!addresses(ws).contains(w.address@));
    assert(address_set(ws.push(w)) =~= address_set(ws).insert(w.address@)) by {
        assert forall|x: Seq<u8>| #[trigger] address_set(ws.push(w)).contains(x) <==> address_set(
            ws,
        ).insert(w.address@).contains(x) by {
            lemma_has_address_set(ws.push(w), x);
            lemma_has_address_set(ws, x);
            if has_address(ws.push(w), x) && x != w.address@ {
                let i = choose|i: int| 0 <= i < ws.push(w).len() && ws.push(w)[i].address@ == x;
                assert(ws[i].address@ == x);
            }
            if has_address(ws, x) {
                let i = choose|i: int| 0 <= i < ws.len() && ws[i].address@ == x;
                assert(ws.push(w)[i].address@ == x);
            }
            if x == w.address@ {
                assert(ws.push(w)[ws.len() as int].address@ == x);
            }
        }
    }
}

/// Removing the wallet at position `i` by moving the last one there keeps the
/// addresses distinct and takes its address out of the set.
pub proof fn lemma_swap_remove(ws: Seq<Wallet>, i: int)
    requires
        distinct_addresses(ws),
        0 <= i < ws.len(),
    ensures
        distinct_addresses(ws.update(i, ws.last()).drop_last()),
        address_set(ws.update(i, ws.last()).drop_last()) == address_set(ws).remove(ws[i].address@),
{
    let r = ws.update(i, ws.last()).drop_last();
    let n = ws.len() - 1;
    let a = ws[i].address@;
    assert forall|p: int, q: int| 0 <= p < r.len() && 0 <= q < r.len() && p != q implies addresses(
        r,
    )[p] != addresses(r)[q] by {
        let pp = if p == i { n } else { p };
        let qq = if q == i { n } else { q };
        assert(addresses(r)[p] == addresses(ws)[pp]);
        assert(addresses(r)[q] == addresses(ws)[qq]);
    }
    assert forall|x: Seq<u8>| #[trigger] address_set(r).contains(x) <==> address_set(ws).remove(
        a,
    ).contains(x) by {
        lemma_has_address_set(r, x);
        lemma_has_address_set(ws, x);
        if has_address(r, x) {
            let p = choose|p: int| 0 <= p < r.len() && r[p].address@ == x;
            let pp = if p == i { n } else { p };
            assert(ws[pp].address@ == x);
            assert(addresses(ws)[pp] == x && addresses(ws)[i] == a);
        }
        if has_address(ws, x) && x != a {
            let p = choose|p: int| 0 <= p < ws.len() && ws[p].address@ == x;
            if p == n {
                assert(r[i].address@ == x);
            } else {
                assert(p != i);
                assert(r[p].address@ == x);
            }
        }
    }
    assert(address_set(r) =~= address_set(ws).remove(a));
}

/// What toggling does to the set of addresses of a list without repeated
/// addresses: the address leaves the set if it was there, else it joins.
pub proof fn lemma_toggled(ws: Seq<Wallet>, w: Wallet)
    requires
        distinct_addresses(ws),
    ensures
        distinct_addresses(toggled(ws, w)),
        address_set(toggled(ws, w)) == if has_address(ws, w.address@) {
            address_set(ws).remove(w.address@)
        } else {
            address_set(ws).insert(w.address@)
        },
{
    if has_address(ws, w.address@) {
        lemma_first_position_exists(ws, w.address@);
        let i = choose|i: int| first_position(ws, w.address@, i);
        lemma_swap_remove(ws, i);
    } else {
        lemma_push_new(ws, w);
    }
}

impl Wallet {
    /// Derives the wallet at `index` from a mnemonic phrase and passphrase.
    /// Its balance is not known yet and starts at zero.
    pub fn new(phrase: &str, password: &str, index: u32) -> (r: Result<Wallet, DerivationError>)
        ensures
            r is Ok <==> hd_address(phrase@, password@, index) is Some,
            r is Ok ==> hd_address(phrase@, password@, index) == Some(r->Ok_0.address@),
            r is Ok ==> r->Ok_0.index == index && r->Ok_0.eth_balance == 0,
            r is Err ==> r->Err_0 == DerivationError::InvalidSeed,
    {
        match derive_address(phrase, password, index) {
            Some(bytes) => Ok(Wallet { index, address: Address::from_bytes(bytes), eth_balance: 0 }),
            None => Err(DerivationError::InvalidSeed),
        }
    }

    /// The same wallet with another balance.
    pub open spec fn with_balance_spec(self, eth_balance: u128) -> Wallet {
        Wallet { eth_balance, ..self }
    }

    /// The same wallet with a newly observed balance.
    pub fn with_eth_balance(self, eth_balance: u128) -> (r: Wallet)
        ensures
            r == self.with_balance_spec(eth_balance),
    {
        Wallet { eth_balance, ..self }
    }

    /// Wallets are the same when their addresses are: an address is unique.
    pub fn equals(&self, wallet: &Wallet) -> (r: bool)
        ensures
            r == (self.address@ == wallet.address@),
    {
        self.address.equals(&wallet.address)
    }

    /// Removes this wallet's address from the list if it is there (the last
    /// wallet takes the freed place), else appends this wallet.
    pub fn toggle_wallet_in_list(&self, wallets_list: &mut Vec<Wallet>)
        ensures
            final(wallets_list)@ == toggled(old(wallets_list)@, *self),
            distinct_addresses(old(wallets_list)@) ==> distinct_addresses(final(wallets_list)@),
            distinct_addresses(old(wallets_list)@) ==> address_set(final(wallets_list)@) == if has_address(
                old(wallets_list)@,
                self.address@,
            ) {
                address_set(old(wallets_list)@).remove(self.address@)
            } else {
                address_set(old(wallets_list)@).insert(self.address@)
            },
    {
        let ghost ws = wallets_list@;
        let mut i: usize = 0;
        while i < wallets_list.len()
            invariant
                i <= wallets_list.len(),
                wallets_list@ == ws,
                old(wallets_list)@ == ws,
                forall|k: int| 0 <= k < i ==> ws[k].address@ != self.address@,
            decreases wallets_list.len() - i,
        {
            if self.equals(&wallets_list[i]) {
                proof {
                    assert(first_position(ws, self.address@, i as int));
                    assert(has_address(ws, self.address@));
                    lemma_first_position_exists(ws, self.address@);
                    let j = choose|j: int| first_position(ws, self.address@, j);
                    assert(j == i);
                    assert(toggled(ws, *self) == ws.update(i as int, ws.last()).drop_last());
                }
                wallets_list.swap_remove(i);
                proof {
                    assert(wallets_list@ == toggled(ws, *self));
                    if distinct_addresses(ws) {
                        lemma_swap_remove(ws, i as int);
                    }
                }
                return;
            }
            i = i + 1;
        }
        wallets_list.push(*self);
        proof {
            assert(!has_address(ws, self.address@));
            if distinct_addresses(ws) {
                lemma_push_new(ws, *self);
            }
        }
    }

    /// The first position of the list that holds this wallet's address.
    pub fn position_in_list(&self, wallet_list: &Vec<Wallet>) -> (r: Option<usize>)
        ensures
            r is None <==> !has_address(wallet_list@, self.address@),
            r is Some ==> first_position(wallet_list@, self.address@, r->Some_0 as int),
    {
        let mut i: usize = 0;
        while i < wallet_list.len()
            invariant
                i <= wallet_list.len(),
                forall|k: int| 0 <= k < i ==> wallet_list@[k].address@ != self.address@,
            decreases wallet_list.len() - i,
        {
            if self.equals(&wallet_list[i]) {
                return Some(i);
            }
            i = i + 1;
        }
        None
    }

    /// Whether this wallet's address occurs in the list.
    pub fn is_wallet_in_list(&self, wallet_list: &Vec<Wallet>) -> (r: bool)
        ensures
            r == has_address(wallet_list@, self.address@),
            r == address_set(wallet_list@).contains(self.address@),
    {
        proof {
            lemma_has_address_set(wallet_list@, self.address@);
        }
        let mut i: usize = 0;
        while i < wallet_list.len()
            invariant
                i <= wallet_list.len(),
                has_address(wallet_list@, self.address@) <==> address_set(wallet_list@).contains(
                    self.address@,
                ),
                forall|k: int| 0 <= k < i ==> wallet_list@[k].address@ != self.address@,
            decreases wallet_list.len() - i,
        {
            if self.equals(&wallet_list[i]) {
                assert(wallet_list@[i as int].address@ == self.address@);
                assert(has_address(wallet_list@, self.address@));
                return true;
            }
            i = i + 1;
        }
        false
    }

    /// Sums the balances of the list, in wei.
    pub fn total_eth_balance_in_list(wallets_list: &Vec<Wallet>) -> (r: Result<u128, BalanceError>)
        ensures
            r is Ok <==> total_balance(wallets_list@) <= u128::MAX,
            r is Ok ==> r->Ok_0 == total_balance(wallets_list@),
            r is Err ==> r->Err_0 == BalanceError::Overflow,
    {
        let mut res: u128 = 0;
        let mut i: usize = 0;
        while i < wallets_list.len()
            invariant
                i <= wallets_list.len(),
                res == total_balance(wallets_list@.subrange(0, i as int)),
            decreases wallets_list.len() - i,
        {
            let ghost pre = wallets_list@.subrange(0, i as int);
            let ghost post = wallets_list@.subrange(0, i + 1);
            assert(post.drop_last() =~= pre);
            match res.checked_add(wallets_list[i].eth_balance) {
                Some(s) => {
                    res = s;
                },
                None => {
                    proof {
                        lemma_total_monotone(wallets_list@, i + 1);
                    }
                    return Err(BalanceError::Overflow);
                },
            }
            i = i + 1;
        }
        assert(wallets_list@.subrange(0, wallets_list.len() as int) =~= wallets_list@);
        Ok(res)
    }

    /// The total balance of the list, written in ether.
    pub fn calculate_total_eth_balance_in_list(wallets_list: &Vec<Wallet>) -> (r: Result<
        String,
        BalanceError,
    >)
        ensures
            r is Ok <==> total_balance(wallets_list@) <= u128::MAX,
            r is Ok ==> r->Ok_0@ == ether_text(total_balance(wallets_list@) as nat),
            r is Err ==> r->Err_0 == BalanceError::Overflow,
    {
        match Wallet::total_eth_balance_in_list(wallets_list) {
            Ok(total) => Ok(format_ether(total)),
            Err(e) => Err(e),
        }
    }

    pub fn index(&self) -> (r: u32)
        ensures
            r == self.index,
    {
        self.index
    }

    pub fn address(&self) -> (r: Address)
        ensures
            r == self.address,
    {
        self.address
    }

    pub fn eth_balance(&self) -> (r: u128)
        ensures
            r == self.eth_balance,
    {
        self.eth_balance
    }

    /// The address as `0x` and forty lower-case hexadecimal digits.
    pub fn address_to_string(&self) -> (r: String)
        ensures
            r@ == address_text(self.address@),
    {
        self.address.to_hex_string()
    }

    /// The balance written in ether.
    pub fn eth_balance_to_string(&self) -> (r: String)
        ensures
            r@ == ether_text(self.eth_balance as nat),
    {
        format_ether(self.eth_balance)
    }
}

/// The sum over a longer prefix is at least the sum over a shorter one.
proof fn lemma_total_monotone(ws: Seq<Wallet>, n: int)
    requires
        0 <= n <= ws.len(),
    ensures
        total_balance(ws.subrange(0, n)) <= total_balance(ws),
    decreases ws.len() - n,
{
    if n < ws.len() {
        lemma_total_monotone(ws, n + 1);
        assert(ws.subrange(0, n + 1).drop_last() =~= ws.subrange(0, n));
    } else {
        assert(ws.subrange(0, n) =~= ws);
    }
}

} // verus!
