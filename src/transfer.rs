use vstd::prelude::*;

use crate::sweep::{plan_of, plan_sweep, SweepPlan, TRANSFER_GAS_UNITS};
use crate::wallet::{address_set, addresses, distinct_addresses, Wallet};
use ethers::types::TransactionReceipt;

verus! {

/// Why a wallet was not swept.
#[derive(Clone, Copy, Debug, PartialEq, Eq, Structural)]
pub enum OptFailed {
    /// The balance does not exceed the fee: nothing was submitted.
    NoEnoughEther,
    /// The transaction was rejected, dropped or reverted.
    Reverted,
    /// The balance or the fee could not be queried: nothing was submitted.
    NetworkError,
}

/// Whether a sweep succeeded: `failed_opt` is `None` when the funds were sent.
#[derive(Clone, Copy, Debug, PartialEq, Eq, Structural)]
pub struct Status {
    pub failed_opt: Option<OptFailed>,
}

/// The outcome of one wallet's sweep.
#[derive(Debug)]
pub struct TransferResult {
    pub wallet: Wallet,
    pub tx_receipt: Option<TransactionReceipt>,
    pub status: Status,
}

/// The submission of a signed transfer failed or was reverted.
#[derive(Clone, Copy, Debug, PartialEq, Eq, Structural)]
pub struct SubmissionError;

/// What a sweep attempt does after the balance and fee quotes.
#[derive(Debug)]
pub enum TransferStep {
    /// Submit a transfer of `amount` wei to the destination.
    Submit { amount: u128 },
    /// The attempt is over without a transaction.
    Finished(TransferResult),
}

/// An outcome with no transaction for a wallet.
pub open spec fn failed_result(wallet: Wallet, reason: OptFailed) -> TransferResult {
    TransferResult { wallet, tx_receipt: None, status: Status { failed_opt: Some(reason) } }
}

/// The step owed for the quotes of a wallet's fee price and balance.
pub open spec fn step_of(wallet: Wallet, gas_price: Option<u128>, balance: Option<u128>) -> TransferStep {
    match (gas_price, balance) {
        (Some(p), Some(b)) => match plan_of(b as int, p as int, TRANSFER_GAS_UNITS as int) {
            SweepPlan::Feasible { amount } => TransferStep::Submit { amount },
            SweepPlan::Infeasible => TransferStep::Finished(
                failed_result(wallet, OptFailed::NoEnoughEther),
            ),
        },
        _ => TransferStep::Finished(failed_result(wallet, OptFailed::NetworkError)),
    }
}

/// The outcome owed once a submission has settled.
pub open spec fn settled_result(
    wallet: Wallet,
    submission: Result<Option<TransactionReceipt>, SubmissionError>,
) -> TransferResult {
    match submission {
        Ok(receipt) => TransferResult {
            wallet,
            tx_receipt: receipt,
            status: Status { failed_opt: None },
        },
        Err(_) => failed_result(wallet, OptFailed::Reverted),
    }
}

impl Wallet {
    /// Whether the balance is strictly above the fee of one transfer.
    pub fn verify_wallet_balance_is_ok(gas_price: u128, balance: u128) -> (r: bool)
        ensures
            r == (balance > gas_price * TRANSFER_GAS_UNITS),
    {
        match plan_sweep(balance, gas_price, TRANSFER_GAS_UNITS) {
            SweepPlan::Feasible { .. } => true,
            SweepPlan::Infeasible => false,
        }
    }

    /// Starts a sweep from fresh quotes of the fee price and of the balance
    /// (`None` where the query failed): either the amount to submit, or the
    /// outcome when there is nothing to submit.
    pub fn start_transfer(&self, gas_price: Option<u128>, balance: Option<u128>) -> (r: TransferStep)
        ensures
            r == step_of(*self, gas_price, balance),
    {
        match (gas_price, balance) {
            (Some(p), Some(b)) => match plan_sweep(b, p, TRANSFER_GAS_UNITS) {
                SweepPlan::Feasible { amount } => TransferStep::Submit { amount },
                SweepPlan::Infeasible => TransferStep::Finished(
                    TransferResult {
                        wallet: *self,
                        tx_receipt: None,
                        status: Status { failed_opt: Some(OptFailed::NoEnoughEther) },
                    },
                ),
            },
            _ => TransferStep::Finished(
                TransferResult {
                    wallet: *self,
                    tx_receipt: None,
                    status: Status { failed_opt: Some(OptFailed::NetworkError) },
                },
            ),
        }
    }

    /// The outcome of a submitted transfer, from how its submission settled.
    pub fn finish_transfer(
        &self,
        submission: Result<Option<TransactionReceipt>, SubmissionError>,
    ) -> (r: TransferResult)
        ensures
            r == settled_result(*self, submission),
    {
        match submission {
            Ok(receipt) => TransferResult {
                wallet: *self,
                tx_receipt: receipt,
                status: Status { failed_opt: None },
            },
            Err(_) => TransferResult {
                wallet: *self,
                tx_receipt: None,
                status: Status { failed_opt: Some(OptFailed::Reverted) },
            },
        }
    }
}

/// The addresses of the wallets of a list of outcomes, in order.
pub open spec fn result_addresses(rs: Seq<TransferResult>) -> Seq<Seq<u8>> {
    rs.map_values(|r: TransferResult| r.wallet.address@)
}

/// The outcome reported for a slot: what was recorded there, or a network
/// failure for an attempt that never reported.
pub open spec fn slot_outcome(wallet: Wallet, slot: Option<TransferResult>) -> TransferResult {
    match slot {
        Some(r) => r,
        None => failed_result(wallet, OptFailed::NetworkError),
    }
}

/// The outcomes of a run, one per selected wallet, in the order of selection.
pub open spec fn run_outcomes(wallets: Seq<Wallet>, slots: Seq<Option<TransferResult>>) -> Seq<
    TransferResult,
> {
    Seq::new(wallets.len(), |i: int| slot_outcome(wallets[i], slots[i]))
}

/// Each recorded outcome belongs to the wallet of its slot.
pub open spec fn slots_match(wallets: Seq<Wallet>, slots: Seq<Option<TransferResult>>) -> bool {
    &&& slots.len() == wallets.len()
    &&& forall|i: int|
        0 <= i < slots.len() && (#[trigger] slots[i]) is Some ==> slots[i]->Some_0.wallet.address@
            == wallets[i].address@
}

/// The slots after an attempt reports `result` for slot `i`: the first
/// report of a slot is kept, a later one or one for another wallet is not.
pub open spec fn recorded(
    wallets: Seq<Wallet>,
    slots: Seq<Option<TransferResult>>,
    i: int,
    result: TransferResult,
) -> Seq<Option<TransferResult>> {
    if 0 <= i < slots.len() && slots[i] is None && result.wallet.address@ == wallets[i].address@ {
        slots.update(i, Some(result))
    } else {
        slots
    }
}

/// A run gives exactly one outcome per selected wallet: as many outcomes as
/// wallets, each selected address once, none missing and none repeated,
/// whatever was reported.
pub proof fn lemma_outcomes_complete(wallets: Seq<Wallet>, slots: Seq<Option<TransferResult>>)
    requires
        distinct_addresses(wallets),
        slots_match(wallets, slots),
    ensures
        run_outcomes(wallets, slots).len() == wallets.len(),
        result_addresses(run_outcomes(wallets, slots)) == addresses(wallets),
        result_addresses(run_outcomes(wallets, slots)).no_duplicates(),
        result_addresses(run_outcomes(wallets, slots)).to_set() == address_set(wallets),
{
    let outs = run_outcomes(wallets, slots);
    assert forall|i: int| 0 <= i < outs.len() implies result_addresses(outs)[i] == addresses(
        wallets,
    )[i] by {
        assert(outs[i] == slot_outcome(wallets[i], slots[i]));
    }
    assert(result_addresses(outs) =~= addresses(wallets));
}

/// Reports for two different slots give the same slots in either order, so
/// the outcomes do not depend on which attempt settles first.
pub proof fn lemma_reports_commute(
    wallets: Seq<Wallet>,
    slots: Seq<Option<TransferResult>>,
    i: int,
    ri: TransferResult,
    j: int,
    rj: TransferResult,
)
    requires
        slots.len() == wallets.len(),
        i != j,
    ensures
        recorded(wallets, recorded(wallets, slots, i, ri), j, rj) == recorded(
            wallets,
            recorded(wallets, slots, j, rj),
            i,
            ri,
        ),
{
    let a = recorded(wallets, recorded(wallets, slots, i, ri), j, rj);
    let b = recorded(wallets, recorded(wallets, slots, j, rj), i, ri);
    assert(a =~= b);
}

/// One wallet's failure does not touch another's outcome: when the attempt
/// of slot `i` fails on submission and that of slot `j` is sent, in either
/// order of arrival, slot `i` reports the failure and slot `j` the transfer.
pub proof fn lemma_failure_isolated(
    wallets: Seq<Wallet>,
    slots: Seq<Option<TransferResult>>,
    i: int,
    j: int,
    receipt: Option<TransactionReceipt>,
)
    requires
        slots.len() == wallets.len(),
        0 <= i < wallets.len(),
        0 <= j < wallets.len(),
        i != j,
        slots[i] is None,
        slots[j] is None,
    ensures
        ({
            let failed = settled_result(wallets[i], Err(SubmissionError));
            let sent = settled_result(wallets[j], Ok(receipt));
            let first = recorded(wallets, recorded(wallets, slots, i, failed), j, sent);
            let second = recorded(wallets, recorded(wallets, slots, j, sent), i, failed);
            &&& first == second
            &&& run_outcomes(wallets, first)[i].status.failed_opt == Some(OptFailed::Reverted)
            &&& run_outcomes(wallets, first)[j].status.failed_opt == None::<OptFailed>
            &&& run_outcomes(wallets, first)[j].tx_receipt == receipt
        }),
{
    let failed = settled_result(wallets[i], Err(SubmissionError));
    let sent = settled_result(wallets[j], Ok(receipt));
    lemma_reports_commute(wallets, slots, i, failed, j, sent);
    let first = recorded(wallets, recorded(wallets, slots, i, failed), j, sent);
    assert(first[i] == Some(failed));
    assert(first[j] == Some(sent));
}

/// The bookkeeping of one sweep run: the wallets selected when it started
/// and, for each, the outcome that its attempt reported, if any yet.
#[derive(Debug)]
pub struct SweepBatch {
    pub wallets: Vec<Wallet>,
    pub slots: Vec<Option<TransferResult>>,
}

impl SweepBatch {
    pub open spec fn wf(&self) -> bool {
        &&& distinct_addresses(self.wallets@)
        &&& slots_match(self.wallets@, self.slots@)
    }

    /// A run over the selected wallets with no outcome reported yet.
    pub fn new(selected: &Vec<Wallet>) -> (r: SweepBatch)
        requires
            distinct_addresses(selected@),
        ensures
            r.wf(),
            r.wallets@ == selected@,
            forall|i: int| 0 <= i < r.slots@.len() ==> r.slots@[i] is None,
    {
        let mut wallets: Vec<Wallet> = Vec::new();
        let mut slots: Vec<Option<TransferResult>> = Vec::new();
        let mut i: usize = 0;
        while i < selected.len()
            invariant
                i <= selected.len(),
                wallets@ == selected@.subrange(0, i as int),
                slots@.len() == i,
                forall|k: int| 0 <= k < i ==> slots@[k] is None,
            decreases selected.len() - i,
        {
            wallets.push(selected[i]);
            slots.push(None);
            i = i + 1;
        }
        assert(selected@.subrange(0, selected.len() as int) =~= selected@);
        SweepBatch { wallets, slots }
    }

    /// Number of wallets in the run.
    pub fn len(&self) -> (r: usize)
        ensures
            r == self.wallets@.len(),
    {
        self.wallets.len()
    }

    /// The wallet whose attempt reports into slot `i`.
    pub fn wallet(&self, i: usize) -> (r: Wallet)
        requires
            i < self.wallets@.len(),
        ensures
            r == self.wallets@[i as int],
    {
        self.wallets[i]
    }

    /// Records the outcome that the attempt of slot `i` reported. Returns
    /// whether it was kept: a second report for a slot, a slot out of range
    /// or an outcome for another wallet is ignored.
    pub fn record(&mut self, i: usize, result: TransferResult) -> (kept: bool)
        requires
            old(self).wf(),
        ensures
            final(self).wf(),
            final(self).wallets@ == old(self).wallets@,
            kept == (i < old(self).slots@.len() && old(self).slots@[i as int] is None
                && result.wallet.address@ == old(self).wallets@[i as int].address@),
            final(self).slots@ == recorded(old(self).wallets@, old(self).slots@, i as int, result),
    {
        if i < self.slots.len() && self.slots[i].is_none() {
            if result.wallet.equals(&self.wallets[i]) {
                self.slots.set(i, Some(result));
                return true;
            }
        }
        false
    }

    /// Whether every attempt has reported.
    pub fn is_settled(&self) -> (r: bool)
        ensures
            r == (forall|i: int| 0 <= i < self.slots@.len() ==> (#[trigger] self.slots@[i]) is Some),
    {
        let mut i: usize = 0;
        while i < self.slots.len()
            invariant
                i <= self.slots@.len(),
                forall|k: int| 0 <= k < i ==> (#[trigger] self.slots@[k]) is Some,
            decreases self.slots@.len() - i,
        {
            if self.slots[i].is_none() {
                return false;
            }
            i = i + 1;
        }
        true
    }

    /// The outcomes of the run, one per selected wallet in the order of
    /// selection; an attempt that never reported counts as a network failure.
    pub fn into_outcomes(self) -> (r: Vec<TransferResult>)
        requires
            self.wf(),
        ensures
            r@ == run_outcomes(self.wallets@, self.slots@),
            result_addresses(r@) == addresses(self.wallets@),
    {
        let ghost wallets0 = self.wallets@;
        let ghost slots0 = self.slots@;
        let SweepBatch { wallets, mut slots } = self;
        let mut out: Vec<TransferResult> = Vec::new();
        let mut i: usize = 0;
        while i < wallets.len()
            invariant
                wallets@ == wallets0,
                slots0.len() == wallets0.len(),
                i <= wallets@.len(),
                slots@ == slots0.subrange(i as int, slots0.len() as int),
                out@.len() == i,
                forall|k: int| 0 <= k < i ==> out@[k] == slot_outcome(wallets0[k], slots0[k]),
            decreases wallets@.len() - i,
        {
            let slot = slots.remove(0);
            let res = match slot {
                Some(r) => r,
                None => TransferResult {
                    wallet: wallets[i],
                    tx_receipt: None,
                    status: Status { failed_opt: Some(OptFailed::NetworkError) },
                },
            };
            out.push(res);
            i = i + 1;
        }
        assert(out@ =~= run_outcomes(wallets0, slots0));
        proof {
            lemma_outcomes_complete(wallets0, slots0);
        }
        out
    }
}

} // verus!
