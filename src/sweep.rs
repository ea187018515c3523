use vstd::prelude::*;

verus! {

/// Gas units that one plain value transfer consumes.
pub const TRANSFER_GAS_UNITS: u128 = 21000;

/// What the sweep guard decides for one wallet.
#[derive(Clone, Copy, Debug, PartialEq, Eq, Structural)]
pub enum SweepPlan {
    /// The balance exceeds the fee: `amount` is everything that is left.
    Feasible { amount: u128 },
    /// The balance does not cover the fee with anything to spare.
    Infeasible,
}

/// Fee that a transfer costs, in the smallest network unit.
pub open spec fn sweep_cost(fee_price: int, gas_units: int) -> int {
    fee_price * gas_units
}

/// The plan that the guard owes for a balance and a fee.
pub open spec fn plan_of(balance: int, fee_price: int, gas_units: int) -> SweepPlan {
    if balance <= sweep_cost(fee_price, gas_units) {
        SweepPlan::Infeasible
    } else {
        SweepPlan::Feasible { amount: (balance - sweep_cost(fee_price, gas_units)) as u128 }
    }
}

/// Decides whether a wallet can be swept and how much it sends.
///
/// The whole remainder after the fee is sent; a balance equal to the fee is
/// not worth a transaction.
pub fn plan_sweep(balance: u128, fee_price: u128, gas_units: u128) -> (r: SweepPlan)
    ensures
        r == plan_of(balance as int, fee_price as int, gas_units as int),
{
    match fee_price.checked_mul(gas_units) {
        Some(cost) => {
            if balance <= cost {
                SweepPlan::Infeasible
            } else {
                SweepPlan::Feasible { amount: balance - cost }
            }
        },
        None => {
            // the fee does not even fit in the balance's range
            SweepPlan::Infeasible
        },
    }
}

/// At the boundary of the guard: a balance equal to the fee cannot be swept,
/// and one more wei sends exactly that wei.
pub proof fn lemma_guard_boundary(fee_price: u128, gas_units: u128)
    ensures
        plan_of(sweep_cost(fee_price as int, gas_units as int), fee_price as int, gas_units as int)
            == SweepPlan::Infeasible,
        sweep_cost(fee_price as int, gas_units as int) < u128::MAX ==> plan_of(
            sweep_cost(fee_price as int, gas_units as int) + 1,
            fee_price as int,
            gas_units as int,
        ) == (SweepPlan::Feasible { amount: 1 }),
{
}

} // verus!
