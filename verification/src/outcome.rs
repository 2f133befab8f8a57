//! The value that a job delivers on its destination chain.

use crate::word::{u256_div, Word};
use vstd::prelude::*;

verus! {

/// The settlement policy: the value to deliver for a job, given what the job
/// event says. The policy in force delivers half of the input value, rounded
/// down, whatever the balance and the chains are.
pub open spec fn outcome(
    value_in: nat,
    auxiliary_balance: nat,
    source_chain_id: nat,
    destination_chain_id: nat,
) -> nat {
    value_in / 2
}

/// Computes the value to deliver for a job. The result depends on the
/// arguments alone.
pub fn compute_outcome(
    value_in: Word,
    auxiliary_balance: Word,
    source_chain_id: Word,
    destination_chain_id: Word,
) -> (value_out: Word)
    ensures
        value_out@ == outcome(
            value_in@,
            auxiliary_balance@,
            source_chain_id@,
            destination_chain_id@,
        ),
{
    u256_div(value_in, Word::from_u64(2))
}

} // verus!
