//! The run's state machine: liveness first, then the selected operations
//! in their fixed order, each fail-stoppable; failure aborts the run,
//! already persisted artifacts stay.

use vstd::prelude::*;

verus! {

/// Where a run stands.
#[derive(Clone, Copy, Debug, PartialEq, Eq, Structural)]
pub enum Phase {
    /// Nothing has happened yet.
    Init,
    /// The gateway's liveness is being checked.
    Liveness,
    /// A new key is being generated and its response persisted.
    KeyGen,
    /// A keystore and its ledger are being imported.
    Import,
    /// A deposit artifact is being built.
    Deposit,
    /// The run finished; every selected operation succeeded.
    Done,
    /// The run stopped on a failure; earlier artifacts stay persisted.
    Aborted,
}

/// Which operations the operator selected.
#[derive(Clone, Copy, Debug, PartialEq, Eq, Structural)]
pub struct RunPlan {
    pub do_keygen: bool,
    pub do_import: bool,
    pub do_deposit: bool,
}

/// The first selected operation, in the fixed order key generation,
/// import, deposit; `Done` when none is selected.
pub open spec fn first_operation(plan: RunPlan) -> Phase {
    if plan.do_keygen {
        Phase::KeyGen
    } else if plan.do_import {
        Phase::Import
    } else if plan.do_deposit {
        Phase::Deposit
    } else {
        Phase::Done
    }
}

/// The selected operation after the given one, in the fixed order.
pub open spec fn operation_after(phase: Phase, plan: RunPlan) -> Phase {
    match phase {
        Phase::KeyGen => if plan.do_import {
            Phase::Import
        } else if plan.do_deposit {
            Phase::Deposit
        } else {
            Phase::Done
        },
        Phase::Import => if plan.do_deposit {
            Phase::Deposit
        } else {
            Phase::Done
        },
        _ => Phase::Done,
    }
}

/// One transition: entering the run checks liveness; a failed liveness
/// check or a failed operation aborts the whole run; a successful step
/// moves to the next selected operation. `Done` and `Aborted` are
/// terminal.
pub open spec fn spec_advance(phase: Phase, plan: RunPlan, success: bool) -> Phase {
    match phase {
        Phase::Init => Phase::Liveness,
        Phase::Liveness => if success {
            first_operation(plan)
        } else {
            Phase::Aborted
        },
        Phase::KeyGen | Phase::Import | Phase::Deposit => if success {
            operation_after(phase, plan)
        } else {
            Phase::Aborted
        },
        Phase::Done => Phase::Done,
        Phase::Aborted => Phase::Aborted,
    }
}

/// How far a phase still has to go; transitions strictly decrease it
/// until a terminal phase is reached.
pub open spec fn phase_rank(phase: Phase) -> nat {
    match phase {
        Phase::Init => 5,
        Phase::Liveness => 4,
        Phase::KeyGen => 3,
        Phase::Import => 2,
        Phase::Deposit => 1,
        Phase::Done => 0,
        Phase::Aborted => 0,
    }
}

/// Advances the run by one step, given whether the step the current
/// phase stands for succeeded.
pub fn advance(phase: Phase, plan: RunPlan, success: bool) -> (r: Phase)
    ensures
        r == spec_advance(phase, plan, success),
{
    match phase {
        Phase::Init => Phase::Liveness,
        Phase::Liveness => {
            if success {
                if plan.do_keygen {
                    Phase::KeyGen
                } else if plan.do_import {
                    Phase::Import
                } else if plan.do_deposit {
                    Phase::Deposit
                } else {
                    Phase::Done
                }
            } else {
                Phase::Aborted
            }
        },
        Phase::KeyGen => {
            if success {
                if plan.do_import {
                    Phase::Import
                } else if plan.do_deposit {
                    Phase::Deposit
                } else {
                    Phase::Done
                }
            } else {
                Phase::Aborted
            }
        },
        Phase::Import => {
            if success {
                if plan.do_deposit {
                    Phase::Deposit
                } else {
                    Phase::Done
                }
            } else {
                Phase::Aborted
            }
        },
        Phase::Deposit => {
            if success {
                Phase::Done
            } else {
                Phase::Aborted
            }
        },
        Phase::Done => Phase::Done,
        Phase::Aborted => Phase::Aborted,
    }
}

/// Every run ends: each step out of a non-terminal phase strictly
/// lowers the rank, so `Done` or `Aborted` is reached after at most as
/// many steps as the starting rank.
pub proof fn lemma_run_terminates(phase: Phase, plan: RunPlan, success: bool)
    requires
        phase != Phase::Done,
        phase != Phase::Aborted,
    ensures
        phase_rank(spec_advance(phase, plan, success)) < phase_rank(phase),
{
}

/// Operations never run out of order: a step from one operation phase
/// only ever reaches a later one, never an earlier.
pub proof fn lemma_fixed_order(plan: RunPlan, success: bool)
    ensures
        spec_advance(Phase::Import, plan, success) != Phase::KeyGen,
        spec_advance(Phase::Deposit, plan, success) != Phase::KeyGen,
        spec_advance(Phase::Deposit, plan, success) != Phase::Import,
{
}

} // verus!
