//! Evaluation of a location expression to a static frame offset.
//!
//! The expression runs on the stack machine of [`crate::machine`]. Whenever
//! the machine asks for the frame base it is given zero, so the result is the
//! offset relative to the frame base and not an address. Anything else the
//! machine may ask for is known only at run time: such a variable has no
//! static offset.
use vstd::prelude::*;
use crate::machine::{first_step, resumed_step, settled_offset, Machine, Step};
use crate::model::Encoding;

verus! {

/// The frame base handed to the machine.
pub const FRAME_BASE: u64 = 0;

/// How often one expression may ask for the frame base.
pub const RESUME_LIMIT: u32 = 16;

/// How many operations one expression may run.
pub const OPERATION_BUDGET: u32 = 65536;

/// The mask under which the result is read: all 64 bits.
pub const RESULT_MASK: u64 = 0xffff_ffff_ffff_ffff;

/// The largest address size (in bytes) the machine can be set up with.
pub const MAX_ADDRESS_SIZE: u8 = 8;

/// What the evaluator does when the machine has stopped.
#[derive(Clone, Copy, Debug, PartialEq, Eq, Structural)]
pub enum Action {
    /// Read the result: the evaluation is complete.
    ReadResult,
    /// Hand over the frame base and let the machine run on.
    SupplyFrameBase,
    /// Stop without an offset.
    GiveUp,
}

/// The action for a machine that stopped with `step` after `resumes`
/// resumptions.
pub open spec fn action_for(step: Step, resumes: nat) -> Action {
    match step {
        Step::Complete => Action::ReadResult,
        Step::NeedsFrameBase => if resumes < RESUME_LIMIT {
            Action::SupplyFrameBase
        } else {
            Action::GiveUp
        },
        Step::Unsupported => Action::GiveUp,
        Step::Failed => Action::GiveUp,
    }
}

/// How the machine stops on `expr` after `resumes` resumptions with the
/// frame base zero.
pub open spec fn stop_after(expr: Seq<u8>, encoding: Encoding, resumes: nat) -> Step {
    if resumes == 0 {
        first_step(expr, encoding, OPERATION_BUDGET)
    } else {
        resumed_step(expr, encoding, OPERATION_BUDGET, FRAME_BASE, resumes)
    }
}

/// The offset the evaluator arrives at from a machine that has been resumed
/// `resumes` times.
pub open spec fn offset_from(expr: Seq<u8>, encoding: Encoding, resumes: nat) -> Option<i64>
    decreases RESUME_LIMIT - resumes,
{
    match action_for(stop_after(expr, encoding, resumes), resumes) {
        Action::ReadResult => settled_offset(
            expr,
            encoding,
            OPERATION_BUDGET,
            FRAME_BASE,
            resumes,
            RESULT_MASK,
        ),
        Action::SupplyFrameBase => offset_from(expr, encoding, resumes + 1),
        Action::GiveUp => None,
    }
}

/// The static frame offset that `expr` describes, if it describes one.
pub open spec fn static_offset(expr: Seq<u8>, encoding: Encoding) -> Option<i64> {
    if encoding.address_size <= MAX_ADDRESS_SIZE {
        offset_from(expr, encoding, 0)
    } else {
        None
    }
}

/// Decides what to do with a machine that stopped with `step` after it has
/// been resumed `resumes` times.
pub fn next_action(step: Step, resumes: u32) -> (action: Action)
    ensures
        action == action_for(step, resumes as nat),
{
    match step {
        Step::Complete => Action::ReadResult,
        Step::NeedsFrameBase => if resumes < RESUME_LIMIT {
            Action::SupplyFrameBase
        } else {
            Action::GiveUp
        },
        Step::Unsupported => Action::GiveUp,
        Step::Failed => Action::GiveUp,
    }
}

/// Evaluates a location expression with the frame base taken as zero.
///
/// Returns the offset where the expression runs to completion with an
/// integer result, asking for nothing but the frame base and for that at most
/// `RESUME_LIMIT` times. Returns `None` in every other case, and for an
/// address size the machine cannot be set up with.
pub fn evaluate(encoding: Encoding, expr: &[u8]) -> (offset: Option<i64>)
    ensures
        offset == static_offset(expr@, encoding),
{
    if encoding.address_size > MAX_ADDRESS_SIZE {
        return None;
    }
    let mut machine = Machine::begin(expr, encoding, OPERATION_BUDGET, FRAME_BASE);
    loop
        invariant
            machine.expr() == expr@,
            machine.encoding() == encoding,
            machine.budget() == OPERATION_BUDGET,
            machine.frame_base() == FRAME_BASE,
            machine.resumes() <= RESUME_LIMIT,
            machine.last() == stop_after(expr@, encoding, machine.resumes()),
            static_offset(expr@, encoding) == offset_from(expr@, encoding, machine.resumes()),
        decreases RESUME_LIMIT - machine.resumes(),
    {
        let resumes = machine.resumed();
        match next_action(machine.stopped(), resumes) {
            Action::ReadResult => {
                return machine.read_offset(RESULT_MASK);
            },
            Action::SupplyFrameBase => {
                machine.resume(resumes + 1);
            },
            Action::GiveUp => {
                return None;
            },
        }
    }
}

} // verus!
