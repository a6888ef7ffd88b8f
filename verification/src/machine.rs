//! The location-expression stack machine, as far as the evaluator drives it.
//!
//! The machine itself is `gimli::Evaluation`. This file holds the machine,
//! the names for what it answers, and the three calls the evaluator makes;
//! what is said of those calls is taken on trust. A [`Machine`] can only be
//! made by [`Machine::begin`] and only be changed by [`Machine::resume`], so
//! its plain fields always describe the evaluation it holds.
use vstd::prelude::*;
use crate::model::Encoding;

verus! {

/// Why the machine stopped.
#[derive(Clone, Copy, Debug, PartialEq, Eq, Structural)]
pub enum Step {
    /// The expression ran to its end.
    Complete,
    /// The expression asks for the frame base.
    NeedsFrameBase,
    /// The expression asks for something only a running process has
    /// (a register, memory, thread-local storage, ...).
    Unsupported,
    /// The expression is malformed, or used up its operation budget.
    Failed,
}

/// How `gimli::Evaluation::evaluate` stops on a fresh evaluation of `expr`
/// that may run at most `budget` operations.
pub uninterp spec fn first_step(expr: Seq<u8>, encoding: Encoding, budget: u32) -> Step;

/// How `gimli::Evaluation::resume_with_frame_base` stops when it is called for
/// the `resumes`-th time on the evaluation of `expr`, every call so far having
/// supplied `frame_base`.
pub uninterp spec fn resumed_step(
    expr: Seq<u8>,
    encoding: Encoding,
    budget: u32,
    frame_base: u64,
    resumes: nat,
) -> Step;

/// What `gimli::Evaluation::value_result` holds once the evaluation of `expr`
/// is complete after `resumes` resumptions, taken through
/// `gimli::Value::convert` to a signed 64-bit integer under `mask`; `None`
/// where there is no value or the conversion gives no such integer.
pub uninterp spec fn settled_offset(
    expr: Seq<u8>,
    encoding: Encoding,
    budget: u32,
    frame_base: u64,
    resumes: nat,
    mask: u64,
) -> Option<i64>;

/// The evaluation in progress. Opaque: `gimli::Evaluation` is generic over a
/// reader trait and cannot be shown to the verifier.
#[verifier::external_body]
struct Engine<'a> {
    eval: gimli::Evaluation<gimli::EndianSlice<'a, gimli::RunTimeEndian>>,
}

/// A location expression loaded into the stack machine, together with how
/// the machine was set up and where it stands. The setup is kept so that the
/// contracts can speak of it.
#[allow(dead_code)]
pub struct Machine<'a> {
    engine: Engine<'a>,
    expr: &'a [u8],
    encoding: Encoding,
    budget: u32,
    frame_base: u64,
    resumes: u32,
    last: Step,
}

impl<'a> Machine<'a> {
    /// The bytes of the expression.
    pub closed spec fn expr(&self) -> Seq<u8> {
        self.expr@
    }

    /// The encoding the expression is read under.
    pub closed spec fn encoding(&self) -> Encoding {
        self.encoding
    }

    /// The most operations the machine may run.
    pub closed spec fn budget(&self) -> u32 {
        self.budget
    }

    /// The value handed over whenever the frame base is asked for.
    pub closed spec fn frame_base(&self) -> u64 {
        self.frame_base
    }

    /// How often the machine has been resumed.
    pub closed spec fn resumes(&self) -> nat {
        self.resumes as nat
    }

    /// Why the machine last stopped.
    pub closed spec fn last(&self) -> Step {
        self.last
    }

    /// Whether `other` is this machine but for the number of resumptions and
    /// the last stop.
    pub open spec fn same_setup(&self, other: &Machine<'a>) -> bool {
        &&& self.expr() == other.expr()
        &&& self.encoding() == other.encoding()
        &&& self.budget() == other.budget()
        &&& self.frame_base() == other.frame_base()
    }

    /// Loads `expr` and runs it until it first stops.
    ///
    /// Calls `gimli::Evaluation::new`, `set_max_iterations` and `evaluate`.
    /// Claimed: the machine records its arguments, and its first stop is
    /// `first_step` of them, with `RequiresFrameBase` told apart from every
    /// other request and any error reported as `Failed`. The address size is
    /// limited because `new` shifts by eight times that size, the budget
    /// because `evaluate` counts one past it.
    #[verifier::external_body]
    pub(crate) fn begin(expr: &'a [u8], encoding: Encoding, budget: u32, frame_base: u64) -> (m:
        Machine<'a>)
        requires
            encoding.address_size <= 8,
            budget < u32::MAX,
        ensures
            m.expr() == expr@,
            m.encoding() == encoding,
            m.budget() == budget,
            m.frame_base() == frame_base,
            m.resumes() == 0,
            m.last() == first_step(expr@, encoding, budget),
    {
        let endian =
            if encoding.little_endian { gimli::RunTimeEndian::Little } else { gimli::RunTimeEndian::Big };
        let format = if encoding.dwarf64 { gimli::Format::Dwarf64 } else { gimli::Format::Dwarf32 };
        let enc = gimli::Encoding { address_size: encoding.address_size, format, version: encoding.version };
        let mut eval = gimli::Evaluation::new(gimli::EndianSlice::new(expr, endian), enc);
        eval.set_max_iterations(budget);
        let last = match eval.evaluate() {
            Ok(gimli::EvaluationResult::Complete) => Step::Complete,
            Ok(gimli::EvaluationResult::RequiresFrameBase) => Step::NeedsFrameBase,
            Ok(_) => Step::Unsupported,
            Err(_) => Step::Failed,
        };
        Machine { engine: Engine { eval }, expr, encoding, budget, frame_base, resumes: 0, last }
    }

    /// Hands the frame base to a machine that asked for it and runs on to the
    /// next stop; `count` is the number of resumptions including this one.
    ///
    /// Calls `gimli::Evaluation::resume_with_frame_base`, which panics unless
    /// the evaluation last stopped with `RequiresFrameBase`. Claimed: the
    /// setup is unchanged, and the new stop is `resumed_step` of the setup and
    /// `count`.
    #[verifier::external_body]
    pub(crate) fn resume(&mut self, count: u32)
        requires
            old(self).last() == Step::NeedsFrameBase,
            count == old(self).resumes() + 1,
        ensures
            final(self).same_setup(old(self)),
            final(self).resumes() == count,
            final(self).last() == resumed_step(
                old(self).expr(),
                old(self).encoding(),
                old(self).budget(),
                old(self).frame_base(),
                count as nat,
            ),
    {
        self.last = match self.engine.eval.resume_with_frame_base(self.frame_base) {
            Ok(gimli::EvaluationResult::Complete) => Step::Complete,
            Ok(gimli::EvaluationResult::RequiresFrameBase) => Step::NeedsFrameBase,
            Ok(_) => Step::Unsupported,
            Err(_) => Step::Failed,
        };
        self.resumes = count;
    }

    /// The result of a completed evaluation as a signed 64-bit integer.
    ///
    /// Calls `gimli::Evaluation::value_result`, which panics unless the
    /// evaluation is complete, and `gimli::Value::convert` with the type
    /// `I64`. Claimed: the result is `settled_offset` of the setup, the
    /// number of resumptions and `mask`.
    #[verifier::external_body]
    pub(crate) fn read_offset(&self, mask: u64) -> (offset: Option<i64>)
        requires
            self.last() == Step::Complete,
        ensures
            offset == settled_offset(
                self.expr(),
                self.encoding(),
                self.budget(),
                self.frame_base(),
                self.resumes(),
                mask,
            ),
    {
        match self.engine.eval.value_result() {
            Some(value) => match value.convert(gimli::ValueType::I64, mask) {
                Ok(gimli::Value::I64(offset)) => Some(offset),
                _ => None,
            },
            None => None,
        }
    }

    /// Why the machine last stopped.
    pub fn stopped(&self) -> (step: Step)
        ensures
            step == self.last(),
    {
        self.last
    }

    /// How often the machine has been resumed.
    pub fn resumed(&self) -> (count: u32)
        ensures
            count == self.resumes(),
    {
        self.resumes
    }
}

} // verus!
