//! Floating-point arithmetic, asked of the caller.
//!
//! The library holds a double as its IEEE-754 bit pattern and does no
//! floating-point arithmetic itself. Where a rule needs some, the function
//! takes an evaluator: a function from a [`FloatOp`] to the bit pattern of
//! its result. The library decides which operations are done, on what and in
//! which order; the evaluator does each one.

use vstd::prelude::*;

verus! {

/// One floating-point operation on doubles given as bit patterns.
#[derive(Clone, Copy, Debug, PartialEq, Eq, Structural)]
pub enum FloatOp {
    /// The sum of two doubles.
    Add(u64, u64),
    /// The product of two doubles.
    Mul(u64, u64),
    /// The first double divided by the second.
    Div(u64, u64),
    /// The double that equals a single-precision float, given as its bit
    /// pattern.
    FromSingle(u32),
    /// The double that equals a signed integer.
    FromI32(i32),
    /// The double that equals an unsigned integer.
    FromU32(u32),
    /// The double nearest to a count.
    FromCount(u64),
}

/// Whether the evaluator may answer `op` with `result`.
pub open spec fn gives<E: Fn(FloatOp) -> u64>(eval: E, op: FloatOp, result: u64) -> bool {
    eval.ensures((op,), result)
}

/// Whether the evaluator takes every operation.
pub open spec fn accepts_all<E: Fn(FloatOp) -> u64>(eval: E) -> bool {
    forall|op: FloatOp| eval.requires((op,))
}

/// Whether the evaluator has one answer to each operation, as arithmetic
/// has.
pub open spec fn single_valued<E: Fn(FloatOp) -> u64>(eval: E) -> bool {
    forall|op: FloatOp, a: u64, b: u64|
        #[trigger] gives(eval, op, a) && #[trigger] gives(eval, op, b) ==> a == b
}

} // verus!
