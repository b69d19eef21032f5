//! Boolean (CSG) combinators over two already-evaluated signed distances.
//!
//! All four are pure; `Union`, `Intersection` and `Xor` are commutative,
//! `Difference` is not: `Difference` subtracts the first-pushed operand from
//! the second.

use crate::fixed::{max2, min2};
use vstd::prelude::*;

verus! {

/// A binary boolean combinator over signed distances.
#[derive(Clone, Copy, PartialEq, Eq, Structural, Debug)]
pub enum Operator {
    Union,
    Intersection,
    Difference,
    Xor,
}

/// What each operator computes, over mathematical integers.
pub open spec fn op_apply(op: Operator, a: int, b: int) -> int {
    match op {
        Operator::Union => vstd::math::min(a, b),
        Operator::Intersection => vstd::math::max(a, b),
        Operator::Difference => vstd::math::max(b, -a),
        Operator::Xor => vstd::math::max(
            vstd::math::min(a, b),
            -vstd::math::max(a, b),
        ),
    }
}

impl Operator {
    /// Combine two distances: `Union` is `min`, `Intersection` is `max`,
    /// `Difference` is `max(b, -a)` (removes shape `a` from shape `b`), and
    /// `Xor` is `max(min(a, b), -max(a, b))`, the symmetric difference.
    pub fn operate(self, a: i64, b: i64) -> (r: i64)
        requires
            a != i64::MIN,
        ensures
            r == op_apply(self, a as int, b as int),
    {
        match self {
            Operator::Union => min2(a, b),
            Operator::Intersection => max2(a, b),
            Operator::Difference => max2(b, -a),
            Operator::Xor => max2(min2(a, b), -max2(a, b)),
        }
    }
}

/// Commutativity law: every operator except `Difference` is symmetric in
/// its operands.
pub proof fn lemma_operator_commutative(op: Operator, a: int, b: int)
    requires
        op != Operator::Difference,
    ensures
        op_apply(op, a, b) == op_apply(op, b, a),
{
}

} // verus!
