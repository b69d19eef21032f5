//! The instruction interpreter: a stack machine that composes primitive
//! distance fields into one compound field.
//!
//! A program is an ordered, immutable sequence of instructions in postfix
//! (reverse-Polish) form. `PushShape` evaluates a primitive at the query
//! point minus the instruction's transform offset and pushes the distance;
//! `ApplyOperator` pops `b`, then `a` (the most recently pushed value is
//! `b`), and pushes `op(a, b)`. After the last instruction exactly one value
//! remains on a well-formed program's stack; that value is the result. The
//! empty program is a valid special case and evaluates to the `FAR`
//! sentinel (no shape, never intersected).

use crate::ops::{op_apply, Operator};
use crate::sdf2::{sd_shape2_s, shape2_ok, Shape, DIST2_MAX};
use crate::stack::Stack;
use crate::vec2::{v2_coord_ok, Vec2};
use crate::coord_ok;
use vstd::prelude::*;

verus! {

/// Sentinel distance standing in for "+infinity": far beyond any distance a
/// primitive can produce and beyond any sphere-tracing horizon.
pub const FAR: i64 = 0x1000_0000_0000;

/// Capacity of the evaluation stack: the deepest operand nesting a program
/// may use.
pub const STACK_CAPACITY: usize = 8;

/// An affine offset applied to a primitive before evaluation.
#[derive(Clone, Copy, PartialEq, Eq, Structural, Debug)]
pub struct Transform {
    pub position: Vec2,
}

impl Default for Transform {
    /// The identity transform.
    fn default() -> (t: Transform)
        ensures
            t.position == (Vec2 { x: 0, y: 0 }),
    {
        Transform { position: Vec2 { x: 0, y: 0 } }
    }
}

/// One step of a postfix program.
#[derive(Clone, Copy, PartialEq, Eq, Structural, Debug)]
pub enum Instruction {
    PushShape(Shape, Transform),
    ApplyOperator(Operator),
}

/// The query point moved into the instruction's local frame.
pub open spec fn local_pt(p: Vec2, t: Transform) -> Vec2 {
    Vec2 { x: (p.x - t.position.x) as i64, y: (p.y - t.position.y) as i64 }
}

/// Shape parameters and transform offsets are within coordinate bounds.
pub open spec fn instr_ok(ins: Instruction) -> bool {
    match ins {
        Instruction::PushShape(s, t) => shape2_ok(s) && v2_coord_ok(t.position),
        Instruction::ApplyOperator(_) => true,
    }
}

/// Every instruction of the program is within bounds.
pub open spec fn program_ok(prog: Seq<Instruction>) -> bool {
    forall|i: int| 0 <= i < prog.len() ==> instr_ok(#[trigger] prog[i])
}

/// Stack discipline from instruction `i` onward, starting at stack depth
/// `depth`: every operator finds two operands, and exactly one value
/// remains at the end.
pub open spec fn wf_from(prog: Seq<Instruction>, i: int, depth: int) -> bool
    decreases prog.len() - i,
{
    if i < 0 || i >= prog.len() {
        depth == 1
    } else {
        match prog[i] {
            Instruction::PushShape(..) => wf_from(prog, i + 1, depth + 1),
            Instruction::ApplyOperator(_) => depth >= 2 && wf_from(prog, i + 1, depth - 1),
        }
    }
}

/// A well-formed program: executed from an empty stack, every pop finds an
/// operand and exactly one value remains at the end.
pub open spec fn program_wf(prog: Seq<Instruction>) -> bool {
    wf_from(prog, 0, 0)
}

/// Stack depth from instruction `i` onward never exceeds `cap`.
pub open spec fn fits_from(prog: Seq<Instruction>, i: int, depth: int, cap: int) -> bool
    decreases prog.len() - i,
{
    if i < 0 || i >= prog.len() {
        true
    } else {
        match prog[i] {
            Instruction::PushShape(..) => depth + 1 <= cap && fits_from(prog, i + 1, depth + 1, cap),
            Instruction::ApplyOperator(_) => fits_from(prog, i + 1, depth - 1, cap),
        }
    }
}

/// The whole program evaluates within a stack of capacity `cap`.
pub open spec fn program_fits(prog: Seq<Instruction>, cap: int) -> bool {
    fits_from(prog, 0, 0, cap)
}

/// The value stack after running the program from instruction `i` on stack
/// `st`, reduced to the final result: the last value remaining.
pub open spec fn eval_from(prog: Seq<Instruction>, p: Vec2, i: int, st: Seq<int>) -> int
    decreases prog.len() - i,
{
    if i < 0 || i >= prog.len() {
        if st.len() > 0 {
            st.last()
        } else {
            0
        }
    } else {
        match prog[i] {
            Instruction::PushShape(s, t) => eval_from(
                prog,
                p,
                i + 1,
                st.push(sd_shape2_s(s, local_pt(p, t))),
            ),
            Instruction::ApplyOperator(op) => eval_from(
                prog,
                p,
                i + 1,
                st.drop_last().drop_last().push(
                    op_apply(op, st[st.len() - 2], st[st.len() - 1]),
                ),
            ),
        }
    }
}

/// What a program denotes at a point: the postfix evaluation, or the `FAR`
/// sentinel for the empty program.
pub open spec fn eval_program_s(prog: Seq<Instruction>, p: Vec2) -> int {
    if prog.len() == 0 {
        FAR as int
    } else {
        eval_from(prog, p, 0, Seq::empty())
    }
}

/// A program the evaluator accepts: empty, or within bounds, well formed
/// and within stack capacity.
pub open spec fn program_valid(prog: Seq<Instruction>) -> bool {
    prog.len() == 0 || (program_ok(prog) && program_wf(prog) && program_fits(
        prog,
        STACK_CAPACITY as int,
    ))
}

/// The net stack effect of instructions `i .. k`: pushes count one,
/// operators count minus one.
pub open spec fn net_between(prog: Seq<Instruction>, i: int, k: int) -> int
    decreases k - i,
{
    if i < 0 || i >= k || i >= prog.len() {
        0
    } else {
        (match prog[i] {
            Instruction::PushShape(..) => 1int,
            Instruction::ApplyOperator(_) => -1int,
        }) + net_between(prog, i + 1, k)
    }
}

/// Stack discipline from `(i, depth)` is equivalent to counting: the net
/// effect of the rest is exactly one more value, and every operator still
/// to come finds at least two operands.
proof fn lemma_wf_iff_counts(prog: Seq<Instruction>, i: int, d: int)
    requires
        0 <= i <= prog.len(),
    ensures
        wf_from(prog, i, d) <==> (d + net_between(prog, i, prog.len() as int) == 1
            && (forall|k: int|
            i <= k < prog.len() && prog[k] is ApplyOperator ==> d + #[trigger] net_between(
                prog,
                i,
                k,
            ) >= 2)),
    decreases prog.len() - i,
{
    let len = prog.len() as int;
    if i == len {
        assert(net_between(prog, i, len) == 0);
    } else {
        let delta: int = match prog[i] {
            Instruction::PushShape(..) => 1,
            Instruction::ApplyOperator(_) => -1,
        };
        lemma_wf_iff_counts(prog, i + 1, d + delta);
        assert(net_between(prog, i, len) == delta + net_between(prog, i + 1, len));
        assert forall|k: int| i < k < len implies #[trigger] net_between(prog, i, k) == delta
            + net_between(prog, i + 1, k) by {
            assert(net_between(prog, i, k) == delta + net_between(prog, i + 1, k));
        }
        assert(net_between(prog, i, i) == 0);
        if wf_from(prog, i, d) {
            assert forall|k: int|
                i <= k < len && prog[k] is ApplyOperator implies d + #[trigger] net_between(
                prog,
                i,
                k,
            ) >= 2 by {
                if k == i {
                    assert(d >= 2);
                } else {
                    assert((d + delta) + net_between(prog, i + 1, k) >= 2);
                }
            }
        }
        if d + net_between(prog, i, len) == 1 && (forall|k: int|
            i <= k < len && prog[k] is ApplyOperator ==> d + #[trigger] net_between(prog, i, k)
                >= 2) {
            assert forall|k: int|
                i + 1 <= k < len && prog[k] is ApplyOperator implies (d + delta)
                + #[trigger] net_between(prog, i + 1, k) >= 2 by {
                assert(d + net_between(prog, i, k) >= 2);
            }
            if prog[i] is ApplyOperator {
                assert(d + net_between(prog, i, i) >= 2);
            }
            assert(wf_from(prog, i + 1, d + delta));
        }
    }
}

/// Stack-depth law: a program is well formed — full evaluation finds an
/// operand for every pop and leaves exactly one value on the stack —
/// exactly when its pushes outnumber its operators by one and every
/// operator is preceded by at least two more pushes than operators.
pub proof fn lemma_program_wf_iff_balanced(prog: Seq<Instruction>)
    ensures
        program_wf(prog) <==> (net_between(prog, 0, prog.len() as int) == 1 && (forall|k: int|
            0 <= k < prog.len() && prog[k] is ApplyOperator ==> #[trigger] net_between(
                prog,
                0,
                k,
            ) >= 2)),
{
    lemma_wf_iff_counts(prog, 0, 0);
}

/// Commutativity at the program level: pushing two shapes in either order
/// and combining them with a symmetric operator (any but `Difference`)
/// evaluates to the same distance at every point.
pub proof fn lemma_program_operator_commutes(
    s1: Shape,
    t1: Transform,
    s2: Shape,
    t2: Transform,
    op: Operator,
    p: Vec2,
)
    requires
        op != Operator::Difference,
    ensures
        eval_program_s(
            seq![
                Instruction::PushShape(s1, t1),
                Instruction::PushShape(s2, t2),
                Instruction::ApplyOperator(op),
            ],
            p,
        ) == eval_program_s(
            seq![
                Instruction::PushShape(s2, t2),
                Instruction::PushShape(s1, t1),
                Instruction::ApplyOperator(op),
            ],
            p,
        ),
{
    let d1 = sd_shape2_s(s1, local_pt(p, t1));
    let d2 = sd_shape2_s(s2, local_pt(p, t2));
    let prog_a = seq![
        Instruction::PushShape(s1, t1),
        Instruction::PushShape(s2, t2),
        Instruction::ApplyOperator(op),
    ];
    let prog_b = seq![
        Instruction::PushShape(s2, t2),
        Instruction::PushShape(s1, t1),
        Instruction::ApplyOperator(op),
    ];
    lemma_two_push_eval(prog_a, p, d1, d2, op);
    lemma_two_push_eval(prog_b, p, d2, d1, op);
    crate::ops::lemma_operator_commutative(op, d1, d2);
}

/// A three-instruction program — push, push, combine — evaluates to the
/// operator applied to the two shape distances in push order.
proof fn lemma_two_push_eval(prog: Seq<Instruction>, p: Vec2, d1: int, d2: int, op: Operator)
    requires
        prog.len() == 3,
        prog[0] is PushShape,
        prog[1] is PushShape,
        prog[2] == Instruction::ApplyOperator(op),
        d1 == sd_shape2_s(prog[0]->PushShape_0, local_pt(p, prog[0]->PushShape_1)),
        d2 == sd_shape2_s(prog[1]->PushShape_0, local_pt(p, prog[1]->PushShape_1)),
    ensures
        eval_program_s(prog, p) == op_apply(op, d1, d2),
{
    let st0 = Seq::<int>::empty();
    let st1 = st0.push(d1);
    let st2 = st1.push(d2);
    let st3 = st2.drop_last().drop_last().push(op_apply(op, st2[0], st2[1]));
    assert(st2[st2.len() - 2] == d1);
    assert(st2[st2.len() - 1] == d2);
    assert(eval_from(prog, p, 0, st0) == eval_from(prog, p, 1, st1));
    assert(eval_from(prog, p, 1, st1) == eval_from(prog, p, 2, st2));
    assert(eval_from(prog, p, 2, st2) == eval_from(prog, p, 3, st3));
    assert(st3.last() == op_apply(op, d1, d2));
}

/// The sample point of grid cell `k` on a regular `nx`-wide grid anchored
/// at `(x0, y0)` with spacing `step`.
pub open spec fn grid_point(x0: int, y0: int, step: int, nx: int, k: int) -> Vec2 {
    Vec2 { x: (x0 + (k % nx) * step) as i64, y: (y0 + (k / nx) * step) as i64 }
}

/// The live stack as mathematical integers.
pub open spec fn ints_of(s: Seq<i64>) -> Seq<int> {
    s.map(|j: int, v: i64| v as int)
}

/// A compound field: a borrowed postfix program, reusable across many
/// point queries.
pub struct SdfInstructions<'a> {
    pub instructions: &'a [Instruction],
}

impl<'a> SdfInstructions<'a> {
    /// Wrap a program.
    pub fn new(instructions: &'a [Instruction]) -> (r: SdfInstructions<'a>)
        ensures
            r.instructions@ == instructions@,
    {
        SdfInstructions { instructions }
    }

    /// Evaluate the compound field at `p`.
    ///
    /// The program must be well formed (this is the producer's obligation;
    /// `validate` checks it at run time) and fit the fixed stack capacity.
    pub fn signed_distance(&self, p: Vec2) -> (d: i64)
        requires
            program_ok(self.instructions@),
            program_wf(self.instructions@) || self.instructions@.len() == 0,
            program_fits(self.instructions@, STACK_CAPACITY as int),
            v2_coord_ok(p),
        ensures
            d == eval_program_s(self.instructions@, p),
            self.instructions@.len() == 0 ==> d == FAR,
            self.instructions@.len() > 0 ==> -DIST2_MAX <= d <= DIST2_MAX,
    {
        let n = self.instructions.len();
        if n == 0 {
            return FAR;
        }
        let ghost prog = self.instructions@;
        let mut stack: Stack<STACK_CAPACITY> = Stack::new();
        let mut i: usize = 0;
        proof {
            assert(ints_of(stack@) =~= Seq::<int>::empty());
        }
        while i < n
            invariant
                0 <= i <= n,
                n == prog.len(),
                prog == self.instructions@,
                program_ok(prog),
                v2_coord_ok(p),
                stack.wf(),
                stack@.len() <= STACK_CAPACITY,
                wf_from(prog, i as int, stack@.len() as int),
                fits_from(prog, i as int, stack@.len() as int, STACK_CAPACITY as int),
                forall|j: int|
                    0 <= j < stack@.len() ==> -DIST2_MAX <= #[trigger] stack@[j] <= DIST2_MAX,
                eval_from(prog, p, i as int, ints_of(stack@)) == eval_from(
                    prog,
                    p,
                    0,
                    Seq::empty(),
                ),
            decreases n - i,
        {
            let ghost st0 = stack@;
            match self.instructions[i] {
                Instruction::PushShape(shape, transform) => {
                    let local = p.sub(transform.position);
                    let d = shape.signed_distance(local);
                    proof {
                        assert(prog[i as int] == Instruction::PushShape(shape, transform));
                        assert(local == local_pt(p, transform));
                    }
                    stack.push(d);
                    proof {
                        assert(ints_of(stack@) =~= ints_of(st0).push(
                            sd_shape2_s(shape, local_pt(p, transform)),
                        ));
                        assert(eval_from(prog, p, i as int, ints_of(st0)) == eval_from(
                            prog,
                            p,
                            i + 1,
                            ints_of(stack@),
                        ));
                    }
                },
                Instruction::ApplyOperator(op) => {
                    let b = stack.pop();
                    let a = stack.pop();
                    let v = op.operate(a, b);
                    stack.push(v);
                    proof {
                        assert(prog[i as int] == Instruction::ApplyOperator(op));
                        let sti = ints_of(st0);
                        assert(sti[sti.len() - 2] == st0[st0.len() - 2] as int);
                        assert(sti[sti.len() - 1] == st0[st0.len() - 1] as int);
                        assert(ints_of(stack@) =~= sti.drop_last().drop_last().push(
                            op_apply(op, sti[sti.len() - 2], sti[sti.len() - 1]),
                        ));
                        assert(eval_from(prog, p, i as int, sti) == eval_from(
                            prog,
                            p,
                            i + 1,
                            ints_of(stack@),
                        ));
                    }
                },
            }
            i = i + 1;
        }
        proof {
            assert(stack@.len() == 1);
        }
        let ghost st_end = stack@;
        let d = stack.pop();
        proof {
            assert(ints_of(st_end).len() == 1);
            assert(d as int == ints_of(st_end).last());
            assert(eval_from(prog, p, n as int, ints_of(st_end)) == ints_of(st_end).last());
        }
        d
    }

    /// Validation mode: check at run time that the program is within
    /// bounds, well formed, and fits the evaluation stack.
    pub fn validate(&self) -> (ok: bool)
        ensures
            ok == program_valid(self.instructions@),
    {
        let ghost prog = self.instructions@;
        let n = self.instructions.len();
        if n == 0 {
            return true;
        }
        let mut depth: usize = 0;
        let mut i: usize = 0;
        while i < n
            invariant
                0 <= i <= n,
                n == prog.len(),
                prog == self.instructions@,
                depth <= STACK_CAPACITY,
                forall|j: int| 0 <= j < i ==> instr_ok(#[trigger] prog[j]),
                program_wf(prog) <==> wf_from(prog, i as int, depth as int),
                program_fits(prog, STACK_CAPACITY as int) ==> fits_from(
                    prog,
                    i as int,
                    depth as int,
                    STACK_CAPACITY as int,
                ),
                (wf_from(prog, i as int, depth as int) && fits_from(
                    prog,
                    i as int,
                    depth as int,
                    STACK_CAPACITY as int,
                )) ==> program_fits(prog, STACK_CAPACITY as int),
            decreases n - i,
        {
            match self.instructions[i] {
                Instruction::PushShape(shape, transform) => {
                    proof {
                        assert(prog[i as int] == Instruction::PushShape(shape, transform));
                    }
                    if !shape.check() {
                        return false;
                    }
                    let pos = transform.position;
                    if pos.x < -crate::COORD_MAX || pos.x > crate::COORD_MAX || pos.y
                        < -crate::COORD_MAX || pos.y > crate::COORD_MAX {
                        return false;
                    }
                    if depth == STACK_CAPACITY {
                        return false;
                    }
                    depth = depth + 1;
                },
                Instruction::ApplyOperator(op) => {
                    proof {
                        assert(prog[i as int] == Instruction::ApplyOperator(op));
                    }
                    if depth < 2 {
                        return false;
                    }
                    depth = depth - 1;
                },
            }
            i = i + 1;
        }
        depth == 1
    }

    /// Sample the compound field over a regular grid, row by row: cell `k`
    /// holds the field at column `k % nx`, row `k / nx`. Every cell is a
    /// pure function of its grid indices alone, so rows and cells may be
    /// recomputed in any order with the same result.
    pub fn sample_grid(&self, x0: i64, y0: i64, step: i64, nx: usize, ny: usize) -> (out: Vec<
        i64,
    >)
        requires
            program_ok(self.instructions@),
            program_wf(self.instructions@) || self.instructions@.len() == 0,
            program_fits(self.instructions@, STACK_CAPACITY as int),
            0 < nx <= 4096,
            0 < ny <= 4096,
            0 <= step,
            -crate::COORD_MAX <= x0,
            -crate::COORD_MAX <= y0,
            x0 + nx * step <= crate::COORD_MAX,
            y0 + ny * step <= crate::COORD_MAX,
        ensures
            out@.len() == nx * ny,
            forall|k: int|
                0 <= k < out@.len() ==> out@[k] == eval_program_s(
                    self.instructions@,
                    #[trigger] grid_point(x0 as int, y0 as int, step as int, nx as int, k),
                ),
    {
        let ghost prog = self.instructions@;
        proof {
            assert(nx * ny <= 4096 * 4096) by (nonlinear_arith)
                requires
                    0 < nx <= 4096,
                    0 < ny <= 4096,
            ;
        }
        let total: usize = nx * ny;
        let mut out: Vec<i64> = Vec::new();
        let mut k: usize = 0;
        while k < total
            invariant
                program_ok(prog),
                program_wf(prog) || prog.len() == 0,
                program_fits(prog, STACK_CAPACITY as int),
                prog == self.instructions@,
                0 < nx <= 4096,
                0 < ny <= 4096,
                0 <= step,
                -crate::COORD_MAX <= x0,
                -crate::COORD_MAX <= y0,
                x0 + nx * step <= crate::COORD_MAX,
                y0 + ny * step <= crate::COORD_MAX,
                total == nx * ny,
                0 <= k <= total,
                out@.len() == k,
                forall|kk: int|
                    0 <= kk < k ==> out@[kk] == eval_program_s(
                        prog,
                        #[trigger] grid_point(x0 as int, y0 as int, step as int, nx as int, kk),
                    ),
            decreases total - k,
        {
            let row = k / nx;
            let col = k % nx;
            proof {
                vstd::arithmetic::div_mod::lemma_fundamental_div_mod(k as int, nx as int);
                vstd::arithmetic::div_mod::lemma_mod_bound(k as int, nx as int);
                assert(row < ny) by (nonlinear_arith)
                    requires
                        k < nx * ny,
                        k as int == (nx as int) * (row as int) + col,
                        0 <= col < nx,
                        nx > 0,
                        ny > 0,
                        row >= 0,
                ;
                vstd::arithmetic::mul::lemma_mul_inequality(col + 1, nx as int, step as int);
                vstd::arithmetic::mul::lemma_mul_inequality(row + 1, ny as int, step as int);
                assert((col + 1) * (step as int) == (col as int) * step + step)
                    by (nonlinear_arith);
                assert((row + 1) * (step as int) == (row as int) * step + step)
                    by (nonlinear_arith);
                assert((col as int) * step >= 0) by (nonlinear_arith)
                    requires
                        col >= 0,
                        step >= 0,
                ;
                assert((row as int) * step >= 0) by (nonlinear_arith)
                    requires
                        row >= 0,
                        step >= 0,
                ;
            }
            let p = Vec2 { x: x0 + (col as i64) * step, y: y0 + (row as i64) * step };
            let d = self.signed_distance(p);
            out.push(d);
            k = k + 1;
        }
        out
    }

    /// Evaluate the compound field at `p` after validating the program:
    /// `None` exactly when the program is rejected.
    pub fn try_signed_distance(&self, p: Vec2) -> (r: Option<i64>)
        requires
            v2_coord_ok(p),
        ensures
            r is Some <==> program_valid(self.instructions@),
            r is Some ==> r->Some_0 == eval_program_s(self.instructions@, p),
    {
        if self.validate() {
            Some(self.signed_distance(p))
        } else {
            None
        }
    }
}

} // verus!
