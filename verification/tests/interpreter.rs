use sdfcore::interpreter::{Instruction, SdfInstructions, Transform, FAR};
use sdfcore::ops::Operator;
use sdfcore::sdf2::Shape;
use sdfcore::stack::Stack;
use sdfcore::vec2::Vec2;
use sdfcore::UNIT;

fn disk_at(radius: i64, x: i64, y: i64) -> Instruction {
    Instruction::PushShape(
        Shape::Disk { radius },
        Transform { position: Vec2 { x, y } },
    )
}

#[test]
fn stack_push_pop_peek() {
    let mut s: Stack<8> = Stack::new();
    assert_eq!(s.len(), 0);
    s.push(10);
    s.push(-20);
    assert_eq!(s.len(), 2);
    assert_eq!(s.peek(), -20);
    assert_eq!(s.pop(), -20);
    assert_eq!(s.pop(), 10);
    assert_eq!(s.len(), 0);
}

#[test]
fn union_of_two_circles_at_origin() {
    // circle r=1 at (0,0), circle r=1 at (2,0), union, queried at (0,0): -1
    let program = [
        disk_at(UNIT, 0, 0),
        disk_at(UNIT, 2 * UNIT, 0),
        Instruction::ApplyOperator(Operator::Union),
    ];
    let field = SdfInstructions::new(&program);
    assert!(field.validate());
    assert_eq!(field.signed_distance(Vec2 { x: 0, y: 0 }), -UNIT);
    assert_eq!(field.try_signed_distance(Vec2 { x: 0, y: 0 }), Some(-UNIT));
}

#[test]
fn empty_program_is_far() {
    let program: [Instruction; 0] = [];
    let field = SdfInstructions::new(&program);
    assert!(field.validate());
    assert_eq!(field.signed_distance(Vec2 { x: 123, y: -456 }), FAR);
}

#[test]
fn pop_order_fixes_difference_operands() {
    // first pushed is subtracted from second pushed: max(b, -a)
    let a = disk_at(UNIT, 0, 0); // at origin: -UNIT
    let b = disk_at(UNIT, 4 * UNIT, 0); // at origin: 3*UNIT
    let program = [a, b, Instruction::ApplyOperator(Operator::Difference)];
    let field = SdfInstructions::new(&program);
    let d = field.signed_distance(Vec2 { x: 0, y: 0 });
    assert_eq!(d, 3 * UNIT); // max(3*UNIT, UNIT)
    let program_rev = [b, a, Instruction::ApplyOperator(Operator::Difference)];
    let field_rev = SdfInstructions::new(&program_rev);
    let d_rev = field_rev.signed_distance(Vec2 { x: 0, y: 0 });
    assert_eq!(d_rev, -UNIT); // max(-UNIT, -3*UNIT)
}

#[test]
fn symmetric_operators_commute_at_program_level() {
    let a = disk_at(UNIT, 0, 0);
    let b = disk_at(UNIT / 2, 3 * UNIT, -UNIT);
    for op in [Operator::Union, Operator::Intersection, Operator::Xor] {
        let ab = [a, b, Instruction::ApplyOperator(op)];
        let ba = [b, a, Instruction::ApplyOperator(op)];
        let q = Vec2 { x: UNIT, y: UNIT };
        assert_eq!(
            SdfInstructions::new(&ab).signed_distance(q),
            SdfInstructions::new(&ba).signed_distance(q),
        );
    }
}

#[test]
fn nested_program_evaluates_in_postfix_order() {
    // ((A union B) difference C) at origin
    let a = disk_at(UNIT, 0, 0); // -UNIT
    let b = disk_at(UNIT, 2 * UNIT, 0); // UNIT
    let c = disk_at(UNIT / 2, 0, UNIT); // norm(0,-UNIT)-UNIT/2 = UNIT/2
    let program = [
        a,
        b,
        Instruction::ApplyOperator(Operator::Union), // -UNIT
        c,
        Instruction::ApplyOperator(Operator::Difference), // max(c_d, UNIT)
    ];
    let field = SdfInstructions::new(&program);
    assert!(field.validate());
    assert_eq!(field.signed_distance(Vec2 { x: 0, y: 0 }), UNIT);
}

#[test]
fn malformed_programs_are_rejected() {
    // an operator with no operands
    let p1 = [Instruction::ApplyOperator(Operator::Union)];
    assert!(!SdfInstructions::new(&p1).validate());
    assert_eq!(SdfInstructions::new(&p1).try_signed_distance(Vec2 { x: 0, y: 0 }), None);
    // two values left on the stack
    let p2 = [disk_at(UNIT, 0, 0), disk_at(UNIT, 0, 0)];
    assert!(!SdfInstructions::new(&p2).validate());
    // an operator with only one operand
    let p3 = [disk_at(UNIT, 0, 0), Instruction::ApplyOperator(Operator::Xor)];
    assert!(!SdfInstructions::new(&p3).validate());
}

#[test]
fn stack_capacity_is_enforced() {
    // nine pushes exceed the fixed capacity of eight
    let mut program = Vec::new();
    for _ in 0..9 {
        program.push(disk_at(UNIT, 0, 0));
    }
    for _ in 0..8 {
        program.push(Instruction::ApplyOperator(Operator::Union));
    }
    assert!(!SdfInstructions::new(&program).validate());
    assert_eq!(
        SdfInstructions::new(&program).try_signed_distance(Vec2 { x: 0, y: 0 }),
        None,
    );
    // eight pushes fit exactly
    let mut ok = Vec::new();
    for _ in 0..8 {
        ok.push(disk_at(UNIT, 0, 0));
    }
    for _ in 0..7 {
        ok.push(Instruction::ApplyOperator(Operator::Union));
    }
    assert!(SdfInstructions::new(&ok).validate());
    assert_eq!(
        SdfInstructions::new(&ok).try_signed_distance(Vec2 { x: 0, y: 0 }),
        Some(-UNIT),
    );
}

#[test]
fn grid_sampling_matches_point_queries() {
    let program = [
        disk_at(UNIT, 0, 0),
        disk_at(UNIT, 2 * UNIT, 0),
        Instruction::ApplyOperator(Operator::Union),
    ];
    let field = SdfInstructions::new(&program);
    let (nx, ny) = (5usize, 3usize);
    let out = field.sample_grid(-UNIT, -UNIT, UNIT, nx, ny);
    assert_eq!(out.len(), nx * ny);
    for row in 0..ny {
        for col in 0..nx {
            let p = Vec2 { x: -UNIT + col as i64 * UNIT, y: -UNIT + row as i64 * UNIT };
            assert_eq!(out[row * nx + col], field.signed_distance(p));
        }
    }
    // a corner cell of the union of unit disks at 0 and 2
    assert_eq!(out[0], field.signed_distance(Vec2 { x: -UNIT, y: -UNIT }));
    assert_eq!(out[6], -UNIT); // row 1, col 1: the first disk's center
}

#[test]
fn out_of_range_parameters_are_rejected() {
    let p = [disk_at(UNIT, i64::MAX / 2, 0)];
    assert!(!SdfInstructions::new(&p).validate());
}
