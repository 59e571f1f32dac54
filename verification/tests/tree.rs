use arith_expr::expr::Expr;
use arith_expr::expr::Val;
use arith_expr::op::Op;

#[test]
fn num_builds_a_literal() {
    let e = Expr::num(2.5f32);
    assert!(e.val.is_val());
    match e.val {
        Val::Val(v) => assert_eq!(v, 2.5),
        Val::BinOp(..) => panic!("a literal was expected"),
    }
}

#[test]
fn calc_builds_an_operator_node_over_its_arguments() {
    let e = Expr::calc(Op::Mul, Expr::num(2.0f32), Expr::num(8.0f32));
    assert!(!e.val.is_val());
    match e.val {
        Val::BinOp(op, lhs, rhs) => {
            assert_eq!(op, Op::Mul);
            assert!(matches!(lhs.val, Val::Val(v) if v == 2.0));
            assert!(matches!(rhs.val, Val::Val(v) if v == 8.0));
        }
        Val::Val(_) => panic!("an operator node was expected"),
    }
}

#[test]
fn calc_keeps_left_and_right_apart() {
    let e = Expr::calc(
        Op::Sub,
        Expr::calc(Op::Add, Expr::num(1.0f32), Expr::num(2.0f32)),
        Expr::num(3.0f32),
    );
    match e.val {
        Val::BinOp(op, lhs, rhs) => {
            assert_eq!(op, Op::Sub);
            assert!(!lhs.val.is_val());
            assert_eq!(lhs.val.get_op(), Op::Add);
            assert!(rhs.val.is_val());
        }
        Val::Val(_) => panic!("an operator node was expected"),
    }
}

#[test]
fn is_val_tells_literals_from_operator_nodes() {
    assert!(Val::Val(0.0f32).is_val());
    assert!(Val::Val(f32::NAN).is_val());
    let node = Val::BinOp(Op::Add, Box::new(Expr::num(1.0f32)), Box::new(Expr::num(2.0f32)));
    assert!(!node.is_val());
}

#[test]
fn get_op_returns_the_operator_of_the_node() {
    for op in [Op::Add, Op::Sub, Op::Mul, Op::Div] {
        let e = Expr::calc(op, Expr::num(1.0f32), Expr::num(2.0f32));
        assert_eq!(e.val.get_op(), op);
    }
}

#[test]
fn get_op_looks_at_the_root_only() {
    let e = Expr::calc(
        Op::Div,
        Expr::calc(Op::Add, Expr::num(1.0f32), Expr::num(2.0f32)),
        Expr::calc(Op::Mul, Expr::num(3.0f32), Expr::num(4.0f32)),
    );
    assert_eq!(e.val.get_op(), Op::Div);
}

#[test]
fn trees_hold_literals_of_other_types() {
    let e = Expr::calc(Op::Add, Expr::num(7u8), Expr::num(9u8));
    assert!(!e.val.is_val());
    assert_eq!(e.val.get_op().priority(), 1);
}
