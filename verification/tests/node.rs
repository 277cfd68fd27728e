use std::rc::Rc;

use rcc::node::{BinaryOpAst, CBinOps, AST};

fn leaf(n: i32) -> Rc<AST> {
    Rc::new(AST::Int(n))
}

fn bin(l: Rc<AST>, op: &str, r: Rc<AST>) -> Rc<AST> {
    Rc::new(AST::BinaryOp(BinaryOpAst::new(l, r, op.to_string()).unwrap()))
}

fn folded(l: i32, op: &str, r: i32) -> i32 {
    BinaryOpAst::new(leaf(l), leaf(r), op.to_string()).unwrap().eval_constexpr()
}

#[test]
fn every_operator_is_recognised() {
    let table = [
        ("+", CBinOps::Add),
        ("-", CBinOps::Sub),
        ("*", CBinOps::Mul),
        ("/", CBinOps::Div),
        ("%", CBinOps::Rem),
        ("&", CBinOps::And),
        ("|", CBinOps::Or),
        ("^", CBinOps::Xor),
        ("&&", CBinOps::LAnd),
        ("||", CBinOps::LOr),
        ("==", CBinOps::Eq),
        ("!=", CBinOps::Ne),
        ("<", CBinOps::Lt),
        (">", CBinOps::Gt),
        ("<=", CBinOps::Le),
        (">=", CBinOps::Ge),
        ("<<", CBinOps::Shl),
        (">>", CBinOps::Shr),
    ];
    for (text, op) in table {
        assert_eq!(CBinOps::from_symbol(text), Some(op));
        let node = BinaryOpAst::new(leaf(1), leaf(2), text.to_string()).unwrap();
        assert_eq!(node.op, op);
    }
}

#[test]
fn other_texts_are_no_operators() {
    for text in ["", "=", "+=", "<<=", "!", "~", "->", "and", "+ "] {
        assert_eq!(CBinOps::from_symbol(text), None);
        assert!(BinaryOpAst::new(leaf(1), leaf(2), text.to_string()).is_none());
    }
}

#[test]
fn arithmetic_folds() {
    assert_eq!(folded(7, "+", 5), 12);
    assert_eq!(folded(7, "-", 9), -2);
    assert_eq!(folded(-6, "*", 7), -42);
    assert_eq!(folded(7, "/", 2), 3);
    assert_eq!(folded(-7, "/", 2), -3);
    assert_eq!(folded(7, "/", -2), -3);
    assert_eq!(folded(-7, "/", -2), 3);
    assert_eq!(folded(7, "%", 2), 1);
    assert_eq!(folded(-7, "%", 2), -1);
    assert_eq!(folded(7, "%", -2), 1);
    assert_eq!(folded(-7, "%", -2), -1);
    assert_eq!(folded(i32::MIN, "/", 1), i32::MIN);
    assert_eq!(folded(i32::MAX, "+", 0), i32::MAX);
}

#[test]
fn bitwise_operators_fold() {
    assert_eq!(folded(0b1100, "&", 0b1010), 0b1000);
    assert_eq!(folded(0b1100, "|", 0b1010), 0b1110);
    assert_eq!(folded(0b1100, "^", 0b1010), 0b0110);
    assert_eq!(folded(-1, "&", 0x7f), 0x7f);
    assert_eq!(folded(1, "<<", 4), 16);
    assert_eq!(folded(1, "<<", 31), i32::MIN);
    assert_eq!(folded(-16, ">>", 2), -4);
    assert_eq!(folded(16, ">>", 0), 16);
}

#[test]
fn logical_and_relational_operators_yield_zero_or_one() {
    assert_eq!(folded(3, "&&", 4), 1);
    assert_eq!(folded(3, "&&", 0), 0);
    assert_eq!(folded(0, "||", 0), 0);
    assert_eq!(folded(0, "||", -1), 1);
    assert_eq!(folded(2, "==", 2), 1);
    assert_eq!(folded(2, "==", 3), 0);
    assert_eq!(folded(2, "!=", 3), 1);
    assert_eq!(folded(2, "<", 3), 1);
    assert_eq!(folded(3, "<", 3), 0);
    assert_eq!(folded(4, ">", 3), 1);
    assert_eq!(folded(3, "<=", 3), 1);
    assert_eq!(folded(2, ">=", 3), 0);
}

#[test]
fn nested_expressions_fold() {
    // (1 + 2) * (10 - 4) / 4
    let tree = bin(bin(bin(leaf(1), "+", leaf(2)), "*", bin(leaf(10), "-", leaf(4))), "/", leaf(4));
    assert_eq!(tree.eval_constexpr(), 4);
    assert_eq!(AST::Int(-5).eval_constexpr(), -5);
}

#[test]
fn fold_applies_the_operator_to_constants() {
    assert_eq!(CBinOps::Sub.fold(1, 2), -1);
    assert_eq!(CBinOps::Shl.fold(3, 2), 12);
    assert_eq!(CBinOps::Ge.fold(3, 3), 1);
}

#[test]
fn undefined_operations_do_not_fold() {
    let by_zero = BinaryOpAst::new(leaf(1), leaf(0), "/".to_string()).unwrap();
    assert_eq!(by_zero.try_eval_constexpr(), None);
    let rem_zero = BinaryOpAst::new(leaf(1), leaf(0), "%".to_string()).unwrap();
    assert_eq!(rem_zero.try_eval_constexpr(), None);
    let least = BinaryOpAst::new(leaf(i32::MIN), leaf(-1), "/".to_string()).unwrap();
    assert_eq!(least.try_eval_constexpr(), None);
    let too_big = BinaryOpAst::new(leaf(i32::MAX), leaf(1), "+".to_string()).unwrap();
    assert_eq!(too_big.try_eval_constexpr(), None);
    let too_small = BinaryOpAst::new(leaf(i32::MIN), leaf(1), "-".to_string()).unwrap();
    assert_eq!(too_small.try_eval_constexpr(), None);
    let product = BinaryOpAst::new(leaf(0x10000), leaf(0x8000), "*".to_string()).unwrap();
    assert_eq!(product.try_eval_constexpr(), None);
    let far = BinaryOpAst::new(leaf(1), leaf(32), "<<".to_string()).unwrap();
    assert_eq!(far.try_eval_constexpr(), None);
    let back = BinaryOpAst::new(leaf(1), leaf(-1), ">>".to_string()).unwrap();
    assert_eq!(back.try_eval_constexpr(), None);
    assert!(!CBinOps::Div.is_defined(5, 0));
    assert!(CBinOps::Div.is_defined(5, -1));
    assert!(CBinOps::Mul.is_defined(0x8000, 0xffff));
}

#[test]
fn trees_with_other_leaves_do_not_fold() {
    assert_eq!(AST::Variable("x".to_string()).try_eval_constexpr(), None);
    assert_eq!(AST::Float(0x3ff0_0000_0000_0000).try_eval_constexpr(), None);
    let tree = bin(leaf(1), "+", Rc::new(AST::Variable("x".to_string())));
    assert_eq!(tree.try_eval_constexpr(), None);
}

#[test]
fn checked_folding_agrees_with_folding() {
    let tree = bin(bin(leaf(6), "*", leaf(7)), "-", bin(leaf(1), "<<", leaf(3)));
    assert_eq!(tree.try_eval_constexpr(), Some(34));
    assert_eq!(tree.eval_constexpr(), 34);
}
