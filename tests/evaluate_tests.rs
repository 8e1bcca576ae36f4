use logic_parser::expr::{Expression, Operator, Val, Variable};
use logic_parser::parser::parse;

fn var(name: &str, value: bool, not: bool) -> Val {
    Val::Var(Variable { name: name.to_string(), value, not })
}

fn node(lhs: Val, op: Operator, rhs: Val, not: bool) -> Expression {
    Expression { raw: String::new(), lhs: Box::new(lhs), rhs: Box::new(rhs), op, not }
}

#[test]
fn unassigned_tree_without_negation_is_false() {
    for op in [Operator::And, Operator::Or] {
        let inner = node(var("A", false, false), op, var("B", false, false), false);
        assert!(!inner.evaluate());
        let outer = node(Val::Expr(inner), Operator::Or, var("C", false, false), false);
        assert!(!outer.evaluate());
    }
}

#[test]
fn negated_node_over_negated_leaves_flips_once() {
    for op in [Operator::And, Operator::Or] {
        let e = node(var("A", false, true), op, var("B", false, true), true);
        assert_eq!(e.get_values(), (true, true));
        assert!(!e.evaluate());
        let plain = node(var("A", false, true), op, var("B", false, true), false);
        assert!(plain.evaluate());
    }
}

#[test]
fn connectives_combine_as_stated() {
    let and = node(var("A", true, false), Operator::And, var("B", false, false), false);
    assert!(!and.evaluate());
    let or = node(var("A", true, false), Operator::Or, var("B", false, false), false);
    assert!(or.evaluate());
    let both = node(var("A", true, false), Operator::And, var("B", true, false), false);
    assert!(both.evaluate());
}

#[test]
fn nested_values_reach_the_root() {
    let inner = node(var("A", false, true), Operator::And, var("B", true, false), true);
    assert_eq!(inner.get_values(), (true, true));
    assert!(!inner.evaluate());
    let outer = node(Val::Expr(inner), Operator::Or, var("C", false, true), false);
    assert_eq!(outer.get_values(), (false, true));
    assert!(outer.evaluate());
}

#[test]
fn parsed_statements_evaluate() {
    let e = parse("!A | B".to_string()).unwrap();
    assert!(e.evaluate());
    let e = parse("A & B".to_string()).unwrap();
    assert!(!e.evaluate());
    let e = parse("!(A | B) & !C".to_string()).unwrap();
    assert!(e.evaluate());
}

#[test]
fn variables_are_equal_by_name() {
    let a = Variable { name: "A".to_string(), value: true, not: false };
    let b = Variable { name: "A".to_string(), value: false, not: true };
    let c = Variable { name: "C".to_string(), value: true, not: false };
    assert!(a == b);
    assert!(a != c);
}
