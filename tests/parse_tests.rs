use logic_parser::expr::{Expression, Operator, Val, Variable};
use logic_parser::parser::{parse, ParseError};

fn leaf(v: &Val) -> &Variable {
    match v {
        Val::Var(x) => x,
        Val::Expr(_) => panic!("expected a variable"),
    }
}

fn node(v: &Val) -> &Expression {
    match v {
        Val::Expr(e) => e,
        Val::Var(_) => panic!("expected an expression"),
    }
}

fn err(input: &str) -> ParseError {
    match parse(input.to_string()) {
        Err(e) => e,
        Ok(e) => panic!("expected an error, got {:?}", e),
    }
}

fn ok(input: &str) -> Expression {
    match parse(input.to_string()) {
        Ok(e) => e,
        Err(e) => panic!("expected a tree, got {:?}", e),
    }
}

#[test]
fn lone_variable_is_incomplete() {
    assert_eq!(err("A"), ParseError::IncompleteLeftOperand);
    assert_eq!(err("Abc"), ParseError::IncompleteLeftOperand);
    assert_eq!(err("x1_y"), ParseError::IncompleteLeftOperand);
}

#[test]
fn conjunction_of_two_variables() {
    let e = ok("A & B");
    assert_eq!(e.op, Operator::And);
    assert!(!e.not);
    assert_eq!(e.raw, "A & B");
    let l = leaf(&e.lhs);
    let r = leaf(&e.rhs);
    assert_eq!(l.name, "A");
    assert_eq!(r.name, "B");
    assert!(!l.not && !r.not);
    assert!(!l.value && !r.value);
}

#[test]
fn negated_left_in_disjunction() {
    let e = ok("!A | B");
    assert_eq!(e.op, Operator::Or);
    let l = leaf(&e.lhs);
    let r = leaf(&e.rhs);
    assert_eq!(l.name, "A");
    assert!(l.not);
    assert_eq!(r.name, "B");
    assert!(!r.not);
}

#[test]
fn group_on_the_left() {
    let e = ok("(A & B) | C");
    assert_eq!(e.op, Operator::Or);
    let g = node(&e.lhs);
    assert_eq!(g.op, Operator::And);
    assert_eq!(g.raw, "A & B");
    assert!(!g.not);
    assert_eq!(leaf(&g.lhs).name, "A");
    assert_eq!(leaf(&g.rhs).name, "B");
    assert_eq!(leaf(&e.rhs).name, "C");
}

#[test]
fn negated_group_on_the_right() {
    let e = ok("A | !(B & C)");
    assert_eq!(e.op, Operator::Or);
    assert_eq!(leaf(&e.lhs).name, "A");
    let g = node(&e.rhs);
    assert!(g.not);
    assert_eq!(g.op, Operator::And);
    assert_eq!(leaf(&g.lhs).name, "B");
    assert_eq!(leaf(&g.rhs).name, "C");
}

#[test]
fn unterminated_group() {
    assert_eq!(err("(A & B"), ParseError::UnterminatedGroup);
}

#[test]
fn unmatched_close_paren() {
    assert_eq!(err(")A"), ParseError::UnmatchedCloseParen);
}

#[test]
fn operator_before_left_operand() {
    assert_eq!(err("& A"), ParseError::OperatorBeforeLeftOperand);
    assert_eq!(err("| A"), ParseError::OperatorBeforeLeftOperand);
}

#[test]
fn dangling_open_paren() {
    assert_eq!(err("A & ("), ParseError::DanglingOpenParen);
    assert_eq!(err("("), ParseError::DanglingOpenParen);
}

#[test]
fn error_inside_a_group_is_passed_up() {
    assert_eq!(err("(& A) | B"), ParseError::OperatorBeforeLeftOperand);
    assert_eq!(err("(A) | B"), ParseError::IncompleteLeftOperand);
}

#[test]
fn operator_right_after_a_name_is_read() {
    let e = ok("A|B");
    assert_eq!(e.op, Operator::Or);
    assert_eq!(leaf(&e.lhs).name, "A");
    assert_eq!(leaf(&e.rhs).name, "B");
}

#[test]
fn empty_input_gives_empty_slots() {
    let e = ok("");
    assert_eq!(e.op, Operator::And);
    assert_eq!(leaf(&e.lhs).name, "");
    assert_eq!(leaf(&e.rhs).name, "");
}

#[test]
fn single_group_defaults_to_and_with_empty_rhs() {
    let e = ok("(A | B)");
    assert_eq!(e.op, Operator::And);
    assert_eq!(node(&e.lhs).op, Operator::Or);
    assert_eq!(leaf(&e.rhs).name, "");
}

#[test]
fn group_ends_at_first_close_paren() {
    // the group is "(A & B", whose `(` has no `)` of its own
    assert_eq!(err("((A & B) | C)"), ParseError::UnterminatedGroup);
}

#[test]
fn trailing_text_after_right_operand_is_ignored() {
    let e = ok("A & B | C");
    assert_eq!(e.op, Operator::And);
    assert_eq!(leaf(&e.rhs).name, "B");
    assert_eq!(e.raw, "A & B | C");
}

#[test]
fn reparsing_raw_gives_same_tree() {
    let first = ok("!(A | B) & C");
    let second = ok(&first.raw);
    assert_eq!(format!("{:?}", first), format!("{:?}", second));
}
