//! Properties that hold of every statement and every tree.

use vstd::prelude::*;
use crate::expr::{combine, expr_value, val_value, ExprModel, Operator, ValModel, VariableModel};
use crate::parser::{
    close_index, initial_state, is_reserved, lemma_close_index_bounds, lemma_token_end_bounds,
    operator_of, scan, spec_parse, token_end, ParseError, ScanState,
};

verus! {

/// A possible variable name: non-empty, with no reserved character.
pub open spec fn is_name(a: Seq<char>) -> bool {
    a.len() > 0 && forall|j: int| 0 <= j < a.len() ==> !is_reserved(#[trigger] a[j])
}

/// A leaf named `a` with the given negation flag and no value assigned.
pub open spec fn leaf(a: Seq<char>, not: bool) -> ValModel {
    ValModel::Var(VariableModel { name: a, value: false, not })
}

/// A name that starts at `i` and is followed by a reserved character (or
/// the end) at `i + a.len()` is read whole.
proof fn lemma_name_token(s: Seq<char>, i: int, a: Seq<char>)
    requires
        is_name(a),
        0 <= i,
        i + a.len() <= s.len(),
        s.subrange(i, i + a.len()) == a,
        i + a.len() < s.len() ==> is_reserved(s[i + a.len()]),
    ensures
        token_end(s, i) == i + a.len(),
        s[i] == a[0],
    decreases a.len(),
{
    assert(s[i] == s.subrange(i, i + a.len())[0]);
    if a.len() == 1 {
        assert(token_end(s, i + 1) == i + 1);
    } else {
        let rest = a.subrange(1, a.len() as int);
        assert(s.subrange(i + 1, i + 1 + rest.len()) =~= rest);
        assert(is_name(rest)) by {
            assert forall|j: int| 0 <= j < rest.len() implies !is_reserved(#[trigger] rest[j]) by {
                assert(rest[j] == a[j + 1]);
            }
        }
        lemma_name_token(s, i + 1, rest);
    }
}

/// A lone variable name is not a statement: the input ends while the left
/// operand is still being read.
pub proof fn lemma_lone_name_incomplete(a: Seq<char>)
    requires
        is_name(a),
    ensures
        spec_parse(a) == Err::<ExprModel, ParseError>(ParseError::IncompleteLeftOperand),
{
    assert(a.subrange(0, a.len() as int) =~= a);
    lemma_name_token(a, 0, a);
}

/// `a & b` parses to the conjunction of the plain leaves `a` and `b`.
pub proof fn lemma_parse_and(a: Seq<char>, b: Seq<char>)
    requires
        is_name(a),
        is_name(b),
    ensures
        spec_parse(a + seq![' ', '&', ' '] + b) == Ok::<ExprModel, ParseError>(
            ExprModel {
                raw: a + seq![' ', '&', ' '] + b,
                lhs: Box::new(leaf(a, false)),
                rhs: Box::new(leaf(b, false)),
                op: Operator::And,
                not: false,
            },
        ),
{
    let s = a + seq![' ', '&', ' '] + b;
    let n = a.len() as int;
    assert(s.subrange(0, n) =~= a);
    assert(s.subrange(n + 3, s.len() as int) =~= b);
    assert(s[n] == ' ' && s[n + 1] == '&' && s[n + 2] == ' ');
    lemma_name_token(s, 0, a);
    lemma_name_token(s, n + 3, b);
    let st0 = initial_state();
    let st1 = ScanState { side: true, lhs: leaf(a, false), not: false, ..st0 };
    let st2 = ScanState { op: Operator::And, ..st1 };
    assert(scan(s, n + 2, st2) == scan(s, n + 3, st2));
    assert(scan(s, n + 1, st1) == scan(s, n + 2, st2));
    assert(scan(s, n, st1) == scan(s, n + 1, st1));
    assert(scan(s, 0, st0) == scan(s, n, st1));
}

/// `!a | b` parses to the disjunction of `a` negated and `b` plain.
pub proof fn lemma_parse_negated_or(a: Seq<char>, b: Seq<char>)
    requires
        is_name(a),
        is_name(b),
    ensures
        spec_parse(seq!['!'] + a + seq![' ', '|', ' '] + b) == Ok::<ExprModel, ParseError>(
            ExprModel {
                raw: seq!['!'] + a + seq![' ', '|', ' '] + b,
                lhs: Box::new(leaf(a, true)),
                rhs: Box::new(leaf(b, false)),
                op: Operator::Or,
                not: false,
            },
        ),
{
    let s = seq!['!'] + a + seq![' ', '|', ' '] + b;
    let n = a.len() as int + 1;
    assert(s.subrange(1, n) =~= a);
    assert(s.subrange(n + 3, s.len() as int) =~= b);
    assert(s[0] == '!' && s[n] == ' ' && s[n + 1] == '|' && s[n + 2] == ' ');
    lemma_name_token(s, 1, a);
    lemma_name_token(s, n + 3, b);
    let st0 = initial_state();
    let stn = ScanState { not: true, ..st0 };
    let st1 = ScanState { side: true, lhs: leaf(a, true), not: false, ..st0 };
    let st2 = ScanState { op: Operator::Or, ..st1 };
    assert(scan(s, n + 2, st2) == scan(s, n + 3, st2));
    assert(scan(s, n + 1, st1) == scan(s, n + 2, st2));
    assert(scan(s, n, st1) == scan(s, n + 1, st1));
    assert(scan(s, 1, stn) == scan(s, n, st1));
    assert(scan(s, 0, st0) == scan(s, 1, stn));
}

/// Every `Ok` that scanning `s` yields is a node whose text is `s`.
proof fn lemma_scan_raw(s: Seq<char>, i: int, st: ScanState)
    ensures
        scan(s, i, st) is Ok ==> scan(s, i, st)->Ok_0.raw == s,
    decreases s.len() - i,
{
    if 0 <= i < s.len() {
        let c = s[i];
        if c == '(' {
            if i + 1 < s.len() {
                lemma_close_index_bounds(s, i + 1);
                let k = close_index(s, i + 1);
                if k < s.len() {
                    match scan(s.subrange(i + 1, k), 0, initial_state()) {
                        Ok(g) => {
                            let group = ValModel::Expr(ExprModel { not: st.not, ..g });
                            lemma_scan_raw(
                                s,
                                k + 1,
                                ScanState { side: true, lhs: group, not: false, ..st },
                            );
                        },
                        Err(_) => {},
                    }
                }
            }
        } else if c == ' ' {
            lemma_scan_raw(s, i + 1, st);
        } else if c == '&' || c == '|' {
            lemma_scan_raw(s, i + 1, ScanState { op: operator_of(c), ..st });
        } else if c == '!' {
            lemma_scan_raw(s, i + 1, ScanState { not: true, ..st });
        } else if c != ')' {
            lemma_token_end_bounds(s, i);
            let k = token_end(s, i);
            let leaf = ValModel::Var(
                VariableModel { name: s.subrange(i, k), value: false, not: st.not },
            );
            if k < s.len() {
                lemma_scan_raw(s, k, ScanState { side: true, lhs: leaf, not: false, ..st });
            }
        }
    }
}

/// Parsing the text kept in a parsed node gives that node back: the node's
/// text is the input itself, so a second parse yields the same tree.
pub proof fn lemma_reparse_raw(s: Seq<char>)
    requires
        spec_parse(s) is Ok,
    ensures
        spec_parse(s)->Ok_0.raw == s,
        spec_parse(spec_parse(s)->Ok_0.raw) == spec_parse(s),
{
    lemma_scan_raw(s, 0, initial_state());
}

/// Scanning never runs its cursor off the input: the bounds error is never
/// the result, at any level of nesting.
pub proof fn lemma_scan_stays_in_bounds(s: Seq<char>, i: int, st: ScanState)
    ensures
        scan(s, i, st) != Err::<ExprModel, ParseError>(ParseError::InternalIndexBounds),
    decreases s.len(), s.len() - i,
{
    if 0 <= i < s.len() {
        let c = s[i];
        if c == '(' {
            if i + 1 < s.len() {
                lemma_close_index_bounds(s, i + 1);
                let k = close_index(s, i + 1);
                if k < s.len() {
                    lemma_scan_stays_in_bounds(s.subrange(i + 1, k), 0, initial_state());
                    match scan(s.subrange(i + 1, k), 0, initial_state()) {
                        Ok(g) => {
                            let group = ValModel::Expr(ExprModel { not: st.not, ..g });
                            lemma_scan_stays_in_bounds(
                                s,
                                k + 1,
                                ScanState { side: true, lhs: group, not: false, ..st },
                            );
                        },
                        Err(_) => {},
                    }
                }
            }
        } else if c == ' ' {
            lemma_scan_stays_in_bounds(s, i + 1, st);
        } else if c == '&' || c == '|' {
            lemma_scan_stays_in_bounds(s, i + 1, ScanState { op: operator_of(c), ..st });
        } else if c == '!' {
            lemma_scan_stays_in_bounds(s, i + 1, ScanState { not: true, ..st });
        } else if c != ')' {
            lemma_token_end_bounds(s, i);
            let k = token_end(s, i);
            let leaf = ValModel::Var(
                VariableModel { name: s.subrange(i, k), value: false, not: st.not },
            );
            if k < s.len() {
                lemma_scan_stays_in_bounds(
                    s,
                    k,
                    ScanState { side: true, lhs: leaf, not: false, ..st },
                );
            }
        }
    }
}

/// No input makes parsing fail with the bounds error.
pub proof fn lemma_parse_stays_in_bounds(s: Seq<char>)
    ensures
        spec_parse(s) != Err::<ExprModel, ParseError>(ParseError::InternalIndexBounds),
{
    lemma_scan_stays_in_bounds(s, 0, initial_state());
}

/// An operand slot in which no value is assigned and nothing is negated.
pub open spec fn plain_false_val(v: ValModel) -> bool
    decreases v,
{
    match v {
        ValModel::Var(x) => !x.value && !x.not,
        ValModel::Expr(e) => plain_false_expr(e),
    }
}

/// A tree in which no leaf has a value assigned and no node or leaf is
/// negated.
pub open spec fn plain_false_expr(e: ExprModel) -> bool
    decreases e,
{
    !e.not && plain_false_val(*e.lhs) && plain_false_val(*e.rhs)
}

proof fn lemma_plain_false_val(v: ValModel)
    requires
        plain_false_val(v),
    ensures
        !val_value(v),
    decreases v,
{
    if let ValModel::Expr(e) = v {
        lemma_plain_false_evaluates_false(e);
    }
}

/// A tree with unassigned leaves and no negation evaluates to false, under
/// `And` and under `Or` alike, at every node.
pub proof fn lemma_plain_false_evaluates_false(e: ExprModel)
    requires
        plain_false_expr(e),
    ensures
        !expr_value(e),
    decreases e,
{
    lemma_plain_false_val(*e.lhs);
    lemma_plain_false_val(*e.rhs);
}

/// Negating a node inverts its value exactly once, whatever its operands
/// hold and however many of them are negated.
pub proof fn lemma_negation_inverts_once(e: ExprModel)
    ensures
        expr_value(ExprModel { not: !e.not, ..e }) == !expr_value(e),
        e.not ==> expr_value(e) == !combine(e.op, val_value(*e.lhs), val_value(*e.rhs)),
{
}

/// A negated node over two negated unassigned leaves: each leaf is true, the
/// combination is true, and the node is false.
pub proof fn lemma_negated_over_negated_leaves(e: ExprModel)
    requires
        e.not,
        *e.lhs matches ValModel::Var(x) && x.not && !x.value,
        *e.rhs matches ValModel::Var(y) && y.not && !y.value,
    ensures
        val_value(*e.lhs),
        val_value(*e.rhs),
        combine(e.op, val_value(*e.lhs), val_value(*e.rhs)),
        !expr_value(e),
{
}

} // verus!
