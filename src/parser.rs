//! The recursive-descent scanner that turns a line of text into an
//! [`Expression`].
//!
//! A statement holds one or two operands joined by `&` or `|`; an operand is
//! a variable name, or a parenthesised statement, optionally preceded by `!`.
//! Spaces between tokens are ignored. The reserved character that ends a
//! variable name is read in its own right, so `A|B` is a disjunction. A name
//! that runs to the end of the input while the left operand is still open is
//! an error. A group ends at the first `)` after its `(`, without regard to
//! nesting. When no connective is read, the node's connective is `And`; an
//! operand slot that is never filled holds a variable with an empty name.

use vstd::prelude::*;
use vstd::string::*;
use crate::expr::{ExprModel, Expression, Operator, Val, ValModel, Variable, VariableModel};

verus! {

/// Why a statement could not be parsed.
#[derive(Debug, Clone, Copy, PartialEq, Eq, Structural)]
pub enum ParseError {
    /// `&` or `|` came before the left operand.
    OperatorBeforeLeftOperand,
    /// `(` was the last character.
    DanglingOpenParen,
    /// `(` had no `)` after it.
    UnterminatedGroup,
    /// `)` came with no `(` before it at this level.
    UnmatchedCloseParen,
    /// The input ended inside what would have been the left operand.
    IncompleteLeftOperand,
    /// The scanner's cursor left the input; no input leads here.
    InternalIndexBounds,
}

/// The six characters that end a variable name.
pub open spec fn is_reserved(c: char) -> bool {
    c == '(' || c == ' ' || c == '&' || c == '|' || c == '!' || c == ')'
}

/// First position at or after `i` that holds a reserved character, or the
/// length of `s` when there is none.
pub open spec fn token_end(s: Seq<char>, i: int) -> int
    decreases s.len() - i,
{
    if 0 <= i < s.len() && !is_reserved(s[i]) {
        token_end(s, i + 1)
    } else {
        i
    }
}

/// First position at or after `i` that holds `)`, or the length of `s` when
/// there is none.
pub open spec fn close_index(s: Seq<char>, i: int) -> int
    decreases s.len() - i,
{
    if 0 <= i < s.len() && s[i] != ')' {
        close_index(s, i + 1)
    } else {
        i
    }
}

/// A name runs from `i` to `token_end(s, i)` and stops at a reserved
/// character or at the end.
pub proof fn lemma_token_end_bounds(s: Seq<char>, i: int)
    requires
        0 <= i <= s.len(),
    ensures
        i <= token_end(s, i) <= s.len(),
        forall|j: int| i <= j < token_end(s, i) ==> !is_reserved(#[trigger] s[j]),
        token_end(s, i) < s.len() ==> is_reserved(s[token_end(s, i)]),
    decreases s.len() - i,
{
    if i < s.len() && !is_reserved(s[i]) {
        lemma_token_end_bounds(s, i + 1);
    }
}

/// `close_index(s, i)` is the first `)` at or after `i`, or the end.
pub proof fn lemma_close_index_bounds(s: Seq<char>, i: int)
    requires
        0 <= i <= s.len(),
    ensures
        i <= close_index(s, i) <= s.len(),
        forall|j: int| i <= j < close_index(s, i) ==> #[trigger] s[j] != ')',
        close_index(s, i) < s.len() ==> s[close_index(s, i)] == ')',
    decreases s.len() - i,
{
    if i < s.len() && s[i] != ')' {
        lemma_close_index_bounds(s, i + 1);
    }
}

/// What the scanner carries from one character to the next.
pub struct ScanState {
    /// The left operand is filled.
    pub side: bool,
    pub lhs: ValModel,
    pub rhs: ValModel,
    pub op: Operator,
    /// A `!` waits for the next operand.
    pub not: bool,
}

/// The variable that fills an operand slot nobody assigned.
pub open spec fn empty_variable() -> VariableModel {
    VariableModel { name: Seq::empty(), value: false, not: false }
}

pub open spec fn initial_state() -> ScanState {
    ScanState {
        side: false,
        lhs: ValModel::Var(empty_variable()),
        rhs: ValModel::Var(empty_variable()),
        op: Operator::And,
        not: false,
    }
}

/// The node built from the whole text `s` once scanning stops.
pub open spec fn finish(s: Seq<char>, st: ScanState) -> ExprModel {
    ExprModel { raw: s, lhs: Box::new(st.lhs), rhs: Box::new(st.rhs), op: st.op, not: false }
}

/// The connective that a `&` or `|` selects.
pub open spec fn operator_of(c: char) -> Operator {
    if c == '&' {
        Operator::And
    } else {
        Operator::Or
    }
}

/// Result of scanning `s` from position `i` in state `st`.
pub open spec fn scan(s: Seq<char>, i: int, st: ScanState) -> Result<ExprModel, ParseError>
    decreases s.len(), s.len() - i,
{
    if i < 0 || i >= s.len() {
        Ok(finish(s, st))
    } else {
        let c = s[i];
        if c == '(' {
            if i + 1 >= s.len() {
                Err(ParseError::DanglingOpenParen)
            } else {
                let k = close_index(s, i + 1);
                proof {
                    lemma_close_index_bounds(s, i + 1);
                }
                if k >= s.len() {
                    Err(ParseError::UnterminatedGroup)
                } else {
                    match scan(s.subrange(i + 1, k), 0, initial_state()) {
                        Err(e) => Err(e),
                        Ok(g) => {
                            let group = ValModel::Expr(ExprModel { not: st.not, ..g });
                            if !st.side {
                                scan(
                                    s,
                                    k + 1,
                                    ScanState { side: true, lhs: group, not: false, ..st },
                                )
                            } else {
                                Ok(finish(s, ScanState { rhs: group, ..st }))
                            }
                        },
                    }
                }
            }
        } else if c == ' ' {
            scan(s, i + 1, st)
        } else if c == '&' || c == '|' {
            if !st.side {
                Err(ParseError::OperatorBeforeLeftOperand)
            } else {
                scan(s, i + 1, ScanState { op: operator_of(c), ..st })
            }
        } else if c == '!' {
            scan(s, i + 1, ScanState { not: true, ..st })
        } else if c == ')' {
            Err(ParseError::UnmatchedCloseParen)
        } else {
            let k = token_end(s, i);
            proof {
                lemma_token_end_bounds(s, i);
            }
            let leaf = ValModel::Var(VariableModel { name: s.subrange(i, k), value: false, not: st.not });
            if !st.side {
                if k >= s.len() {
                    Err(ParseError::IncompleteLeftOperand)
                } else {
                    scan(s, k, ScanState { side: true, lhs: leaf, not: false, ..st })
                }
            } else {
                Ok(finish(s, ScanState { rhs: leaf, ..st }))
            }
        }
    }
}

/// What parsing the text `s` yields.
pub open spec fn spec_parse(s: Seq<char>) -> Result<ExprModel, ParseError> {
    scan(s, 0, initial_state())
}

/// The model of a parse result.
pub open spec fn result_model(r: Result<Expression, ParseError>) -> Result<ExprModel, ParseError> {
    match r {
        Ok(e) => Ok(e@),
        Err(x) => Err(x),
    }
}

/// Whether `c` ends a variable name.
pub fn is_reserved_char(c: char) -> (r: bool)
    ensures
        r == is_reserved(c),
{
    c == '(' || c == ' ' || c == '&' || c == '|' || c == '!' || c == ')'
}

fn empty_leaf() -> (v: Val)
    ensures
        v@ == ValModel::Var(empty_variable()),
{
    Val::Var(Variable { name: String::new(), value: false, not: false })
}

/// The characters of `text`, in order.
fn chars_of(text: &str) -> (v: Vec<char>)
    ensures
        v@ == text@,
{
    let n = text.unicode_len();
    let mut v: Vec<char> = Vec::new();
    for i in 0..n
        invariant
            n == text@.len(),
            v@ == text@.take(i as int),
    {
        v.push(text.get_char(i));
        assert(v@ =~= text@.take(i + 1));
    }
    assert(v@ =~= text@);
    v
}

/// Parses the characters `lo..hi` of `text`, whose characters are `chars`.
fn parse_span(text: &str, chars: &Vec<char>, lo: usize, hi: usize) -> (r: Result<
    Expression,
    ParseError,
>)
    requires
        chars@ == text@,
        lo <= hi <= chars.len(),
    ensures
        result_model(r) == spec_parse(chars@.subrange(lo as int, hi as int)),
    decreases hi - lo,
{
    let ghost s = chars@.subrange(lo as int, hi as int);
    let mut i: usize = lo;
    let mut side = false;
    let mut lhs = empty_leaf();
    let mut rhs = empty_leaf();
    let mut op = Operator::And;
    let mut not = false;
    while i < hi
        invariant
            chars@ == text@,
            lo <= i <= hi <= chars.len(),
            s == chars@.subrange(lo as int, hi as int),
            scan(s, i - lo, ScanState { side, lhs: lhs@, rhs: rhs@, op, not }) == spec_parse(s),
        decreases hi - i,
    {
        let ghost st = ScanState { side, lhs: lhs@, rhs: rhs@, op, not };
        let ghost at = i - lo;
        let c = chars[i];
        assert(s[at] == c);
        if c == '(' {
            if i + 1 >= hi {
                return Err(ParseError::DanglingOpenParen);
            }
            let mut k: usize = i + 1;
            proof {
                lemma_close_index_bounds(s, at + 1);
            }
            while k < hi && chars[k] != ')'
                invariant
                    chars@ == text@,
                    lo <= i < k <= hi <= chars.len(),
                    s == chars@.subrange(lo as int, hi as int),
                    at == i - lo,
                    close_index(s, k - lo) == close_index(s, at + 1),
                decreases hi - k,
            {
                k = k + 1;
            }
            if k >= hi {
                return Err(ParseError::UnterminatedGroup);
            }
            assert(chars@.subrange(i + 1, k as int) =~= s.subrange(at + 1, k - lo));
            match parse_span(text, chars, i + 1, k) {
                Err(e) => {
                    return Err(e);
                },
                Ok(g) => {
                    let mut g = g;
                    g.not = not;
                    if !side {
                        lhs = Val::Expr(g);
                        not = false;
                        side = true;
                        i = k + 1;
                    } else {
                        rhs = Val::Expr(g);
                        return Ok(finish_node(text, lo, hi, lhs, rhs, op, Ghost(s)));
                    }
                },
            }
        } else if c == ' ' {
            i = i + 1;
        } else if c == '&' || c == '|' {
            if !side {
                return Err(ParseError::OperatorBeforeLeftOperand);
            }
            op = if c == '&' {
                Operator::And
            } else {
                Operator::Or
            };
            i = i + 1;
        } else if c == '!' {
            not = true;
            i = i + 1;
        } else if c == ')' {
            return Err(ParseError::UnmatchedCloseParen);
        } else {
            let mut k: usize = i;
            proof {
                lemma_token_end_bounds(s, at);
            }
            while k < hi && !is_reserved_char(chars[k])
                invariant
                    chars@ == text@,
                    lo <= i <= k <= hi <= chars.len(),
                    s == chars@.subrange(lo as int, hi as int),
                    at == i - lo,
                    token_end(s, k - lo) == token_end(s, at),
                decreases hi - k,
            {
                k = k + 1;
            }
            if !side && k >= hi {
                return Err(ParseError::IncompleteLeftOperand);
            }
            let name = String::from_str(text.substring_char(i, k));
            assert(name@ =~= s.subrange(at, k - lo));
            let leaf = Val::Var(Variable { name, value: false, not });
            if !side {
                lhs = leaf;
                not = false;
                side = true;
                i = k;
            } else {
                rhs = leaf;
                return Ok(finish_node(text, lo, hi, lhs, rhs, op, Ghost(s)));
            }
        }
    }
    Ok(finish_node(text, lo, hi, lhs, rhs, op, Ghost(s)))
}

/// Builds the node for the span `lo..hi` of `text` from its two slots.
fn finish_node(
    text: &str,
    lo: usize,
    hi: usize,
    lhs: Val,
    rhs: Val,
    op: Operator,
    Ghost(s): Ghost<Seq<char>>,
) -> (e: Expression)
    requires
        lo <= hi <= text@.len(),
        s == text@.subrange(lo as int, hi as int),
    ensures
        e@ == finish(s, ScanState { side: true, lhs: lhs@, rhs: rhs@, op, not: false }),
{
    let raw = String::from_str(text.substring_char(lo, hi));
    Expression { raw, lhs: Box::new(lhs), rhs: Box::new(rhs), op, not: false }
}

/// Parses one statement.
///
/// The result is exactly what scanning the characters of `input` from the
/// start yields: a node whose `raw` is `input`, or the first error met.
pub fn parse(input: String) -> (r: Result<Expression, ParseError>)
    ensures
        result_model(r) == spec_parse(input@),
{
    let chars = chars_of(input.as_str());
    let n = chars.len();
    assert(chars@.subrange(0, n as int) =~= input@);
    parse_span(input.as_str(), &chars, 0, n)
}

} // verus!
