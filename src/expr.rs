//! The expression tree and its evaluation.

use vstd::prelude::*;

verus! {

/// The binary connective of an expression node.
#[derive(Debug, Clone, Copy, PartialEq, Eq, Structural)]
pub enum Operator {
    And,
    Or,
}

/// A named boolean leaf; `not` inverts its value when evaluated.
#[derive(Debug, Clone, Default)]
pub struct Variable {
    pub name: String,
    pub value: bool,
    pub not: bool,
}

/// One operand slot of an expression: a leaf or a nested expression.
#[derive(Debug)]
pub enum Val {
    Var(Variable),
    Expr(Expression),
}

/// A binary node `lhs op rhs`, negated as a whole when `not` is set.
#[derive(Debug)]
pub struct Expression {
    pub raw: String,
    pub lhs: Box<Val>,
    pub rhs: Box<Val>,
    pub op: Operator,
    pub not: bool,
}

/// Mathematical model of a [`Variable`].
pub struct VariableModel {
    pub name: Seq<char>,
    pub value: bool,
    pub not: bool,
}

/// Mathematical model of a [`Val`].
pub enum ValModel {
    Var(VariableModel),
    Expr(ExprModel),
}

/// Mathematical model of an [`Expression`].
pub struct ExprModel {
    pub raw: Seq<char>,
    pub lhs: Box<ValModel>,
    pub rhs: Box<ValModel>,
    pub op: Operator,
    pub not: bool,
}

impl View for Variable {
    type V = VariableModel;

    open spec fn view(&self) -> VariableModel {
        VariableModel { name: self.name@, value: self.value, not: self.not }
    }
}

pub open spec fn val_view(v: Val) -> ValModel
    decreases v,
{
    match v {
        Val::Var(x) => ValModel::Var(x@),
        Val::Expr(e) => ValModel::Expr(expr_view(e)),
    }
}

pub open spec fn expr_view(e: Expression) -> ExprModel
    decreases e,
{
    ExprModel {
        raw: e.raw@,
        lhs: Box::new(val_view(*e.lhs)),
        rhs: Box::new(val_view(*e.rhs)),
        op: e.op,
        not: e.not,
    }
}

impl View for Val {
    type V = ValModel;

    open spec fn view(&self) -> ValModel {
        val_view(*self)
    }
}

impl View for Expression {
    type V = ExprModel;

    open spec fn view(&self) -> ExprModel {
        expr_view(*self)
    }
}

/// Truth value of a leaf: its value, inverted when negated.
pub open spec fn variable_value(x: VariableModel) -> bool {
    x.value != x.not
}

/// Truth value of an operand slot.
pub open spec fn val_value(v: ValModel) -> bool
    decreases v,
{
    match v {
        ValModel::Var(x) => variable_value(x),
        ValModel::Expr(e) => expr_value(e),
    }
}

/// The connective applied to two truth values.
pub open spec fn combine(op: Operator, a: bool, b: bool) -> bool {
    match op {
        Operator::And => a && b,
        Operator::Or => a || b,
    }
}

/// Truth value of an expression: its operands combined by its connective,
/// inverted when the node is negated.
pub open spec fn expr_value(e: ExprModel) -> bool
    decreases e,
{
    combine(e.op, val_value(*e.lhs), val_value(*e.rhs)) != e.not
}

impl PartialEq for Variable {
    /// Two variables are the same variable when their names agree.
    fn eq(&self, other: &Variable) -> (r: bool)
        ensures
            r == (self.name@ == other.name@),
    {
        self.name == other.name
    }
}

impl vstd::std_specs::cmp::PartialEqSpecImpl for Variable {
    open spec fn obeys_eq_spec() -> bool {
        true
    }

    open spec fn eq_spec(&self, other: &Variable) -> bool {
        self.name@ == other.name@
    }
}

impl Variable {
    /// Truth value of this leaf.
    pub fn resolve(&self) -> (r: bool)
        ensures
            r == variable_value(self@),
    {
        if self.not {
            !self.value
        } else {
            self.value
        }
    }
}

impl Expression {
    /// Evaluates the tree: each side resolved, combined by the connective,
    /// and inverted once when this node is negated.
    pub fn evaluate(&self) -> (r: bool)
        ensures
            r == expr_value(self@),
        decreases self, 1nat,
    {
        let (lhs, rhs) = self.get_values();
        let out = match self.op {
            Operator::And => lhs && rhs,
            Operator::Or => lhs || rhs,
        };
        out != self.not
    }

    /// Truth values of the two operand slots.
    pub fn get_values(&self) -> (r: (bool, bool))
        ensures
            r == (val_value(*self@.lhs), val_value(*self@.rhs)),
        decreases self, 0nat,
    {
        let lhs = match &*self.lhs {
            Val::Var(x) => x.resolve(),
            Val::Expr(e) => e.evaluate(),
        };
        let rhs = match &*self.rhs {
            Val::Var(x) => x.resolve(),
            Val::Expr(e) => e.evaluate(),
        };
        (lhs, rhs)
    }
}

} // verus!
