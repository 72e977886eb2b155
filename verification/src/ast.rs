//! The syntax tree: a closed set of expression and statement nodes, owned
//! strictly as a tree and never mutated after construction. Operations on
//! the tree are written as exhaustive matches over the two node enums.
//!
//! [`Printer`] renders an expression as a parenthesized prefix form, e.g.
//! `(+ 1 2)`: a diagnostic surface, not meant to be re-parsed.

use vstd::prelude::*;
use vstd::string::StringExecFns;

use crate::token::Token;
use crate::value::{spec_display_text, Value};

verus! {

/// A binary operation `left operator right`.
#[derive(Debug)]
pub struct Binary {
    pub left: Box<Expr>,
    pub operator: Token,
    pub right: Box<Expr>,
}

/// A parenthesized expression.
#[derive(Debug)]
pub struct Grouping {
    pub expression: Box<Expr>,
}

/// A literal value.
#[derive(Debug)]
pub struct Literal {
    pub value: Value,
}

/// A prefix operation `operator right`.
#[derive(Debug)]
pub struct Unary {
    pub operator: Token,
    pub right: Box<Expr>,
}

/// The conditional `first ? second : third`.
#[derive(Debug)]
pub struct Ternary {
    pub operator: Token,
    pub first: Box<Expr>,
    pub second: Box<Expr>,
    pub third: Box<Expr>,
}

/// A read of a variable.
#[derive(Debug)]
pub struct Variable {
    pub name: String,
}

/// An assignment `name = value`, itself an expression.
#[derive(Debug)]
pub struct Assign {
    pub name: String,
    pub value: Box<Expr>,
}

/// A short-circuiting `and` / `or`.
#[derive(Debug)]
pub struct Logical {
    pub left: Box<Expr>,
    pub operator: Token,
    pub right: Box<Expr>,
}

/// An expression node.
#[derive(Debug)]
pub enum Expr {
    Binary(Binary),
    Grouping(Grouping),
    Literal(Literal),
    Unary(Unary),
    Ternary(Ternary),
    Variable(Variable),
    Assign(Assign),
    Logical(Logical),
}

impl Binary {
    pub fn new(left: Box<Expr>, operator: Token, right: Box<Expr>) -> (e: Binary)
        ensures
            e.left == left,
            e.operator == operator,
            e.right == right,
    {
        Binary { left, operator, right }
    }

    pub fn left(&self) -> (r: &Expr)
        ensures
            *r == *self.left,
    {
        &*self.left
    }

    pub fn operator(&self) -> (r: &Token)
        ensures
            *r == self.operator,
    {
        &self.operator
    }

    pub fn right(&self) -> (r: &Expr)
        ensures
            *r == *self.right,
    {
        &*self.right
    }
}

impl Grouping {
    pub fn new(expression: Box<Expr>) -> (e: Grouping)
        ensures
            e.expression == expression,
    {
        Grouping { expression }
    }

    pub fn expression(&self) -> (r: &Expr)
        ensures
            *r == *self.expression,
    {
        &*self.expression
    }
}

impl Literal {
    pub fn new(value: Value) -> (e: Literal)
        ensures
            e.value == value,
    {
        Literal { value }
    }

    pub fn value(&self) -> (r: &Value)
        ensures
            *r == self.value,
    {
        &self.value
    }
}

impl Unary {
    pub fn new(operator: Token, right: Box<Expr>) -> (e: Unary)
        ensures
            e.operator == operator,
            e.right == right,
    {
        Unary { operator, right }
    }

    pub fn operator(&self) -> (r: &Token)
        ensures
            *r == self.operator,
    {
        &self.operator
    }

    pub fn right(&self) -> (r: &Expr)
        ensures
            *r == *self.right,
    {
        &*self.right
    }
}

impl Ternary {
    pub fn new(operator: Token, first: Box<Expr>, second: Box<Expr>, third: Box<Expr>) -> (e:
        Ternary)
        ensures
            e.operator == operator,
            e.first == first,
            e.second == second,
            e.third == third,
    {
        Ternary { operator, first, second, third }
    }

    pub fn operator(&self) -> (r: &Token)
        ensures
            *r == self.operator,
    {
        &self.operator
    }

    pub fn first(&self) -> (r: &Expr)
        ensures
            *r == *self.first,
    {
        &*self.first
    }

    pub fn second(&self) -> (r: &Expr)
        ensures
            *r == *self.second,
    {
        &*self.second
    }

    pub fn third(&self) -> (r: &Expr)
        ensures
            *r == *self.third,
    {
        &*self.third
    }
}

impl Variable {
    pub fn new(name: String) -> (e: Variable)
        ensures
            e.name == name,
    {
        Variable { name }
    }

    pub fn name(&self) -> (r: &String)
        ensures
            *r == self.name,
    {
        &self.name
    }
}

impl Assign {
    pub fn new(name: String, value: Box<Expr>) -> (e: Assign)
        ensures
            e.name == name,
            e.value == value,
    {
        Assign { name, value }
    }

    pub fn name(&self) -> (r: &String)
        ensures
            *r == self.name,
    {
        &self.name
    }

    pub fn value(&self) -> (r: &Expr)
        ensures
            *r == *self.value,
    {
        &*self.value
    }
}

impl Logical {
    pub fn new(left: Box<Expr>, operator: Token, right: Box<Expr>) -> (e: Logical)
        ensures
            e.left == left,
            e.operator == operator,
            e.right == right,
    {
        Logical { left, operator, right }
    }

    pub fn left(&self) -> (r: &Expr)
        ensures
            *r == *self.left,
    {
        &*self.left
    }

    pub fn operator(&self) -> (r: &Token)
        ensures
            *r == self.operator,
    {
        &self.operator
    }

    pub fn right(&self) -> (r: &Expr)
        ensures
            *r == *self.right,
    {
        &*self.right
    }
}

impl Expr {
    /// The node as a variable read, when it is one: the only legal target of
    /// an assignment.
    pub fn as_variable(&self) -> (r: Option<&Variable>)
        ensures
            r is Some <==> self is Variable,
            r is Some ==> *r->0 == self->Variable_0,
    {
        match self {
            Expr::Variable(v) => Some(v),
            _ => None,
        }
    }
}

/// An expression evaluated for its effect and discarded.
#[derive(Debug)]
pub struct ExpressionStatement {
    pub expression: Box<Expr>,
}

/// `print expression;`
#[derive(Debug)]
pub struct Print {
    pub expression: Box<Expr>,
}

/// `var name = right;` — defines `name` in the current scope.
#[derive(Debug)]
pub struct Var {
    pub name: String,
    pub right: Box<Expr>,
}

/// `{ ... }` — a new scope for the statements inside.
#[derive(Debug)]
pub struct Block {
    pub statements: Vec<Stmt>,
}

/// `if (condition) then_branch else else_branch`
#[derive(Debug)]
pub struct If {
    pub condition: Box<Expr>,
    pub then_branch: Box<Stmt>,
    pub else_branch: Option<Box<Stmt>>,
}

/// `while (condition) body`
#[derive(Debug)]
pub struct While {
    pub condition: Box<Expr>,
    pub body: Box<Stmt>,
}

/// A statement node.
#[derive(Debug)]
pub enum Stmt {
    Expression(ExpressionStatement),
    Print(Print),
    Var(Var),
    Block(Block),
    If(If),
    While(While),
}

impl ExpressionStatement {
    pub fn new(expression: Box<Expr>) -> (s: ExpressionStatement)
        ensures
            s.expression == expression,
    {
        ExpressionStatement { expression }
    }

    pub fn expression(&self) -> (r: &Expr)
        ensures
            *r == *self.expression,
    {
        &*self.expression
    }
}

impl Print {
    pub fn new(expression: Box<Expr>) -> (s: Print)
        ensures
            s.expression == expression,
    {
        Print { expression }
    }

    pub fn expression(&self) -> (r: &Expr)
        ensures
            *r == *self.expression,
    {
        &*self.expression
    }
}

impl Var {
    pub fn new(name: String, right: Box<Expr>) -> (s: Var)
        ensures
            s.name == name,
            s.right == right,
    {
        Var { name, right }
    }

    pub fn name(&self) -> (r: &String)
        ensures
            *r == self.name,
    {
        &self.name
    }

    pub fn right(&self) -> (r: &Expr)
        ensures
            *r == *self.right,
    {
        &*self.right
    }
}

impl Block {
    pub fn new(statements: Vec<Stmt>) -> (s: Block)
        ensures
            s.statements == statements,
    {
        Block { statements }
    }

    pub fn statements(&self) -> (r: &Vec<Stmt>)
        ensures
            *r == self.statements,
    {
        &self.statements
    }
}

impl If {
    pub fn new(condition: Box<Expr>, then_branch: Box<Stmt>, else_branch: Option<Box<Stmt>>) -> (s:
        If)
        ensures
            s.condition == condition,
            s.then_branch == then_branch,
            s.else_branch == else_branch,
    {
        If { condition, then_branch, else_branch }
    }

    pub fn condition(&self) -> (r: &Expr)
        ensures
            *r == *self.condition,
    {
        &*self.condition
    }

    pub fn then_branch(&self) -> (r: &Stmt)
        ensures
            *r == *self.then_branch,
    {
        &*self.then_branch
    }

    pub fn else_branch(&self) -> (r: Option<&Stmt>)
        ensures
            r is Some <==> self.else_branch is Some,
            r is Some ==> *r->0 == *self.else_branch->0,
    {
        match &self.else_branch {
            Some(s) => Some(&**s),
            None => None,
        }
    }
}

impl While {
    pub fn new(condition: Box<Expr>, body: Box<Stmt>) -> (s: While)
        ensures
            s.condition == condition,
            s.body == body,
    {
        While { condition, body }
    }

    pub fn condition(&self) -> (r: &Expr)
        ensures
            *r == *self.condition,
    {
        &*self.condition
    }

    pub fn body(&self) -> (r: &Stmt)
        ensures
            *r == *self.body,
    {
        &*self.body
    }
}

/// The model of a statement: as [`Stmt`], with the statements of a block as
/// a sequence. Expressions, whose nodes hold no growable container, model
/// themselves. The spec-level parser yields statements in this form, and the
/// spec-level evaluator consumes them.
pub enum SpecStmt {
    Expression { expression: Expr },
    Print { expression: Expr },
    Var { name: String, right: Expr },
    Block { statements: Seq<SpecStmt> },
    If { condition: Expr, then_branch: Box<SpecStmt>, else_branch: Option<Box<SpecStmt>> },
    While { condition: Expr, body: Box<SpecStmt> },
}

/// The model of a statement tree.
pub open spec fn stmt_view(s: Stmt) -> SpecStmt
    decreases s,
{
    match s {
        Stmt::Expression(es) => SpecStmt::Expression { expression: *es.expression },
        Stmt::Print(p) => SpecStmt::Print { expression: *p.expression },
        Stmt::Var(v) => SpecStmt::Var { name: v.name, right: *v.right },
        Stmt::Block(b) => SpecStmt::Block { statements: stmts_view(b.statements@) },
        Stmt::If(i) => SpecStmt::If {
            condition: *i.condition,
            then_branch: Box::new(stmt_view(*i.then_branch)),
            else_branch: match i.else_branch {
                Some(e) => Some(Box::new(stmt_view(*e))),
                None => None,
            },
        },
        Stmt::While(w) => SpecStmt::While {
            condition: *w.condition,
            body: Box::new(stmt_view(*w.body)),
        },
    }
}

/// The model of a sequence of statement trees, element by element.
pub open spec fn stmts_view(ss: Seq<Stmt>) -> Seq<SpecStmt>
    decreases ss,
{
    if ss.len() == 0 {
        Seq::empty()
    } else {
        stmts_view(ss.drop_last()).push(stmt_view(ss.last()))
    }
}

/// Viewing a sequence of statements keeps its length and goes element by
/// element.
pub proof fn lemma_stmts_view_index(ss: Seq<Stmt>)
    ensures
        stmts_view(ss).len() == ss.len(),
        forall|i: int| 0 <= i < ss.len() ==> stmts_view(ss)[i] == stmt_view(ss[i]),
    decreases ss,
{
    if ss.len() > 0 {
        lemma_stmts_view_index(ss.drop_last());
        assert forall|i: int| 0 <= i < ss.len() implies stmts_view(ss)[i] == stmt_view(
            ss[i],
        ) by {
            if i < ss.len() - 1 {
                assert(ss.drop_last()[i] == ss[i]);
            } else {
                assert(ss.last() == ss[i]);
            }
        }
    }
}

/// The parenthesized prefix rendering of an expression: each operation is
/// `(` the operator's surface text, its operands in order, `)`; a literal is
/// its display form; a variable read and an assignment name themselves.
pub open spec fn spec_print_expr(e: Expr) -> Seq<char>
    decreases e,
{
    match e {
        Expr::Binary(b) => "("@ + b.operator.spec_text() + " "@ + spec_print_expr(*b.left) + " "@
            + spec_print_expr(*b.right) + ")"@,
        Expr::Grouping(g) => "(group "@ + spec_print_expr(*g.expression) + ")"@,
        Expr::Literal(l) => spec_display_text(l.value@),
        Expr::Unary(u) => "("@ + u.operator.spec_text() + " "@ + spec_print_expr(*u.right) + ")"@,
        Expr::Ternary(t) => "("@ + t.operator.spec_text() + " "@ + spec_print_expr(*t.first)
            + " "@ + spec_print_expr(*t.second) + " "@ + spec_print_expr(*t.third) + ")"@,
        Expr::Variable(v) => "(variable \""@ + v.name@ + "\")"@,
        Expr::Assign(a) => "(assign \""@ + a.name@ + "\" "@ + spec_print_expr(*a.value) + ")"@,
        Expr::Logical(l) => "("@ + l.operator.spec_text() + " "@ + spec_print_expr(*l.left) + " "@
            + spec_print_expr(*l.right) + ")"@,
    }
}

fn print_expr(e: &Expr) -> (r: String)
    ensures
        r@ == spec_print_expr(*e),
    decreases *e,
{
    match e {
        Expr::Binary(b) => {
            let mut r = String::from_str("(");
            let op = b.operator.text();
            r.append(op.as_str());
            r.append(" ");
            let left = print_expr(&*b.left);
            r.append(left.as_str());
            r.append(" ");
            let right = print_expr(&*b.right);
            r.append(right.as_str());
            r.append(")");
            r
        },
        Expr::Grouping(g) => {
            let mut r = String::from_str("(group ");
            let inner = print_expr(&*g.expression);
            r.append(inner.as_str());
            r.append(")");
            r
        },
        Expr::Literal(l) => l.value.to_text(),
        Expr::Unary(u) => {
            let mut r = String::from_str("(");
            let op = u.operator.text();
            r.append(op.as_str());
            r.append(" ");
            let right = print_expr(&*u.right);
            r.append(right.as_str());
            r.append(")");
            r
        },
        Expr::Ternary(t) => {
            let mut r = String::from_str("(");
            let op = t.operator.text();
            r.append(op.as_str());
            r.append(" ");
            let first = print_expr(&*t.first);
            r.append(first.as_str());
            r.append(" ");
            let second = print_expr(&*t.second);
            r.append(second.as_str());
            r.append(" ");
            let third = print_expr(&*t.third);
            r.append(third.as_str());
            r.append(")");
            r
        },
        Expr::Variable(v) => {
            let mut r = String::from_str("(variable \"");
            r.append(v.name.as_str());
            r.append("\")");
            r
        },
        Expr::Assign(a) => {
            let mut r = String::from_str("(assign \"");
            r.append(a.name.as_str());
            r.append("\" ");
            let value = print_expr(&*a.value);
            r.append(value.as_str());
            r.append(")");
            r
        },
        Expr::Logical(l) => {
            let mut r = String::from_str("(");
            let op = l.operator.text();
            r.append(op.as_str());
            r.append(" ");
            let left = print_expr(&*l.left);
            r.append(left.as_str());
            r.append(" ");
            let right = print_expr(&*l.right);
            r.append(right.as_str());
            r.append(")");
            r
        },
    }
}

/// Renders expressions in the parenthesized prefix form of
/// [`spec_print_expr`].
#[derive(Debug)]
pub struct Printer;

impl Printer {
    pub fn new() -> (p: Printer)
    {
        Printer
    }

    /// The parenthesized prefix rendering of the expression.
    pub fn print(&self, expression: &Expr) -> (r: String)
        ensures
            r@ == spec_print_expr(*expression),
    {
        print_expr(expression)
    }
}

} // verus!
