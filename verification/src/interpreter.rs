//! The tree-walking evaluator. Expressions evaluate to values against the
//! live scope chain; statements run in program order for their effects:
//! printed lines (collected in order), scope mutation, and control flow.
//! Failure aborts the statement being run and propagates outward; a block's
//! scope is discarded on both the normal and the error path.
//!
//! The meaning of every construct is written down as total spec functions
//! ([`spec_eval_expr`], [`spec_eval_stmt`]) against which the evaluator is
//! verified. A `while` statement is the one construct that could run
//! forever; each loop carries a fuel budget counting its remaining
//! iterations, and exhausting it is a runtime error. The interpreter runs
//! with the largest budget a machine word holds, so no feasible program
//! reaches it.

use vstd::prelude::*;
use vstd::string::StringExecFns;

use crate::ast::{
    lemma_stmts_view_index, stmt_view, stmts_view, Expr, Logical, SpecStmt, Stmt, Ternary, While,
};
use crate::environment::{env_assign, env_define, env_get, frame_has, Environment, SpecEnv};
use crate::error::{is_runtime_error, Error};
use crate::number::{neg_bits, num_neg};
use crate::parser::{spec_parse_program, Parser};
use crate::scanner::Scanner;
use crate::token::{Token, TokenType};
use crate::value::{
    bool_value, spec_add, spec_as_number, spec_display_text, spec_division, spec_equal,
    spec_greater, spec_greater_equal, spec_less, spec_less_equal, spec_multiply, spec_not_equal,
    spec_subtract, spec_truthy, value_of_bool, SpecValue, Value,
};

verus! {

/// The printed lines so far, in order.
pub type SpecOut = Seq<Seq<char>>;

/// The message of the error reported for a name no scope knows.
pub open spec fn undefined_message(name: Seq<char>) -> Seq<char> {
    "undefined variable "@ + name
}

/// The message of the error reported when text cannot be coerced to a
/// number.
pub open spec fn coercion_message() -> Seq<char> {
    "invalid number literal"@
}

/// The message of the error reported for an operator token that no rule of
/// the parser pairs with that node — unreachable through parsed programs.
pub open spec fn operator_message() -> Seq<char> {
    "unsupported operator"@
}

/// The message of the error reported when a loop's fuel budget runs out.
pub open spec fn fuel_message() -> Seq<char> {
    "evaluation budget exhausted"@
}

/// What a unary operator yields on an evaluated operand: `-` coerces to a
/// number and flips its sign, `!` negates the boolean coercion.
pub open spec fn spec_apply_unary(op: TokenType, v: SpecValue) -> Result<SpecValue, Seq<char>> {
    match op {
        TokenType::Minus => match spec_as_number(v) {
            Some(b) => Ok(SpecValue::Number(num_neg(b))),
            None => Err(coercion_message()),
        },
        TokenType::Bang => Ok(bool_value(!spec_truthy(v))),
        _ => Err(operator_message()),
    }
}

/// What a binary operator yields on two evaluated operands, by the value
/// operations of [`crate::value`]; the comma operator evaluates both and
/// yields the right one.
pub open spec fn spec_apply_binary(op: TokenType, l: SpecValue, r: SpecValue) -> Result<
    SpecValue,
    Seq<char>,
> {
    match op {
        TokenType::Comma => Ok(r),
        TokenType::Minus => match spec_subtract(l, r) {
            Some(b) => Ok(SpecValue::Number(b)),
            None => Err(coercion_message()),
        },
        TokenType::Slash => match spec_division(l, r) {
            Some(b) => Ok(SpecValue::Number(b)),
            None => Err(coercion_message()),
        },
        TokenType::Star => match spec_multiply(l, r) {
            Some(b) => Ok(SpecValue::Number(b)),
            None => Err(coercion_message()),
        },
        TokenType::Plus => match spec_add(l, r) {
            Some(v) => Ok(v),
            None => Err(coercion_message()),
        },
        TokenType::Greater => match spec_greater(l, r) {
            Some(b) => Ok(bool_value(b)),
            None => Err(coercion_message()),
        },
        TokenType::GreaterEqual => match spec_greater_equal(l, r) {
            Some(b) => Ok(bool_value(b)),
            None => Err(coercion_message()),
        },
        TokenType::Less => match spec_less(l, r) {
            Some(b) => Ok(bool_value(b)),
            None => Err(coercion_message()),
        },
        TokenType::LessEqual => match spec_less_equal(l, r) {
            Some(b) => Ok(bool_value(b)),
            None => Err(coercion_message()),
        },
        TokenType::EqualEqual => match spec_equal(l, r) {
            Some(b) => Ok(bool_value(b)),
            None => Err(coercion_message()),
        },
        TokenType::BangEqual => match spec_not_equal(l, r) {
            Some(b) => Ok(bool_value(b)),
            None => Err(coercion_message()),
        },
        _ => Err(operator_message()),
    }
}

/// The meaning of an expression: the scope chain it leaves behind, and its
/// value or the message of the error that aborted it. Operands evaluate
/// left to right; the ternary evaluates only the selected branch; `and` and
/// `or` short-circuit and yield the last evaluated operand itself.
pub open spec fn spec_eval_expr(env: SpecEnv, e: Expr) -> (SpecEnv, Result<SpecValue, Seq<char>>)
    decreases e,
{
    match e {
        Expr::Literal(l) => (env, Ok(l.value@)),
        Expr::Grouping(g) => spec_eval_expr(env, *g.expression),
        Expr::Variable(v) => (
            env,
            match env_get(env, v.name@) {
                Some(val) => Ok(val),
                None => Err(undefined_message(v.name@)),
            },
        ),
        Expr::Assign(a) => {
            let (env1, r1) = spec_eval_expr(env, *a.value);
            match r1 {
                Ok(val) => match env_assign(env1, a.name@, val) {
                    Some(env2) => (env2, Ok(val)),
                    None => (env1, Err(undefined_message(a.name@))),
                },
                Err(m) => (env1, Err(m)),
            }
        },
        Expr::Unary(u) => {
            let (env1, r1) = spec_eval_expr(env, *u.right);
            match r1 {
                Ok(val) => (env1, spec_apply_unary(u.operator.token_type, val)),
                Err(m) => (env1, Err(m)),
            }
        },
        Expr::Binary(b) => {
            let (env1, r1) = spec_eval_expr(env, *b.left);
            match r1 {
                Ok(lv) => {
                    let (env2, r2) = spec_eval_expr(env1, *b.right);
                    match r2 {
                        Ok(rv) => (env2, spec_apply_binary(b.operator.token_type, lv, rv)),
                        Err(m) => (env2, Err(m)),
                    }
                },
                Err(m) => (env1, Err(m)),
            }
        },
        Expr::Ternary(t) => {
            match t.operator.token_type {
                TokenType::Query => {
                    let (env1, r1) = spec_eval_expr(env, *t.first);
                    match r1 {
                        Ok(c) => if spec_truthy(c) {
                            spec_eval_expr(env1, *t.second)
                        } else {
                            spec_eval_expr(env1, *t.third)
                        },
                        Err(m) => (env1, Err(m)),
                    }
                },
                _ => (env, Err(operator_message())),
            }
        },
        Expr::Logical(l) => {
            let (env1, r1) = spec_eval_expr(env, *l.left);
            match r1 {
                Ok(lv) => match l.operator.token_type {
                    TokenType::Or => if spec_truthy(lv) {
                        (env1, Ok(lv))
                    } else {
                        spec_eval_expr(env1, *l.right)
                    },
                    TokenType::And => if !spec_truthy(lv) {
                        (env1, Ok(lv))
                    } else {
                        spec_eval_expr(env1, *l.right)
                    },
                    _ => (env1, Err(operator_message())),
                },
                Err(m) => (env1, Err(m)),
            }
        },
    }
}

/// The scope chain after a block exits: its innermost scope is discarded.
pub open spec fn pop_scope(env: SpecEnv) -> SpecEnv {
    if env.len() > 0 {
        env.drop_first()
    } else {
        env
    }
}

/// The meaning of a statement: the scope chain and printed lines it leaves
/// behind, and whether it finished or the message of the error that aborted
/// it. `fuel` bounds the iterations of each `while` loop reached from here;
/// running out of it is an error like any other.
pub open spec fn spec_eval_stmt(env: SpecEnv, out: SpecOut, s: SpecStmt, fuel: nat) -> (
    SpecEnv,
    SpecOut,
    Result<(), Seq<char>>,
)
    decreases fuel, s, 0int,
{
    match s {
        SpecStmt::Expression { expression } => {
            let (env1, r1) = spec_eval_expr(env, expression);
            match r1 {
                Ok(_) => (env1, out, Ok(())),
                Err(m) => (env1, out, Err(m)),
            }
        },
        SpecStmt::Print { expression } => {
            let (env1, r1) = spec_eval_expr(env, expression);
            match r1 {
                Ok(v) => (env1, out.push(spec_display_text(v)), Ok(())),
                Err(m) => (env1, out, Err(m)),
            }
        },
        SpecStmt::Var { name, right } => {
            let (env1, r1) = spec_eval_expr(env, right);
            match r1 {
                Ok(val) => (env_define(env1, name@, val), out, Ok(())),
                Err(m) => (env1, out, Err(m)),
            }
        },
        SpecStmt::Block { statements } => {
            let inner = seq![Seq::<(Seq<char>, SpecValue)>::empty()] + env;
            let (env1, out1, r1) = spec_eval_stmts(inner, out, statements, 0, fuel);
            (pop_scope(env1), out1, r1)
        },
        SpecStmt::If { condition, then_branch, else_branch } => {
            let (env1, r1) = spec_eval_expr(env, condition);
            match r1 {
                Ok(c) => if spec_truthy(c) {
                    spec_eval_stmt(env1, out, *then_branch, fuel)
                } else {
                    match else_branch {
                        Some(e) => spec_eval_stmt(env1, out, *e, fuel),
                        None => (env1, out, Ok(())),
                    }
                },
                Err(m) => (env1, out, Err(m)),
            }
        },
        SpecStmt::While { condition, body } => {
            let (env1, r1) = spec_eval_expr(env, condition);
            match r1 {
                Ok(c) => if !spec_truthy(c) {
                    (env1, out, Ok(()))
                } else if fuel == 0 {
                    (env1, out, Err(fuel_message()))
                } else {
                    let (env2, out2, r2) = spec_eval_stmt(env1, out, *body, fuel);
                    match r2 {
                        Ok(_) => spec_eval_stmt(env2, out2, s, (fuel - 1) as nat),
                        Err(m) => (env2, out2, Err(m)),
                    }
                },
                Err(m) => (env1, out, Err(m)),
            }
        },
    }
}

/// The meaning of a sequence of statements from index `i` on: each runs in
/// order, the first error halting the rest.
pub open spec fn spec_eval_stmts(
    env: SpecEnv,
    out: SpecOut,
    stmts: Seq<SpecStmt>,
    i: int,
    fuel: nat,
) -> (SpecEnv, SpecOut, Result<(), Seq<char>>)
    decreases fuel, stmts, stmts.len() - i,
{
    if i < 0 || i >= stmts.len() {
        (env, out, Ok(()))
    } else {
        let (env1, out1, r1) = spec_eval_stmt(env, out, stmts[i], fuel);
        match r1 {
            Ok(_) => spec_eval_stmts(env1, out1, stmts, i + 1, fuel),
            Err(m) => (env1, out1, Err(m)),
        }
    }
}

/// Evaluating an expression never adds or removes a scope, and leaves every
/// scope knowing exactly the names it knew: expressions assign but never
/// define.
pub proof fn lemma_eval_expr_scopes(env: SpecEnv, e: Expr)
    ensures
        ({
            let (env2, r) = spec_eval_expr(env, e);
            &&& env2.len() == env.len()
            &&& forall|j: int, n: Seq<char>|
                0 <= j < env.len() ==> (#[trigger] frame_has(env2[j], n) <==> frame_has(env[j], n))
        }),
    decreases e,
{
    match e {
        Expr::Literal(_) => {},
        Expr::Variable(_) => {},
        Expr::Grouping(g) => {
            lemma_eval_expr_scopes(env, *g.expression);
        },
        Expr::Assign(a) => {
            lemma_eval_expr_scopes(env, *a.value);
            let (env1, r1) = spec_eval_expr(env, *a.value);
            if r1 is Ok {
                crate::environment::lemma_env_assign(env1, a.name@, r1->Ok_0);
            }
        },
        Expr::Unary(u) => {
            lemma_eval_expr_scopes(env, *u.right);
        },
        Expr::Binary(b) => {
            lemma_eval_expr_scopes(env, *b.left);
            let (env1, r1) = spec_eval_expr(env, *b.left);
            if r1 is Ok {
                lemma_eval_expr_scopes(env1, *b.right);
            }
        },
        Expr::Ternary(t) => {
            if t.operator.token_type == TokenType::Query {
                lemma_eval_expr_scopes(env, *t.first);
                let (env1, r1) = spec_eval_expr(env, *t.first);
                if r1 is Ok {
                    if spec_truthy(r1->Ok_0) {
                        lemma_eval_expr_scopes(env1, *t.second);
                    } else {
                        lemma_eval_expr_scopes(env1, *t.third);
                    }
                }
            }
        },
        Expr::Logical(l) => {
            lemma_eval_expr_scopes(env, *l.left);
            let (env1, r1) = spec_eval_expr(env, *l.left);
            if r1 is Ok {
                if l.operator.token_type == TokenType::Or && !spec_truthy(r1->Ok_0) {
                    lemma_eval_expr_scopes(env1, *l.right);
                }
                if l.operator.token_type == TokenType::And && spec_truthy(r1->Ok_0) {
                    lemma_eval_expr_scopes(env1, *l.right);
                }
            }
        },
    }
}

/// Running a statement keeps the number of scopes, and every scope but the
/// innermost keeps exactly the names it knew: only `var` adds a name, and
/// only to the innermost scope.
pub proof fn lemma_eval_stmt_scopes(env: SpecEnv, out: SpecOut, s: SpecStmt, fuel: nat)
    ensures
        ({
            let (env2, out2, r) = spec_eval_stmt(env, out, s, fuel);
            &&& env2.len() == env.len()
            &&& forall|j: int, n: Seq<char>|
                1 <= j < env.len() ==> (#[trigger] frame_has(env2[j], n) <==> frame_has(env[j], n))
        }),
    decreases fuel, s, 0int,
{
    match s {
        SpecStmt::Expression { expression } => {
            lemma_eval_expr_scopes(env, expression);
        },
        SpecStmt::Print { expression } => {
            lemma_eval_expr_scopes(env, expression);
        },
        SpecStmt::Var { name, right } => {
            lemma_eval_expr_scopes(env, right);
        },
        SpecStmt::Block { statements } => {
            let inner = seq![Seq::<(Seq<char>, SpecValue)>::empty()] + env;
            lemma_eval_stmts_scopes(inner, out, statements, 0, fuel);
            let (env1, out1, r1) = spec_eval_stmts(inner, out, statements, 0, fuel);
            let env2 = pop_scope(env1);
            assert forall|j: int, n: Seq<char>| 0 <= j < env.len() implies (#[trigger] frame_has(
                env2[j],
                n,
            ) <==> frame_has(env[j], n)) by {
                assert(env2[j] == env1[j + 1]);
                assert(inner[j + 1] == env[j]);
            }
        },
        SpecStmt::If { condition, then_branch, else_branch } => {
            lemma_eval_expr_scopes(env, condition);
            let (env1, r1) = spec_eval_expr(env, condition);
            if r1 is Ok {
                if spec_truthy(r1->Ok_0) {
                    lemma_eval_stmt_scopes(env1, out, *then_branch, fuel);
                } else {
                    match else_branch {
                        Some(e) => {
                            lemma_eval_stmt_scopes(env1, out, *e, fuel);
                        },
                        None => {},
                    }
                }
            }
        },
        SpecStmt::While { condition, body } => {
            lemma_eval_expr_scopes(env, condition);
            let (env1, r1) = spec_eval_expr(env, condition);
            if r1 is Ok {
                if spec_truthy(r1->Ok_0) && fuel > 0 {
                    lemma_eval_stmt_scopes(env1, out, *body, fuel);
                    let (env2, out2, r2) = spec_eval_stmt(env1, out, *body, fuel);
                    if r2 is Ok {
                        lemma_eval_stmt_scopes(env2, out2, s, (fuel - 1) as nat);
                    }
                }
            }
        },
    }
}

/// As [`lemma_eval_stmt_scopes`], for a sequence of statements.
pub proof fn lemma_eval_stmts_scopes(
    env: SpecEnv,
    out: SpecOut,
    stmts: Seq<SpecStmt>,
    i: int,
    fuel: nat,
)
    ensures
        ({
            let (env2, out2, r) = spec_eval_stmts(env, out, stmts, i, fuel);
            &&& env2.len() == env.len()
            &&& forall|j: int, n: Seq<char>|
                1 <= j < env.len() ==> (#[trigger] frame_has(env2[j], n) <==> frame_has(env[j], n))
        }),
    decreases fuel, stmts, stmts.len() - i,
{
    if 0 <= i < stmts.len() {
        lemma_eval_stmt_scopes(env, out, stmts[i], fuel);
        let (env1, out1, r1) = spec_eval_stmt(env, out, stmts[i], fuel);
        if r1 is Ok {
            lemma_eval_stmts_scopes(env1, out1, stmts, i + 1, fuel);
        }
    }
}

/// Lexical scoping: a block leaves the scope chain as it found it — the
/// same scopes, each knowing exactly the names it knew before. A variable
/// declared inside the block lived in the block's own scope, which is gone
/// when it exits; what an assignment wrote into an outer scope remains, but
/// under a name that scope already knew.
pub proof fn lemma_block_scoping(env: SpecEnv, out: SpecOut, statements: Seq<SpecStmt>, fuel: nat)
    ensures
        ({
            let (env2, out2, r) = spec_eval_stmt(env, out, SpecStmt::Block { statements }, fuel);
            &&& env2.len() == env.len()
            &&& forall|j: int, n: Seq<char>|
                0 <= j < env.len() ==> (#[trigger] frame_has(env2[j], n) <==> frame_has(env[j], n))
        }),
{
    let inner = seq![Seq::<(Seq<char>, SpecValue)>::empty()] + env;
    lemma_eval_stmts_scopes(inner, out, statements, 0, fuel);
    let (env1, out1, r1) = spec_eval_stmts(inner, out, statements, 0, fuel);
    let env2 = pop_scope(env1);
    assert forall|j: int, n: Seq<char>| 0 <= j < env.len() implies (#[trigger] frame_has(
        env2[j],
        n,
    ) <==> frame_has(env[j], n)) by {
        assert(env2[j] == env1[j + 1]);
        assert(inner[j + 1] == env[j]);
    }
}

/// Prefix order on printed lines.
pub open spec fn out_extends(out: SpecOut, out2: SpecOut) -> bool {
    &&& out2.len() >= out.len()
    &&& out2.subrange(0, out.len() as int) == out
}

proof fn lemma_out_extends_trans(a: SpecOut, b: SpecOut, c: SpecOut)
    requires
        out_extends(a, b),
        out_extends(b, c),
    ensures
        out_extends(a, c),
{
    assert(c.subrange(0, a.len() as int) =~= a);
}

/// Printed lines are never taken back: whatever a statement prints is
/// appended after the lines already printed, which stand — also when the
/// statement ends in an error.
pub proof fn lemma_eval_stmt_output(env: SpecEnv, out: SpecOut, s: SpecStmt, fuel: nat)
    ensures
        out_extends(out, spec_eval_stmt(env, out, s, fuel).1),
    decreases fuel, s, 0int,
{
    match s {
        SpecStmt::Expression { .. } => {
            assert(out.subrange(0, out.len() as int) =~= out);
        },
        SpecStmt::Var { .. } => {
            assert(out.subrange(0, out.len() as int) =~= out);
        },
        SpecStmt::Print { expression } => {
            let (env1, r1) = spec_eval_expr(env, expression);
            if r1 is Ok {
                assert(out.push(spec_display_text(r1->Ok_0)).subrange(0, out.len() as int)
                    =~= out);
            } else {
                assert(out.subrange(0, out.len() as int) =~= out);
            }
        },
        SpecStmt::Block { statements } => {
            let inner = seq![Seq::<(Seq<char>, SpecValue)>::empty()] + env;
            lemma_eval_stmts_output(inner, out, statements, 0, fuel);
        },
        SpecStmt::If { condition, then_branch, else_branch } => {
            assert(out.subrange(0, out.len() as int) =~= out);
            let (env1, r1) = spec_eval_expr(env, condition);
            if r1 is Ok {
                if spec_truthy(r1->Ok_0) {
                    lemma_eval_stmt_output(env1, out, *then_branch, fuel);
                } else {
                    match else_branch {
                        Some(e) => {
                            lemma_eval_stmt_output(env1, out, *e, fuel);
                        },
                        None => {},
                    }
                }
            }
        },
        SpecStmt::While { condition, body } => {
            assert(out.subrange(0, out.len() as int) =~= out);
            let (env1, r1) = spec_eval_expr(env, condition);
            if r1 is Ok && spec_truthy(r1->Ok_0) && fuel > 0 {
                lemma_eval_stmt_output(env1, out, *body, fuel);
                let (env2, out2, r2) = spec_eval_stmt(env1, out, *body, fuel);
                if r2 is Ok {
                    lemma_eval_stmt_output(env2, out2, s, (fuel - 1) as nat);
                    lemma_out_extends_trans(
                        out,
                        out2,
                        spec_eval_stmt(env2, out2, s, (fuel - 1) as nat).1,
                    );
                }
            }
        },
    }
}

/// As [`lemma_eval_stmt_output`], for a sequence of statements.
pub proof fn lemma_eval_stmts_output(
    env: SpecEnv,
    out: SpecOut,
    stmts: Seq<SpecStmt>,
    i: int,
    fuel: nat,
)
    ensures
        out_extends(out, spec_eval_stmts(env, out, stmts, i, fuel).1),
    decreases fuel, stmts, stmts.len() - i,
{
    assert(out.subrange(0, out.len() as int) =~= out);
    if 0 <= i < stmts.len() {
        lemma_eval_stmt_output(env, out, stmts[i], fuel);
        let (env1, out1, r1) = spec_eval_stmt(env, out, stmts[i], fuel);
        if r1 is Ok {
            lemma_eval_stmts_output(env1, out1, stmts, i + 1, fuel);
            lemma_out_extends_trans(out, out1, spec_eval_stmts(env1, out1, stmts, i + 1, fuel).1);
        }
    }
}

/// Below exhaustion the fuel budget is inert: a statement whose run does not
/// end in the budget error means exactly the same under every larger budget.
/// Only programs that would loop past the budget ever see it.
pub proof fn lemma_fuel_monotonic(env: SpecEnv, out: SpecOut, s: SpecStmt, fuel: nat, more: nat)
    requires
        fuel <= more,
        spec_eval_stmt(env, out, s, fuel).2 != Err::<(), Seq<char>>(fuel_message()),
    ensures
        spec_eval_stmt(env, out, s, more) == spec_eval_stmt(env, out, s, fuel),
    decreases fuel, s, 0int,
{
    match s {
        SpecStmt::Expression { .. } => {},
        SpecStmt::Print { .. } => {},
        SpecStmt::Var { .. } => {},
        SpecStmt::Block { statements } => {
            let inner = seq![Seq::<(Seq<char>, SpecValue)>::empty()] + env;
            lemma_fuel_monotonic_stmts(inner, out, statements, 0, fuel, more);
        },
        SpecStmt::If { condition, then_branch, else_branch } => {
            let (env1, r1) = spec_eval_expr(env, condition);
            if r1 is Ok {
                if spec_truthy(r1->Ok_0) {
                    lemma_fuel_monotonic(env1, out, *then_branch, fuel, more);
                } else {
                    match else_branch {
                        Some(e) => {
                            lemma_fuel_monotonic(env1, out, *e, fuel, more);
                        },
                        None => {},
                    }
                }
            }
        },
        SpecStmt::While { condition, body } => {
            let (env1, r1) = spec_eval_expr(env, condition);
            if r1 is Ok && spec_truthy(r1->Ok_0) {
                let (env2, out2, r2) = spec_eval_stmt(env1, out, *body, fuel);
                lemma_fuel_monotonic(env1, out, *body, fuel, more);
                if r2 is Ok {
                    lemma_fuel_monotonic(env2, out2, s, (fuel - 1) as nat, (more - 1) as nat);
                }
            }
        },
    }
}

/// As [`lemma_fuel_monotonic`], for a sequence of statements.
pub proof fn lemma_fuel_monotonic_stmts(
    env: SpecEnv,
    out: SpecOut,
    stmts: Seq<SpecStmt>,
    i: int,
    fuel: nat,
    more: nat,
)
    requires
        fuel <= more,
        spec_eval_stmts(env, out, stmts, i, fuel).2 != Err::<(), Seq<char>>(fuel_message()),
    ensures
        spec_eval_stmts(env, out, stmts, i, more) == spec_eval_stmts(env, out, stmts, i, fuel),
    decreases fuel, stmts, stmts.len() - i,
{
    if 0 <= i < stmts.len() {
        let (env1, out1, r1) = spec_eval_stmt(env, out, stmts[i], fuel);
        lemma_fuel_monotonic(env, out, stmts[i], fuel, more);
        if r1 is Ok {
            lemma_fuel_monotonic_stmts(env1, out1, stmts, i + 1, fuel, more);
        }
    }
}

/// Short-circuit: when the left operand of an `or` comes out truthy — of an
/// `and`, falsy — the logical expression yields that left value as it is,
/// and the right operand is never evaluated: no effect of it takes place.
pub proof fn lemma_logical_short_circuit(env: SpecEnv, l: Logical)
    ensures
        ({
            let (env1, r1) = spec_eval_expr(env, *l.left);
            r1 is Ok && spec_truthy(r1->Ok_0) && l.operator.token_type == TokenType::Or
                ==> spec_eval_expr(env, Expr::Logical(l)) == (env1, r1)
        }),
        ({
            let (env1, r1) = spec_eval_expr(env, *l.left);
            r1 is Ok && !spec_truthy(r1->Ok_0) && l.operator.token_type == TokenType::And
                ==> spec_eval_expr(env, Expr::Logical(l)) == (env1, r1)
        }),
{
}

/// The ternary evaluates its condition and then only the selected branch:
/// the other branch is never evaluated and has no effect.
pub proof fn lemma_ternary_selects_one_branch(env: SpecEnv, t: Ternary)
    requires
        t.operator.token_type == TokenType::Query,
    ensures
        ({
            let (env1, r1) = spec_eval_expr(env, *t.first);
            &&& (r1 is Ok && spec_truthy(r1->Ok_0) ==> spec_eval_expr(env, Expr::Ternary(t))
                == spec_eval_expr(env1, *t.second))
            &&& (r1 is Ok && !spec_truthy(r1->Ok_0) ==> spec_eval_expr(env, Expr::Ternary(t))
                == spec_eval_expr(env1, *t.third))
        }),
{
}

/// What a unary operator yields on an evaluated operand.
fn apply_unary(op: TokenType, v: &Value) -> (r: Result<Value, Error>)
    ensures
        match spec_apply_unary(op, v@) {
            Ok(rv) => r is Ok && r->Ok_0@ == rv,
            Err(m) => r is Err && is_runtime_error(r->Err_0, m),
        },
{
    match op {
        TokenType::Minus => {
            match v.as_number() {
                Ok(Value::Number(b)) => Ok(Value::Number(neg_bits(b))),
                Ok(_) => {
                    proof {
                        assert(false);
                    }
                    Err(Error::runtime(String::from_str("invalid number literal")))
                },
                Err(e) => Err(e),
            }
        },
        TokenType::Bang => Ok(value_of_bool(!v.truthy())),
        _ => Err(Error::runtime(String::from_str("unsupported operator"))),
    }
}

/// What a binary operator yields on two evaluated operands.
fn apply_binary(op: TokenType, l: &Value, r: &Value) -> (res: Result<Value, Error>)
    ensures
        match spec_apply_binary(op, l@, r@) {
            Ok(rv) => res is Ok && res->Ok_0@ == rv,
            Err(m) => res is Err && is_runtime_error(res->Err_0, m),
        },
{
    match op {
        TokenType::Comma => Ok(r.duplicate()),
        TokenType::Minus => l.subtract(r),
        TokenType::Slash => l.division(r),
        TokenType::Star => l.mutiply(r),
        TokenType::Plus => l.add(r),
        TokenType::Greater => l.greater(r),
        TokenType::GreaterEqual => l.greater_equal(r),
        TokenType::Less => l.less(r),
        TokenType::LessEqual => l.less_equal(r),
        TokenType::EqualEqual => l.equal(r),
        TokenType::BangEqual => l.not_equal(r),
        _ => Err(Error::runtime(String::from_str("unsupported operator"))),
    }
}

/// Walks statements and expressions against a live scope chain, collecting
/// the lines the program prints.
#[derive(Debug)]
pub struct Interpreter {
    pub environment: Environment,
    pub output: Vec<String>,
}

impl Interpreter {
    /// The model of the live scope chain.
    pub open spec fn env(&self) -> SpecEnv {
        self.environment.frames()
    }

    /// The model of the printed lines so far.
    pub open spec fn out(&self) -> SpecOut {
        Seq::new(self.output@.len(), |i: int| self.output@[i]@)
    }

    /// A fresh interpreter: one empty global scope, nothing printed.
    pub fn new() -> (it: Interpreter)
        ensures
            it.env() =~= seq![Seq::<(Seq<char>, SpecValue)>::empty()],
            it.out() =~= Seq::<Seq<char>>::empty(),
    {
        Interpreter { environment: Environment::new(None), output: Vec::new() }
    }

    /// The lines printed so far, in order.
    pub fn output(&self) -> (r: &Vec<String>)
        ensures
            r == self.output,
    {
        &self.output
    }

    /// Evaluates an expression to its value, per [`spec_eval_expr`]: the
    /// scope chain moves to the chain the expression leaves behind, nothing
    /// is printed, and an evaluation failure is a runtime error carrying
    /// exactly the message of the spec.
    pub fn evaluate_expression(&mut self, expression: &Expr) -> (r: Result<Value, Error>)
        ensures
            final(self).out() == old(self).out(),
            ({
                let (env2, res) = spec_eval_expr(old(self).env(), *expression);
                &&& final(self).env() == env2
                &&& match res {
                    Ok(v) => r is Ok && r->Ok_0@ == v,
                    Err(m) => r is Err && is_runtime_error(r->Err_0, m),
                }
            }),
        decreases *expression,
    {
        match expression {
            Expr::Literal(l) => Ok(l.value.duplicate()),
            Expr::Grouping(g) => self.evaluate_expression(&*g.expression),
            Expr::Variable(v) => {
                match self.environment.get(&v.name) {
                    Ok(value) => Ok(value.duplicate()),
                    Err(e) => Err(e),
                }
            },
            Expr::Assign(a) => {
                let value = match self.evaluate_expression(&*a.value) {
                    Ok(v) => v,
                    Err(e) => {
                        return Err(e);
                    },
                };
                match self.environment.assign(a.name.clone(), value.duplicate()) {
                    Ok(_) => Ok(value),
                    Err(e) => Err(e),
                }
            },
            Expr::Unary(u) => {
                let right = match self.evaluate_expression(&*u.right) {
                    Ok(v) => v,
                    Err(e) => {
                        return Err(e);
                    },
                };
                apply_unary(u.operator.token_type, &right)
            },
            Expr::Binary(b) => {
                let left = match self.evaluate_expression(&*b.left) {
                    Ok(v) => v,
                    Err(e) => {
                        return Err(e);
                    },
                };
                let right = match self.evaluate_expression(&*b.right) {
                    Ok(v) => v,
                    Err(e) => {
                        return Err(e);
                    },
                };
                apply_binary(b.operator.token_type, &left, &right)
            },
            Expr::Ternary(t) => {
                match t.operator.token_type {
                    TokenType::Query => {
                        let condition = match self.evaluate_expression(&*t.first) {
                            Ok(v) => v,
                            Err(e) => {
                                return Err(e);
                            },
                        };
                        if condition.truthy() {
                            self.evaluate_expression(&*t.second)
                        } else {
                            self.evaluate_expression(&*t.third)
                        }
                    },
                    _ => Err(Error::runtime(String::from_str("unsupported operator"))),
                }
            },
            Expr::Logical(l) => {
                let left = match self.evaluate_expression(&*l.left) {
                    Ok(v) => v,
                    Err(e) => {
                        return Err(e);
                    },
                };
                match l.operator.token_type {
                    TokenType::Or => {
                        if left.truthy() {
                            Ok(left)
                        } else {
                            self.evaluate_expression(&*l.right)
                        }
                    },
                    TokenType::And => {
                        if !left.truthy() {
                            Ok(left)
                        } else {
                            self.evaluate_expression(&*l.right)
                        }
                    },
                    _ => Err(Error::runtime(String::from_str("unsupported operator"))),
                }
            },
        }
    }

    /// Runs one statement for its effects, per [`spec_eval_stmt`]: the scope
    /// chain and the printed lines move exactly as the spec says, and a
    /// failure is a runtime error carrying exactly the message of the spec.
    /// `fuel` bounds the iterations of each `while` loop reached from here.
    pub fn evaluate_statement(&mut self, statement: &Stmt, fuel: u64) -> (r: Result<(), Error>)
        ensures
            ({
                let (env2, out2, res) = spec_eval_stmt(
                    old(self).env(),
                    old(self).out(),
                    stmt_view(*statement),
                    fuel as nat,
                );
                &&& final(self).env() == env2
                &&& final(self).out() == out2
                &&& match res {
                    Ok(_) => r is Ok,
                    Err(m) => r is Err && is_runtime_error(r->Err_0, m),
                }
            }),
        decreases fuel, *statement,
    {
        match statement {
            Stmt::Expression(es) => {
                match self.evaluate_expression(&*es.expression) {
                    Ok(_) => Ok(()),
                    Err(e) => Err(e),
                }
            },
            Stmt::Print(p) => {
                let ghost out0 = self.out();
                let value = match self.evaluate_expression(&*p.expression) {
                    Ok(v) => v,
                    Err(e) => {
                        return Err(e);
                    },
                };
                let text = value.to_text();
                self.output.push(text);
                proof {
                    assert(self.out() =~= out0.push(spec_display_text(value@)));
                }
                Ok(())
            },
            Stmt::Var(v) => {
                let value = match self.evaluate_expression(&*v.right) {
                    Ok(val) => val,
                    Err(e) => {
                        return Err(e);
                    },
                };
                self.environment.define(v.name.clone(), value);
                Ok(())
            },
            Stmt::Block(b) => {
                let ghost env0 = self.env();
                let mut previous = Environment::new(None);
                core::mem::swap(&mut self.environment, &mut previous);
                self.environment = Environment::new(Some(Box::new(previous)));
                proof {
                    assert(self.env() =~= seq![Seq::<(Seq<char>, SpecValue)>::empty()] + env0);
                }
                let ghost inner0 = self.env();
                let ghost out0 = self.out();
                let result = self.evaluate_statements(&b.statements, fuel);
                proof {
                    lemma_eval_stmts_scopes(inner0, out0, stmts_view(b.statements@), 0, fuel as nat);
                    assert(self.env().len() == inner0.len());
                    assert(self.environment.frames().len() >= 2);
                    assert(self.environment.enclosing is Some);
                }
                let mut finished = Environment::new(None);
                core::mem::swap(&mut self.environment, &mut finished);
                let ghost env1 = finished.frames();
                match finished.enclosing() {
                    Some(boxed) => {
                        self.environment = *boxed;
                        proof {
                            assert(self.env() =~= pop_scope(env1));
                        }
                    },
                    None => {
                        proof {
                            assert(false);
                        }
                    },
                }
                result
            },
            Stmt::If(i) => {
                let condition = match self.evaluate_expression(&*i.condition) {
                    Ok(v) => v,
                    Err(e) => {
                        return Err(e);
                    },
                };
                if condition.truthy() {
                    self.evaluate_statement(&*i.then_branch, fuel)
                } else {
                    match &i.else_branch {
                        Some(e) => self.evaluate_statement(&**e, fuel),
                        None => Ok(()),
                    }
                }
            },
            Stmt::While(w) => self.run_while(w, fuel),
        }
    }

    /// Runs a `while` statement: re-evaluates the condition fresh before
    /// each iteration, runs the body while it is truthy, and spends one unit
    /// of fuel per iteration.
    fn run_while(&mut self, w: &While, fuel: u64) -> (r: Result<(), Error>)
        ensures
            ({
                let (env2, out2, res) = spec_eval_stmt(
                    old(self).env(),
                    old(self).out(),
                    stmt_view(Stmt::While(*w)),
                    fuel as nat,
                );
                &&& final(self).env() == env2
                &&& final(self).out() == out2
                &&& match res {
                    Ok(_) => r is Ok,
                    Err(m) => r is Err && is_runtime_error(r->Err_0, m),
                }
            }),
        decreases fuel, *w,
    {
        let ghost s0 = stmt_view(Stmt::While(*w));
        let ghost env0 = self.env();
        let ghost out0 = self.out();
        let mut fuel_left: u64 = fuel;
        loop
            invariant
                fuel_left <= fuel,
                s0 == stmt_view(Stmt::While(*w)),
                env0 == old(self).env(),
                out0 == old(self).out(),
                spec_eval_stmt(env0, out0, s0, fuel as nat) == spec_eval_stmt(
                    self.env(),
                    self.out(),
                    s0,
                    fuel_left as nat,
                ),
            decreases fuel_left,
        {
            let ghost env_i = self.env();
            let ghost out_i = self.out();
            let condition = match self.evaluate_expression(&*w.condition) {
                Ok(v) => v,
                Err(e) => {
                    return Err(e);
                },
            };
            if !condition.truthy() {
                return Ok(());
            }
            if fuel_left == 0 {
                return Err(Error::runtime(String::from_str("evaluation budget exhausted")));
            }
            match self.evaluate_statement(&*w.body, fuel_left) {
                Ok(_) => {},
                Err(e) => {
                    return Err(e);
                },
            }
            proof {
                assert(spec_eval_stmt(env_i, out_i, s0, fuel_left as nat) == spec_eval_stmt(
                    self.env(),
                    self.out(),
                    s0,
                    (fuel_left - 1) as nat,
                ));
            }
            fuel_left = fuel_left - 1;
        }
    }

    /// Runs a sequence of statements in order, the first failure halting the
    /// rest, per [`spec_eval_stmts`].
    fn evaluate_statements(&mut self, statements: &Vec<Stmt>, fuel: u64) -> (r: Result<(), Error>)
        ensures
            ({
                let (env2, out2, res) = spec_eval_stmts(
                    old(self).env(),
                    old(self).out(),
                    stmts_view(statements@),
                    0,
                    fuel as nat,
                );
                &&& final(self).env() == env2
                &&& final(self).out() == out2
                &&& match res {
                    Ok(_) => r is Ok,
                    Err(m) => r is Err && is_runtime_error(r->Err_0, m),
                }
            }),
        decreases fuel, statements@,
    {
        let ghost env0 = self.env();
        let ghost out0 = self.out();
        let ghost sv = stmts_view(statements@);
        proof {
            lemma_stmts_view_index(statements@);
        }
        let n: usize = statements.len();
        let mut i: usize = 0;
        loop
            invariant
                i <= n,
                n == statements@.len(),
                env0 == old(self).env(),
                out0 == old(self).out(),
                sv == stmts_view(statements@),
                sv.len() == n,
                forall|j: int| 0 <= j < n ==> sv[j] == stmt_view(statements@[j]),
                spec_eval_stmts(env0, out0, sv, 0, fuel as nat) == spec_eval_stmts(
                    self.env(),
                    self.out(),
                    sv,
                    i as int,
                    fuel as nat,
                ),
            decreases n - i,
        {
            if i >= n {
                return Ok(());
            }
            match self.evaluate_statement(&statements[i], fuel) {
                Ok(_) => {},
                Err(e) => {
                    return Err(e);
                },
            }
            i = i + 1;
        }
    }

    /// Parses and runs a scanned token stream against the live scope chain.
    /// What the grammar derives from the stream — [`spec_parse_program`] —
    /// settles the outcome: a stream the grammar refuses is a parser error
    /// that leaves the interpreter untouched; otherwise the program's
    /// statements run exactly per [`spec_eval_stmts`], each `while` loop
    /// under the largest budget a machine word holds, and an evaluation
    /// failure is a runtime error carrying exactly the message of the spec.
    pub fn run_tokens(&mut self, tokens: Vec<Token>) -> (r: Result<(), Error>)
        ensures
            out_extends(old(self).out(), final(self).out()),
            final(self).env().len() == old(self).env().len(),
            match spec_parse_program(tokens@) {
                None => r is Err && r->Err_0.kind is ParserError && final(self).env() == old(
                    self,
                ).env() && final(self).out() == old(self).out(),
                Some(prog) => ({
                    let (env2, out2, res) = spec_eval_stmts(
                        old(self).env(),
                        old(self).out(),
                        prog,
                        0,
                        u64::MAX as nat,
                    );
                    &&& final(self).env() == env2
                    &&& final(self).out() == out2
                    &&& match res {
                        Ok(_) => r is Ok,
                        Err(m) => r is Err && is_runtime_error(r->Err_0, m),
                    }
                }),
            },
    {
        proof {
            assert(out_extends(self.out(), self.out())) by {
                assert(self.out().subrange(0, self.out().len() as int) =~= self.out());
            }
        }
        let mut parser = Parser::new(tokens);
        let statements = match parser.parse() {
            Ok(s) => s,
            Err(e) => {
                return Err(e);
            },
        };
        let ghost env0 = self.env();
        let ghost out0 = self.out();
        let result = self.evaluate_statements(&statements, u64::MAX);
        proof {
            lemma_eval_stmts_scopes(env0, out0, stmts_view(statements@), 0, u64::MAX as nat);
            lemma_eval_stmts_output(env0, out0, stmts_view(statements@), 0, u64::MAX as nat);
        }
        result
    }

    /// Scans, parses and runs a piece of source text against the live scope
    /// chain: scanning is the black box in front of [`Interpreter::run_tokens`],
    /// which states what becomes of the scanned stream. The first failure of
    /// any stage — scanning, parsing, evaluation — stops the run and is
    /// handed back; lines printed before the failure stand. A scanning or
    /// parsing failure leaves the interpreter untouched.
    pub fn run(&mut self, code: &str) -> (r: Result<(), Error>)
        ensures
            out_extends(old(self).out(), final(self).out()),
            final(self).env().len() == old(self).env().len(),
            r is Err && !(r->Err_0.kind is RuntimeError) ==> final(self).env() == old(self).env()
                && final(self).out() == old(self).out(),
    {
        proof {
            assert(out_extends(self.out(), self.out())) by {
                assert(self.out().subrange(0, self.out().len() as int) =~= self.out());
            }
        }
        let scanner = Scanner::from_str(code);
        let mut token_stream = scanner.tokens();
        let tokens = match token_stream.scan_all() {
            Ok(t) => t,
            Err(e) => {
                return Err(e);
            },
        };
        self.run_tokens(tokens)
    }
}

} // verus!
