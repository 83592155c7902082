//! The tree-walking evaluator: statements and expressions run against a
//! lexically-scoped environment, printed values collect in an output buffer,
//! and every step is described by the `spec_eval_*` functions.
//!
//! Evaluation carries a step budget; a program that runs past it stops with
//! an error instead of running forever. The budget the entry point passes is
//! large enough that no terminating program of practical size meets it.

use vstd::prelude::*;
use vstd::string::StringExecFns;

use crate::environment::{frame_lookup, lemma_env_lookup_at_wf, lemma_frame_lookup_wf, EnvView,
    EnvironmentImpl};
use crate::expr::{view_exprs, Expr, ExprView};
use crate::num::{div_mantissa, fits_mantissa, mul_mantissa, Num};
use crate::parser::{ParseError, Parser};
use crate::resolver::{rm_lookup, spec_resolve, Resolver, ResolverMap};
use crate::scanner::{spec_scan, ScanError, Scanner};
use crate::stmt::{view_stmts, view_strings, Stmt, StmtView};
use crate::value::{spec_truthy, spec_value_eq, spec_value_text, FunctionImpl, FunctionView, Value,
    ValueView};
use crate::text::{spec_str_lt, str_le, str_lt};

verus! {

/// The step budget the entry point evaluates under.
pub const DEFAULT_FUEL: u64 = 0xFFFF_FFFF_FFFF_FFFF;

/// Why evaluation failed.
#[derive(Debug)]
pub enum EvalError {
    /// A name with no binding was read or assigned.
    UndefinedVariable(String),
    /// An operator met operands of the wrong kinds.
    TypeMismatch(String),
    /// A call passed a different number of arguments than the arity.
    ArityMismatch,
    /// The right operand of a division was zero.
    DivisionByZero,
    /// A call's callee was not a function value.
    NotCallable,
    /// An arithmetic result left the representable number range.
    NumericOverflow,
    /// The step budget ran out.
    OutOfSteps,
}

/// The shape of an evaluation error.
pub enum EvalErrorView {
    UndefinedVariable(Seq<char>),
    TypeMismatch(Seq<char>),
    ArityMismatch,
    DivisionByZero,
    NotCallable,
    NumericOverflow,
    OutOfSteps,
}

impl View for EvalError {
    type V = EvalErrorView;

    open spec fn view(&self) -> EvalErrorView {
        match self {
            EvalError::UndefinedVariable(n) => EvalErrorView::UndefinedVariable(n@),
            EvalError::TypeMismatch(m) => EvalErrorView::TypeMismatch(m@),
            EvalError::ArityMismatch => EvalErrorView::ArityMismatch,
            EvalError::DivisionByZero => EvalErrorView::DivisionByZero,
            EvalError::NotCallable => EvalErrorView::NotCallable,
            EvalError::NumericOverflow => EvalErrorView::NumericOverflow,
            EvalError::OutOfSteps => EvalErrorView::OutOfSteps,
        }
    }
}

impl EvalError {
    /// A human-readable description of the error.
    pub fn message(&self) -> (r: String)
        ensures
            self@ matches EvalErrorView::UndefinedVariable(n) ==> r@ == "Undefined variable '"@
                + n + "'"@,
            self@ matches EvalErrorView::TypeMismatch(m) ==> r@ == m,
    {
        match self {
            EvalError::UndefinedVariable(n) => {
                let mut out = String::from_str("Undefined variable '");
                out.append(n.as_str());
                out.append("'");
                out
            },
            EvalError::TypeMismatch(m) => m.clone(),
            EvalError::ArityMismatch => String::from_str(
                "Call does not pass as many arguments as the function takes",
            ),
            EvalError::DivisionByZero => String::from_str("Division by zero"),
            EvalError::NotCallable => String::from_str("Can only call functions and classes"),
            EvalError::NumericOverflow => String::from_str(
                "Arithmetic left the representable number range",
            ),
            EvalError::OutOfSteps => String::from_str("Evaluation ran out of steps"),
        }
    }
}

/// The evaluator's observable state: the environment and the printed lines.
pub struct EvalState {
    pub env: EnvView,
    pub out: Seq<Seq<char>>,
}

/// One evaluation outcome: the state left behind, and a value or an error.
pub type EvalOut = (EvalState, Result<ValueView, EvalErrorView>);

/// The outcome of evaluating an argument list.
pub type EvalsOut = (EvalState, Result<Seq<ValueView>, EvalErrorView>);

/// The result of `+`: numeric addition when both sides are numbers, and
/// concatenation when either side is a string, turning the other side into
/// its printed form.
pub open spec fn spec_binary_add(a: ValueView, b: ValueView) -> Result<ValueView, EvalErrorView> {
    match (a, b) {
        (ValueView::Number(x), ValueView::Number(y)) => if fits_mantissa(x + y) {
            Ok(ValueView::Number(x + y))
        } else {
            Err(EvalErrorView::NumericOverflow)
        },
        (ValueView::String(str_left), _) => Ok(
            ValueView::String(str_left + spec_value_text(b)),
        ),
        (_, ValueView::String(str_right)) => Ok(
            ValueView::String(spec_value_text(a) + str_right),
        ),
        _ => Err(
            EvalErrorView::TypeMismatch(
                "Addition can only be applied to operands both numbers or both strings"@,
            ),
        ),
    }
}

/// The result of `-` on values: numbers only.
pub open spec fn spec_binary_sub(a: ValueView, b: ValueView) -> Result<ValueView, EvalErrorView> {
    match (a, b) {
        (ValueView::Number(x), ValueView::Number(y)) => if fits_mantissa(x - y) {
            Ok(ValueView::Number(x - y))
        } else {
            Err(EvalErrorView::NumericOverflow)
        },
        _ => Err(EvalErrorView::TypeMismatch("Subtraction can only be applied to numbers"@)),
    }
}

/// The result of `*` on values: numbers only.
pub open spec fn spec_binary_mul(a: ValueView, b: ValueView) -> Result<ValueView, EvalErrorView> {
    match (a, b) {
        (ValueView::Number(x), ValueView::Number(y)) => if fits_mantissa(mul_mantissa(x, y)) {
            Ok(ValueView::Number(mul_mantissa(x, y)))
        } else {
            Err(EvalErrorView::NumericOverflow)
        },
        _ => Err(EvalErrorView::TypeMismatch("Multiplication can only be applied to numbers"@)),
    }
}

/// The result of `/` on values: numbers only, never by zero.
pub open spec fn spec_binary_div(a: ValueView, b: ValueView) -> Result<ValueView, EvalErrorView> {
    match (a, b) {
        (ValueView::Number(x), ValueView::Number(y)) => if y == 0 {
            Err(EvalErrorView::DivisionByZero)
        } else if fits_mantissa(div_mantissa(x, y)) {
            Ok(ValueView::Number(div_mantissa(x, y)))
        } else {
            Err(EvalErrorView::NumericOverflow)
        },
        _ => Err(EvalErrorView::TypeMismatch("Division can only be applied to numbers"@)),
    }
}

/// The result of a relational operator: two numbers by value, two strings
/// lexicographically; anything else is a type error with the given message.
pub open spec fn spec_compare(
    a: ValueView,
    b: ValueView,
    strict: bool,
    flip: bool,
    msg: Seq<char>,
) -> Result<ValueView, EvalErrorView> {
    match (a, b) {
        (ValueView::Number(x), ValueView::Number(y)) => {
            let lt = if flip {
                y < x
            } else {
                x < y
            };
            let le = if flip {
                y <= x
            } else {
                x <= y
            };
            Ok(ValueView::Boolean(if strict {
                lt
            } else {
                le
            }))
        },
        (ValueView::String(s), ValueView::String(t)) => {
            let lt = if flip {
                spec_str_lt(t, s)
            } else {
                spec_str_lt(s, t)
            };
            let le = if flip {
                !spec_str_lt(s, t)
            } else {
                !spec_str_lt(t, s)
            };
            Ok(ValueView::Boolean(if strict {
                lt
            } else {
                le
            }))
        },
        _ => Err(EvalErrorView::TypeMismatch(msg)),
    }
}

/// The result of unary `!`: booleans only.
pub open spec fn spec_unary_bang(v: ValueView) -> Result<ValueView, EvalErrorView> {
    match v {
        ValueView::Boolean(b) => Ok(ValueView::Boolean(!b)),
        ValueView::Number(_) => Err(
            EvalErrorView::TypeMismatch("Unary bang cannot be applied to a number"@),
        ),
        ValueView::String(_) => Err(
            EvalErrorView::TypeMismatch("Unary bang cannot be applied to a string"@),
        ),
        ValueView::Nil => Err(EvalErrorView::TypeMismatch("Unary bang cannot be applied to nil"@)),
        ValueView::Callable(_) => Err(
            EvalErrorView::TypeMismatch("Unary bang cannot be applied to a function"@),
        ),
    }
}

/// The result of unary `-`: numbers only.
pub open spec fn spec_unary_minus(v: ValueView) -> Result<ValueView, EvalErrorView> {
    match v {
        ValueView::Number(x) => if fits_mantissa(-x) {
            Ok(ValueView::Number(-x))
        } else {
            Err(EvalErrorView::NumericOverflow)
        },
        ValueView::String(_) => Err(
            EvalErrorView::TypeMismatch("Unary minus cannot be applied to a string"@),
        ),
        ValueView::Boolean(_) => Err(
            EvalErrorView::TypeMismatch("Unary minus cannot be applied to a boolean"@),
        ),
        ValueView::Nil => Err(EvalErrorView::TypeMismatch("Unary minus cannot be applied to nil"@)),
        ValueView::Callable(_) => Err(
            EvalErrorView::TypeMismatch("Unary minus cannot be applied to a function"@),
        ),
    }
}

/// The cell a name resolves to: through its recorded scope distance when the
/// map holds one, else through the globals.
pub open spec fn spec_target(
    locals: Seq<(u32, usize)>,
    env: EnvView,
    id: u32,
    name: Seq<char>,
) -> Option<int> {
    match rm_lookup(locals, id) {
        Some(d) => env.lookup_at(name, d as int),
        None => frame_lookup(env.globals, name),
    }
}

/// Binds parameter names to argument values, left to right, each in a fresh
/// cell of the innermost frame.
pub open spec fn spec_bind(env: EnvView, names: Seq<Seq<char>>, vals: Seq<ValueView>) -> EnvView
    decreases names.len(),
{
    if names.len() == 0 {
        env
    } else {
        spec_bind(
            env.define(names[0], vals[0]),
            names.subrange(1, names.len() as int),
            vals.subrange(1, vals.len() as int),
        )
    }
}

/// The shapes of a run of values.
pub open spec fn view_values(s: Seq<Value>) -> Seq<ValueView> {
    s.map_values(|v: Value| v@)
}

/// The structural size of an expression, for termination measures.
pub open spec fn size_expr(e: ExprView) -> nat
    decreases e,
{
    match e {
        ExprView::Assign(a) => 1 + size_expr(*a.right),
        ExprView::BinaryOr(l, r) => 1 + size_expr(*l) + size_expr(*r),
        ExprView::BinaryAnd(l, r) => 1 + size_expr(*l) + size_expr(*r),
        ExprView::BinaryEqual(l, r) => 1 + size_expr(*l) + size_expr(*r),
        ExprView::BinaryNotEqual(l, r) => 1 + size_expr(*l) + size_expr(*r),
        ExprView::BinaryLess(l, r) => 1 + size_expr(*l) + size_expr(*r),
        ExprView::BinaryLessEqual(l, r) => 1 + size_expr(*l) + size_expr(*r),
        ExprView::BinaryGreater(l, r) => 1 + size_expr(*l) + size_expr(*r),
        ExprView::BinaryGreaterEqual(l, r) => 1 + size_expr(*l) + size_expr(*r),
        ExprView::BinaryAdd(l, r) => 1 + size_expr(*l) + size_expr(*r),
        ExprView::BinarySub(l, r) => 1 + size_expr(*l) + size_expr(*r),
        ExprView::BinaryMul(l, r) => 1 + size_expr(*l) + size_expr(*r),
        ExprView::BinaryDiv(l, r) => 1 + size_expr(*l) + size_expr(*r),
        ExprView::UnaryBang(inner) => 1 + size_expr(*inner),
        ExprView::UnaryMinus(inner) => 1 + size_expr(*inner),
        ExprView::Call(callee, args) => 1 + size_expr(*callee) + size_exprs(args),
        ExprView::LiteralString(_) => 1,
        ExprView::LiteralNumber(_) => 1,
        ExprView::False => 1,
        ExprView::True => 1,
        ExprView::Nil => 1,
        ExprView::Identifier(_) => 1,
    }
}

/// The structural size of a run of expressions.
pub open spec fn size_exprs(es: Seq<ExprView>) -> nat
    decreases es,
{
    if es.len() == 0 {
        0
    } else {
        1 + size_expr(es[0]) + size_exprs(es.subrange(1, es.len() as int))
    }
}

/// The structural size of a statement.
pub open spec fn size_stmt(s: StmtView) -> nat
    decreases s,
{
    match s {
        StmtView::Print(e) => 1 + size_expr(e),
        StmtView::Expr(e) => 1 + size_expr(e),
        StmtView::VarDeclaration(_, init) => match init {
            Some(e) => 1 + size_expr(e),
            None => 1,
        },
        StmtView::Block(stmts) => 1 + size_stmts(stmts),
        StmtView::If(cond, then_branch, else_branch) => 1 + size_expr(cond) + size_stmt(
            *then_branch,
        ) + (match else_branch {
            Some(eb) => size_stmt(*eb),
            None => 0,
        }),
        StmtView::While(cond, body) => 1 + size_expr(cond) + size_stmt(*body),
        StmtView::FunctionDeclaration(_, _, body) => 1 + size_stmt(*body),
    }
}

/// The structural size of a run of statements.
pub open spec fn size_stmts(ss: Seq<StmtView>) -> nat
    decreases ss,
{
    if ss.len() == 0 {
        0
    } else {
        1 + size_stmt(ss[0]) + size_stmts(ss.subrange(1, ss.len() as int))
    }
}

/// Evaluates one expression.
#[verifier::opaque]
pub open spec fn spec_eval_expr(
    locals: Seq<(u32, usize)>,
    st: EvalState,
    e: ExprView,
    fuel: nat,
) -> EvalOut
    decreases fuel, size_expr(e),
{
    match e {
        ExprView::LiteralNumber(m) => (st, Ok(ValueView::Number(m))),
        ExprView::LiteralString(s) => (st, Ok(ValueView::String(s))),
        ExprView::False => (st, Ok(ValueView::Boolean(false))),
        ExprView::True => (st, Ok(ValueView::Boolean(true))),
        ExprView::Nil => (st, Ok(ValueView::Nil)),
        ExprView::Identifier(i) => match spec_target(locals, st.env, i.parse_tree_id, i.id) {
            Some(ci) => if 0 <= ci < st.env.cells.len() {
                (st, Ok(st.env.cells[ci]))
            } else {
                (st, Err(EvalErrorView::UndefinedVariable(i.id)))
            },
            None => (st, Err(EvalErrorView::UndefinedVariable(i.id))),
        },
        ExprView::Assign(a) => match spec_target(locals, st.env, a.parse_tree_id, a.left) {
            None => (st, Err(EvalErrorView::UndefinedVariable(a.left))),
            Some(ci) => {
                let (st2, r) = spec_eval_expr(locals, st, *a.right, fuel);
                match r {
                    Err(er) => (st2, Err(er)),
                    Ok(v) => if 0 <= ci < st2.env.cells.len() {
                        (
                            EvalState {
                                env: EnvView {
                                    cells: st2.env.cells.update(ci, v),
                                    globals: st2.env.globals,
                                    frames: st2.env.frames,
                                },
                                out: st2.out,
                            },
                            Ok(v),
                        )
                    } else {
                        (st2, Err(EvalErrorView::UndefinedVariable(a.left)))
                    },
                }
            },
        },
        ExprView::BinaryOr(l, r) => {
            let (st2, lr) = spec_eval_expr(locals, st, *l, fuel);
            match lr {
                Err(er) => (st2, Err(er)),
                Ok(lv) => if spec_truthy(lv) {
                    (st2, Ok(lv))
                } else {
                    spec_eval_expr(locals, st2, *r, fuel)
                },
            }
        },
        ExprView::BinaryAnd(l, r) => {
            let (st2, lr) = spec_eval_expr(locals, st, *l, fuel);
            match lr {
                Err(er) => (st2, Err(er)),
                Ok(lv) => if spec_truthy(lv) {
                    spec_eval_expr(locals, st2, *r, fuel)
                } else {
                    (st2, Ok(lv))
                },
            }
        },
        ExprView::BinaryEqual(l, r) => {
            let (st2, lr) = spec_eval_expr(locals, st, *l, fuel);
            match lr {
                Err(er) => (st2, Err(er)),
                Ok(lv) => {
                    let (st3, rr) = spec_eval_expr(locals, st2, *r, fuel);
                    match rr {
                        Err(er) => (st3, Err(er)),
                        Ok(rv) => (st3, spec_apply_binary(e, lv, rv)),
                    }
                },
            }
        },
        ExprView::BinaryNotEqual(l, r) => {
            let (st2, lr) = spec_eval_expr(locals, st, *l, fuel);
            match lr {
                Err(er) => (st2, Err(er)),
                Ok(lv) => {
                    let (st3, rr) = spec_eval_expr(locals, st2, *r, fuel);
                    match rr {
                        Err(er) => (st3, Err(er)),
                        Ok(rv) => (st3, spec_apply_binary(e, lv, rv)),
                    }
                },
            }
        },
        ExprView::BinaryLess(l, r) => {
            let (st2, lr) = spec_eval_expr(locals, st, *l, fuel);
            match lr {
                Err(er) => (st2, Err(er)),
                Ok(lv) => {
                    let (st3, rr) = spec_eval_expr(locals, st2, *r, fuel);
                    match rr {
                        Err(er) => (st3, Err(er)),
                        Ok(rv) => (st3, spec_apply_binary(e, lv, rv)),
                    }
                },
            }
        },
        ExprView::BinaryLessEqual(l, r) => {
            let (st2, lr) = spec_eval_expr(locals, st, *l, fuel);
            match lr {
                Err(er) => (st2, Err(er)),
                Ok(lv) => {
                    let (st3, rr) = spec_eval_expr(locals, st2, *r, fuel);
                    match rr {
                        Err(er) => (st3, Err(er)),
                        Ok(rv) => (st3, spec_apply_binary(e, lv, rv)),
                    }
                },
            }
        },
        ExprView::BinaryGreater(l, r) => {
            let (st2, lr) = spec_eval_expr(locals, st, *l, fuel);
            match lr {
                Err(er) => (st2, Err(er)),
                Ok(lv) => {
                    let (st3, rr) = spec_eval_expr(locals, st2, *r, fuel);
                    match rr {
                        Err(er) => (st3, Err(er)),
                        Ok(rv) => (st3, spec_apply_binary(e, lv, rv)),
                    }
                },
            }
        },
        ExprView::BinaryGreaterEqual(l, r) => {
            let (st2, lr) = spec_eval_expr(locals, st, *l, fuel);
            match lr {
                Err(er) => (st2, Err(er)),
                Ok(lv) => {
                    let (st3, rr) = spec_eval_expr(locals, st2, *r, fuel);
                    match rr {
                        Err(er) => (st3, Err(er)),
                        Ok(rv) => (st3, spec_apply_binary(e, lv, rv)),
                    }
                },
            }
        },
        ExprView::BinaryAdd(l, r) => {
            let (st2, lr) = spec_eval_expr(locals, st, *l, fuel);
            match lr {
                Err(er) => (st2, Err(er)),
                Ok(lv) => {
                    let (st3, rr) = spec_eval_expr(locals, st2, *r, fuel);
                    match rr {
                        Err(er) => (st3, Err(er)),
                        Ok(rv) => (st3, spec_apply_binary(e, lv, rv)),
                    }
                },
            }
        },
        ExprView::BinarySub(l, r) => {
            let (st2, lr) = spec_eval_expr(locals, st, *l, fuel);
            match lr {
                Err(er) => (st2, Err(er)),
                Ok(lv) => {
                    let (st3, rr) = spec_eval_expr(locals, st2, *r, fuel);
                    match rr {
                        Err(er) => (st3, Err(er)),
                        Ok(rv) => (st3, spec_apply_binary(e, lv, rv)),
                    }
                },
            }
        },
        ExprView::BinaryMul(l, r) => {
            let (st2, lr) = spec_eval_expr(locals, st, *l, fuel);
            match lr {
                Err(er) => (st2, Err(er)),
                Ok(lv) => {
                    let (st3, rr) = spec_eval_expr(locals, st2, *r, fuel);
                    match rr {
                        Err(er) => (st3, Err(er)),
                        Ok(rv) => (st3, spec_apply_binary(e, lv, rv)),
                    }
                },
            }
        },
        ExprView::BinaryDiv(l, r) => {
            let (st2, lr) = spec_eval_expr(locals, st, *l, fuel);
            match lr {
                Err(er) => (st2, Err(er)),
                Ok(lv) => {
                    let (st3, rr) = spec_eval_expr(locals, st2, *r, fuel);
                    match rr {
                        Err(er) => (st3, Err(er)),
                        Ok(rv) => (st3, spec_apply_binary(e, lv, rv)),
                    }
                },
            }
        },
        ExprView::UnaryBang(inner) => {
            let (st2, r) = spec_eval_expr(locals, st, *inner, fuel);
            match r {
                Err(er) => (st2, Err(er)),
                Ok(v) => (st2, spec_unary_bang(v)),
            }
        },
        ExprView::UnaryMinus(inner) => {
            let (st2, r) = spec_eval_expr(locals, st, *inner, fuel);
            match r {
                Err(er) => (st2, Err(er)),
                Ok(v) => (st2, spec_unary_minus(v)),
            }
        },
        ExprView::Call(callee, args) => {
            let (st2, cr) = spec_eval_expr(locals, st, *callee, fuel);
            match cr {
                Err(er) => (st2, Err(er)),
                Ok(cv) => match cv {
                    ValueView::Callable(f) => if f.arguments.len() != args.len() {
                        (st2, Err(EvalErrorView::ArityMismatch))
                    } else {
                        let (st3, ar) = spec_eval_exprs(locals, st2, args, fuel);
                        match ar {
                            Err(er) => (st3, Err(er)),
                            Ok(vals) => if fuel == 0 {
                                (st3, Err(EvalErrorView::OutOfSteps))
                            } else {
                                let env4 = spec_bind(
                                    EnvView {
                                        cells: st3.env.cells,
                                        globals: st3.env.globals,
                                        frames: st3.env.frames.push(Seq::empty()),
                                    },
                                    f.arguments,
                                    vals,
                                );
                                let (st5, br) = spec_eval_stmt(
                                    locals,
                                    EvalState { env: env4, out: st3.out },
                                    f.body,
                                    (fuel - 1) as nat,
                                );
                                (
                                    EvalState {
                                        env: EnvView {
                                            cells: st5.env.cells,
                                            globals: st5.env.globals,
                                            frames: if st5.env.frames.len() > 0 {
                                                st5.env.frames.drop_last()
                                            } else {
                                                st5.env.frames
                                            },
                                        },
                                        out: st5.out,
                                    },
                                    br,
                                )
                            },
                        }
                    },
                    _ => (st2, Err(EvalErrorView::NotCallable)),
                },
            }
        },
    }
}

/// Applies one non-short-circuit binary operator to two values.
pub open spec fn spec_apply_binary(op: ExprView, lv: ValueView, rv: ValueView) -> Result<
    ValueView,
    EvalErrorView,
> {
    match op {
        ExprView::BinaryEqual(_, _) => Ok(ValueView::Boolean(spec_value_eq(lv, rv))),
        ExprView::BinaryNotEqual(_, _) => Ok(ValueView::Boolean(!spec_value_eq(lv, rv))),
        ExprView::BinaryLess(_, _) => spec_compare(
            lv,
            rv,
            true,
            false,
            "Less comparison can only be applied to operands both numbers or both strings"@,
        ),
        ExprView::BinaryLessEqual(_, _) => spec_compare(
            lv,
            rv,
            false,
            false,
            "Less or equal comparison can only be applied to operands both numbers or both strings"@,
        ),
        ExprView::BinaryGreater(_, _) => spec_compare(
            lv,
            rv,
            true,
            true,
            "Greater comparison can only be applied to operands both numbers or both strings"@,
        ),
        ExprView::BinaryGreaterEqual(_, _) => spec_compare(
            lv,
            rv,
            false,
            true,
            "Greater or equal comparison can only be applied to operands both numbers or both strings"@,
        ),
        ExprView::BinaryAdd(_, _) => spec_binary_add(lv, rv),
        ExprView::BinarySub(_, _) => spec_binary_sub(lv, rv),
        ExprView::BinaryMul(_, _) => spec_binary_mul(lv, rv),
        ExprView::BinaryDiv(_, _) => spec_binary_div(lv, rv),
        _ => Err(EvalErrorView::NotCallable),
    }
}

/// Evaluates an argument list, left to right.
#[verifier::opaque]
pub open spec fn spec_eval_exprs(
    locals: Seq<(u32, usize)>,
    st: EvalState,
    es: Seq<ExprView>,
    fuel: nat,
) -> EvalsOut
    decreases fuel, size_exprs(es),
{
    if es.len() == 0 {
        (st, Ok(Seq::empty()))
    } else {
        let (st2, r) = spec_eval_expr(locals, st, es[0], fuel);
        match r {
            Err(er) => (st2, Err(er)),
            Ok(v) => {
                let (st3, rr) = spec_eval_exprs(locals, st2, es.subrange(1, es.len() as int), fuel);
                match rr {
                    Err(er) => (st3, Err(er)),
                    Ok(vs) => (st3, Ok(seq![v] + vs)),
                }
            },
        }
    }
}

/// Evaluates one statement.
#[verifier::opaque]
pub open spec fn spec_eval_stmt(
    locals: Seq<(u32, usize)>,
    st: EvalState,
    s: StmtView,
    fuel: nat,
) -> EvalOut
    decreases fuel, size_stmt(s),
{
    match s {
        StmtView::Print(e) => {
            let (st2, r) = spec_eval_expr(locals, st, e, fuel);
            match r {
                Err(er) => (st2, Err(er)),
                Ok(v) => (
                    EvalState { env: st2.env, out: st2.out.push(spec_value_text(v)) },
                    Ok(ValueView::Nil),
                ),
            }
        },
        StmtView::Expr(e) => spec_eval_expr(locals, st, e, fuel),
        StmtView::VarDeclaration(name, init) => match init {
            Some(e) => {
                let (st2, r) = spec_eval_expr(locals, st, e, fuel);
                match r {
                    Err(er) => (st2, Err(er)),
                    Ok(v) => (
                        EvalState { env: st2.env.define(name, v), out: st2.out },
                        Ok(v),
                    ),
                }
            },
            None => (
                EvalState { env: st.env.define(name, ValueView::Nil), out: st.out },
                Ok(ValueView::Nil),
            ),
        },
        StmtView::Block(stmts) => {
            let pushed = EvalState {
                env: EnvView {
                    cells: st.env.cells,
                    globals: st.env.globals,
                    frames: st.env.frames.push(Seq::empty()),
                },
                out: st.out,
            };
            let (st2, r) = spec_eval_stmts(locals, pushed, stmts, fuel);
            let popped = EvalState {
                env: EnvView {
                    cells: st2.env.cells,
                    globals: st2.env.globals,
                    frames: if st2.env.frames.len() > 0 {
                        st2.env.frames.drop_last()
                    } else {
                        st2.env.frames
                    },
                },
                out: st2.out,
            };
            match r {
                Err(er) => (popped, Err(er)),
                Ok(_) => (popped, Ok(ValueView::Nil)),
            }
        },
        StmtView::If(cond, then_branch, else_branch) => {
            let (st2, r) = spec_eval_expr(locals, st, cond, fuel);
            match r {
                Err(er) => (st2, Err(er)),
                Ok(v) => if spec_truthy(v) {
                    spec_eval_stmt(locals, st2, *then_branch, fuel)
                } else {
                    match else_branch {
                        Some(eb) => spec_eval_stmt(locals, st2, *eb, fuel),
                        None => (st2, Ok(ValueView::Nil)),
                    }
                },
            }
        },
        StmtView::While(cond, body) => {
            let (st2, r) = spec_eval_expr(locals, st, cond, fuel);
            match r {
                Err(er) => (st2, Err(er)),
                Ok(v) => if !spec_truthy(v) {
                    (st2, Ok(ValueView::Nil))
                } else {
                    let (st3, br) = spec_eval_stmt(locals, st2, *body, fuel);
                    match br {
                        Err(er) => (st3, Err(er)),
                        Ok(_) => if fuel == 0 {
                            (st3, Err(EvalErrorView::OutOfSteps))
                        } else {
                            spec_eval_stmt(locals, st3, s, (fuel - 1) as nat)
                        },
                    }
                },
            }
        },
        StmtView::FunctionDeclaration(name, params, body) => {
            let f = FunctionView { name: name, arguments: params, body: *body };
            (
                EvalState { env: st.env.define(name, ValueView::Callable(f)), out: st.out },
                Ok(ValueView::Nil),
            )
        },
    }
}

/// Evaluates a run of statements in order; the result is the last
/// statement's value, or `nil` for an empty run.
#[verifier::opaque]
pub open spec fn spec_eval_stmts(
    locals: Seq<(u32, usize)>,
    st: EvalState,
    ss: Seq<StmtView>,
    fuel: nat,
) -> EvalOut
    decreases fuel, size_stmts(ss),
{
    if ss.len() == 0 {
        (st, Ok(ValueView::Nil))
    } else {
        let (st2, r) = spec_eval_stmt(locals, st, ss[0], fuel);
        match r {
            Err(er) => (st2, Err(er)),
            Ok(v) => if ss.len() == 1 {
                (st2, Ok(v))
            } else {
                spec_eval_stmts(locals, st2, ss.subrange(1, ss.len() as int), fuel)
            },
        }
    }
}

/// The shape of an evaluation result.
pub open spec fn view_eval_result(r: Result<Value, EvalError>) -> Result<
    ValueView,
    EvalErrorView,
> {
    match r {
        Ok(v) => Ok(v@),
        Err(e) => Err(e@),
    }
}

} // verus!

verus! {

/// Applies one non-short-circuit binary operator to two already-evaluated
/// values.
fn apply_binary(op: &Expr, lv: Value, rv: Value) -> (r: Result<Value, EvalError>)
    ensures
        view_eval_result(r) == spec_apply_binary(op@, lv@, rv@),
{
    match op {
        Expr::BinaryEqual(_, _) => Ok(Value::Boolean(lv.equals(&rv))),
        Expr::BinaryNotEqual(_, _) => Ok(Value::Boolean(!lv.equals(&rv))),
        Expr::BinaryLess(_, _) => match (lv, rv) {
            (Value::Number(x), Value::Number(y)) => Ok(Value::Boolean(x.lt(&y))),
            (Value::String(s), Value::String(t)) => Ok(
                Value::Boolean(str_lt(s.as_str(), t.as_str())),
            ),
            _ => Err(
                EvalError::TypeMismatch(
                    String::from_str(
                        "Less comparison can only be applied to operands both numbers or both strings",
                    ),
                ),
            ),
        },
        Expr::BinaryLessEqual(_, _) => match (lv, rv) {
            (Value::Number(x), Value::Number(y)) => Ok(Value::Boolean(x.le(&y))),
            (Value::String(s), Value::String(t)) => Ok(
                Value::Boolean(str_le(s.as_str(), t.as_str())),
            ),
            _ => Err(
                EvalError::TypeMismatch(
                    String::from_str(
                        "Less or equal comparison can only be applied to operands both numbers or both strings",
                    ),
                ),
            ),
        },
        Expr::BinaryGreater(_, _) => match (lv, rv) {
            (Value::Number(x), Value::Number(y)) => Ok(Value::Boolean(y.lt(&x))),
            (Value::String(s), Value::String(t)) => Ok(
                Value::Boolean(str_lt(t.as_str(), s.as_str())),
            ),
            _ => Err(
                EvalError::TypeMismatch(
                    String::from_str(
                        "Greater comparison can only be applied to operands both numbers or both strings",
                    ),
                ),
            ),
        },
        Expr::BinaryGreaterEqual(_, _) => match (lv, rv) {
            (Value::Number(x), Value::Number(y)) => Ok(Value::Boolean(y.le(&x))),
            (Value::String(s), Value::String(t)) => Ok(
                Value::Boolean(str_le(t.as_str(), s.as_str())),
            ),
            _ => Err(
                EvalError::TypeMismatch(
                    String::from_str(
                        "Greater or equal comparison can only be applied to operands both numbers or both strings",
                    ),
                ),
            ),
        },
        Expr::BinaryAdd(_, _) => match (lv, rv) {
            (Value::Number(x), Value::Number(y)) => match x.checked_add(y) {
                Some(n) => Ok(Value::Number(n)),
                None => Err(EvalError::NumericOverflow),
            },
            (Value::String(str_left), other) => {
                let mut out = str_left;
                let text = other.to_text();
                out.append(text.as_str());
                Ok(Value::String(out))
            },
            (other, Value::String(str_right)) => {
                let mut out = other.to_text();
                out.append(str_right.as_str());
                Ok(Value::String(out))
            },
            _ => Err(
                EvalError::TypeMismatch(
                    String::from_str(
                        "Addition can only be applied to operands both numbers or both strings",
                    ),
                ),
            ),
        },
        Expr::BinarySub(_, _) => match (lv, rv) {
            (Value::Number(x), Value::Number(y)) => match x.checked_sub(y) {
                Some(n) => Ok(Value::Number(n)),
                None => Err(EvalError::NumericOverflow),
            },
            _ => Err(
                EvalError::TypeMismatch(
                    String::from_str("Subtraction can only be applied to numbers"),
                ),
            ),
        },
        Expr::BinaryMul(_, _) => match (lv, rv) {
            (Value::Number(x), Value::Number(y)) => match x.checked_mul(y) {
                Some(n) => Ok(Value::Number(n)),
                None => Err(EvalError::NumericOverflow),
            },
            _ => Err(
                EvalError::TypeMismatch(
                    String::from_str("Multiplication can only be applied to numbers"),
                ),
            ),
        },
        Expr::BinaryDiv(_, _) => match (lv, rv) {
            (Value::Number(x), Value::Number(y)) => {
                if y.is_zero() {
                    Err(EvalError::DivisionByZero)
                } else {
                    match x.checked_div(y) {
                        Some(n) => Ok(Value::Number(n)),
                        None => Err(EvalError::NumericOverflow),
                    }
                }
            },
            _ => Err(
                EvalError::TypeMismatch(
                    String::from_str("Division can only be applied to numbers"),
                ),
            ),
        },
        _ => Err(EvalError::NotCallable),
    }
}

/// Applies unary `!` to a value.
fn apply_bang(v: Value) -> (r: Result<Value, EvalError>)
    ensures
        view_eval_result(r) == spec_unary_bang(v@),
{
    match v {
        Value::Boolean(b) => Ok(Value::Boolean(!b)),
        Value::Number(_) => Err(
            EvalError::TypeMismatch(String::from_str("Unary bang cannot be applied to a number")),
        ),
        Value::String(_) => Err(
            EvalError::TypeMismatch(String::from_str("Unary bang cannot be applied to a string")),
        ),
        Value::Nil => Err(
            EvalError::TypeMismatch(String::from_str("Unary bang cannot be applied to nil")),
        ),
        Value::Callable(_) => Err(
            EvalError::TypeMismatch(
                String::from_str("Unary bang cannot be applied to a function"),
            ),
        ),
    }
}

/// Applies unary `-` to a value.
fn apply_minus(v: Value) -> (r: Result<Value, EvalError>)
    ensures
        view_eval_result(r) == spec_unary_minus(v@),
{
    match v {
        Value::Number(x) => match x.checked_neg() {
            Some(n) => Ok(Value::Number(n)),
            None => Err(EvalError::NumericOverflow),
        },
        Value::String(_) => Err(
            EvalError::TypeMismatch(String::from_str("Unary minus cannot be applied to a string")),
        ),
        Value::Boolean(_) => Err(
            EvalError::TypeMismatch(
                String::from_str("Unary minus cannot be applied to a boolean"),
            ),
        ),
        Value::Nil => Err(
            EvalError::TypeMismatch(String::from_str("Unary minus cannot be applied to nil")),
        ),
        Value::Callable(_) => Err(
            EvalError::TypeMismatch(
                String::from_str("Unary minus cannot be applied to a function"),
            ),
        ),
    }
}

/// The interpreter: an environment, the resolver's distance map, and the
/// lines printed so far.
pub struct Interpreter {
    environment: EnvironmentImpl,
    locals: ResolverMap,
    output: Vec<String>,
}

impl Interpreter {
    /// The evaluator's observable state.
    pub closed spec fn est(&self) -> EvalState {
        EvalState { env: self.environment@, out: view_strings(self.output@) }
    }

    /// The distance map in use.
    pub closed spec fn locals_v(&self) -> Seq<(u32, usize)> {
        self.locals@
    }

    /// The interpreter's invariant: every binding handle points into the
    /// cell arena.
    pub closed spec fn wf_i(&self) -> bool {
        self.environment@.wf()
    }

    /// A fresh interpreter: empty environment, empty map, nothing printed.
    pub fn new() -> (r: Interpreter)
        ensures
            r.wf_i(),
            r.est().env.cells == Seq::<ValueView>::empty(),
            r.est().env.globals =~= Seq::<(Seq<char>, int)>::empty(),
            r.est().env.frames =~= Seq::<crate::environment::FrameView>::empty(),
            r.est().out == Seq::<Seq<char>>::empty(),
            r.locals_v() == Seq::<(u32, usize)>::empty(),
    {
        let r = Interpreter {
            environment: EnvironmentImpl::new(),
            locals: ResolverMap::new(),
            output: Vec::new(),
        };
        proof {
            assert(view_strings(r.output@) =~= Seq::<Seq<char>>::empty());
        }
        r
    }

    /// The lines printed so far, oldest first.
    pub fn get_output(&self) -> (r: &Vec<String>)
        ensures
            view_strings(r@) == self.est().out,
    {
        &self.output
    }

    /// Binds the function's parameters, from `i` on, to the argument values.
    fn bind_params_from(&mut self, f: &FunctionImpl, vals: &Vec<Value>, i: usize)
        requires
            old(self).wf_i(),
            f@.arguments.len() == vals@.len(),
            i <= vals@.len(),
        ensures
            final(self).wf_i(),
            final(self).locals_v() == old(self).locals_v(),
            final(self).est().out == old(self).est().out,
            final(self).est().env == spec_bind(
                old(self).est().env,
                f@.arguments.subrange(i as int, f@.arguments.len() as int),
                view_values(vals@).subrange(i as int, vals@.len() as int),
            ),
            old(self).est().env.cells.len() <= final(self).est().env.cells.len(),
            final(self).est().env.frames.len() == old(self).est().env.frames.len(),
        decreases vals@.len() - i,
    {
        let count = f.get_arg_count();
        if i >= count {
            proof {
                assert(f@.arguments.subrange(i as int, f@.arguments.len() as int)
                    =~= Seq::<Seq<char>>::empty());
            }
            return ;
        }
        let name = match f.get_arg_name(i) {
            Ok(n) => n,
            Err(_) => {
                proof {
                    assert(false);
                }
                return ;
            },
        };
        proof {
            let names = f@.arguments.subrange(i as int, f@.arguments.len() as int);
            let vs = view_values(vals@).subrange(i as int, vals@.len() as int);
            assert(names[0] == f@.arguments[i as int]);
            assert(vs[0] == view_values(vals@)[i as int]);
            assert(view_values(vals@)[i as int] == vals@[i as int]@);
            assert(names.subrange(1, names.len() as int) =~= f@.arguments.subrange(
                i as int + 1,
                f@.arguments.len() as int,
            ));
            assert(vs.subrange(1, vs.len() as int) =~= view_values(vals@).subrange(
                i as int + 1,
                vals@.len() as int,
            ));
        }
        let v = vals[i].clone();
        self.environment.define_variable(name.as_str(), v);
        self.bind_params_from(f, vals, i + 1)
    }

    /// Evaluates one expression against the current environment.
    #[verifier::rlimit(100)]
    #[verifier::spinoff_prover]
    pub fn eval_expr(&mut self, e: &Expr, fuel: u64) -> (r: Result<Value, EvalError>)
        requires
            old(self).wf_i(),
        ensures
            final(self).wf_i(),
            final(self).locals_v() == old(self).locals_v(),
            spec_eval_expr(old(self).locals_v(), old(self).est(), e@, fuel as nat) == (
                final(self).est(),
                view_eval_result(r),
            ),
            old(self).est().env.cells.len() <= final(self).est().env.cells.len(),
            final(self).est().env.frames.len() == old(self).est().env.frames.len(),
        decreases fuel, size_expr(e@),
    {
        proof {
            reveal(spec_eval_expr);
            reveal(spec_eval_exprs);
            reveal(spec_eval_stmt);
            reveal(spec_eval_stmts);
        }
        match e {
            Expr::LiteralNumber(n) => Ok(Value::Number(*n)),
            Expr::LiteralString(s) => Ok(Value::String(s.clone())),
            Expr::False => Ok(Value::Boolean(false)),
            Expr::True => Ok(Value::Boolean(true)),
            Expr::Nil => Ok(Value::Nil),
            Expr::Identifier(ident) => {
                let target = match self.locals.get(ident.parse_tree_id) {
                    Some(d) => self.environment.get_variable_at(ident.id.as_str(), d),
                    None => self.environment.get_global_variable(ident.id.as_str()),
                };
                match target {
                    Some(cell) => {
                        proof {
                            if rm_lookup(self.locals@, ident.parse_tree_id) is Some {
                                lemma_env_lookup_at_wf(
                                    self.environment@,
                                    ident.id@,
                                    rm_lookup(self.locals@, ident.parse_tree_id)->Some_0 as int,
                                );
                            } else {
                                lemma_frame_lookup_wf(
                                    self.environment@.globals,
                                    ident.id@,
                                    self.environment@.cells.len() as int,
                                );
                            }
                        }
                        Ok(self.environment.read_cell(cell).clone())
                    },
                    None => Err(EvalError::UndefinedVariable(ident.id.clone())),
                }
            },
            Expr::Assign(a) => {
                let target = match self.locals.get(a.parse_tree_id) {
                    Some(d) => self.environment.get_variable_at(a.left.as_str(), d),
                    None => self.environment.get_global_variable(a.left.as_str()),
                };
                match target {
                    None => Err(EvalError::UndefinedVariable(a.left.clone())),
                    Some(cell) => {
                        proof {
                            if rm_lookup(self.locals@, a.parse_tree_id) is Some {
                                lemma_env_lookup_at_wf(
                                    self.environment@,
                                    a.left@,
                                    rm_lookup(self.locals@, a.parse_tree_id)->Some_0 as int,
                                );
                            } else {
                                lemma_frame_lookup_wf(
                                    self.environment@.globals,
                                    a.left@,
                                    self.environment@.cells.len() as int,
                                );
                            }
                        }
                        let v = match self.eval_expr(&a.right, fuel) {
                            Ok(v) => v,
                            Err(er) => {
                                return Err(er);
                            },
                        };
                        let result = v.clone();
                        self.environment.write_cell(cell, v);
                        Ok(result)
                    },
                }
            },
            Expr::BinaryOr(l, r) => {
                let lv = match self.eval_expr(l, fuel) {
                    Ok(v) => v,
                    Err(er) => {
                        return Err(er);
                    },
                };
                if lv.is_truthy() {
                    Ok(lv)
                } else {
                    self.eval_expr(r, fuel)
                }
            },
            Expr::BinaryAnd(l, r) => {
                let lv = match self.eval_expr(l, fuel) {
                    Ok(v) => v,
                    Err(er) => {
                        return Err(er);
                    },
                };
                if lv.is_truthy() {
                    self.eval_expr(r, fuel)
                } else {
                    Ok(lv)
                }
            },
            Expr::BinaryEqual(l, r) => self.eval_binary_operands(e, l, r, fuel),
            Expr::BinaryNotEqual(l, r) => self.eval_binary_operands(e, l, r, fuel),
            Expr::BinaryLess(l, r) => self.eval_binary_operands(e, l, r, fuel),
            Expr::BinaryLessEqual(l, r) => self.eval_binary_operands(e, l, r, fuel),
            Expr::BinaryGreater(l, r) => self.eval_binary_operands(e, l, r, fuel),
            Expr::BinaryGreaterEqual(l, r) => self.eval_binary_operands(e, l, r, fuel),
            Expr::BinaryAdd(l, r) => self.eval_binary_operands(e, l, r, fuel),
            Expr::BinarySub(l, r) => self.eval_binary_operands(e, l, r, fuel),
            Expr::BinaryMul(l, r) => self.eval_binary_operands(e, l, r, fuel),
            Expr::BinaryDiv(l, r) => self.eval_binary_operands(e, l, r, fuel),
            Expr::UnaryBang(inner) => {
                let v = match self.eval_expr(inner, fuel) {
                    Ok(v) => v,
                    Err(er) => {
                        return Err(er);
                    },
                };
                apply_bang(v)
            },
            Expr::UnaryMinus(inner) => {
                let v = match self.eval_expr(inner, fuel) {
                    Ok(v) => v,
                    Err(er) => {
                        return Err(er);
                    },
                };
                apply_minus(v)
            },
            Expr::Call(callee, args) => {
                let cv = match self.eval_expr(callee, fuel) {
                    Ok(v) => v,
                    Err(er) => {
                        return Err(er);
                    },
                };
                match cv {
                    Value::Callable(f) => {
                        if f.get_arg_count() != args.len() {
                            proof {
                                crate::expr::lemma_view_exprs_len(args@);
                            }
                            return Err(EvalError::ArityMismatch);
                        }
                        proof {
                            crate::expr::lemma_view_exprs_len(args@);
                            assert(view_exprs(args@).subrange(0, args@.len() as int)
                                =~= view_exprs(args@));
                            assert(size_exprs(view_exprs(args@).subrange(0, args@.len() as int))
                                < size_expr(e@));
                        }
                        let vals = match self.eval_args_from(args, 0, fuel) {
                            Ok(vs) => vs,
                            Err(er) => {
                                return Err(er);
                            },
                        };
                        if fuel == 0 {
                            return Err(EvalError::OutOfSteps);
                        }
                        self.environment.push_stack();
                        proof {
                            assert(view_values(vals@).subrange(0, vals@.len() as int)
                                =~= view_values(vals@));
                            assert(f@.arguments.subrange(0, f@.arguments.len() as int)
                                =~= f@.arguments);
                        }
                        self.bind_params_from(&f, &vals, 0);
                        let body = f.get_body();
                        let r = self.eval_stmt(body, fuel - 1);
                        self.environment.pop_stack();
                        r
                    },
                    _ => Err(EvalError::NotCallable),
                }
            },
        }
    }

    /// Evaluates the two operands of one non-short-circuit binary operator,
    /// left first, then applies it.
    #[verifier::rlimit(100)]
    #[verifier::spinoff_prover]
    fn eval_binary_operands(&mut self, op: &Expr, l: &Expr, r: &Expr, fuel: u64) -> (res: Result<
        Value,
        EvalError,
    >)
        requires
            old(self).wf_i(),
            op@ matches ExprView::BinaryEqual(bl, br) ==> *bl == l@ && *br == r@,
            op@ matches ExprView::BinaryNotEqual(bl, br) ==> *bl == l@ && *br == r@,
            op@ matches ExprView::BinaryLess(bl, br) ==> *bl == l@ && *br == r@,
            op@ matches ExprView::BinaryLessEqual(bl, br) ==> *bl == l@ && *br == r@,
            op@ matches ExprView::BinaryGreater(bl, br) ==> *bl == l@ && *br == r@,
            op@ matches ExprView::BinaryGreaterEqual(bl, br) ==> *bl == l@ && *br == r@,
            op@ matches ExprView::BinaryAdd(bl, br) ==> *bl == l@ && *br == r@,
            op@ matches ExprView::BinarySub(bl, br) ==> *bl == l@ && *br == r@,
            op@ matches ExprView::BinaryMul(bl, br) ==> *bl == l@ && *br == r@,
            op@ matches ExprView::BinaryDiv(bl, br) ==> *bl == l@ && *br == r@,
            (op@ is BinaryEqual || op@ is BinaryNotEqual || op@ is BinaryLess || op@
                is BinaryLessEqual || op@ is BinaryGreater || op@ is BinaryGreaterEqual || op@
                is BinaryAdd || op@ is BinarySub || op@ is BinaryMul || op@ is BinaryDiv),
            size_expr(l@) < size_expr(op@),
            size_expr(r@) < size_expr(op@),
        ensures
            final(self).wf_i(),
            final(self).locals_v() == old(self).locals_v(),
            spec_eval_expr(old(self).locals_v(), old(self).est(), op@, fuel as nat) == (
                final(self).est(),
                view_eval_result(res),
            ),
            old(self).est().env.cells.len() <= final(self).est().env.cells.len(),
            final(self).est().env.frames.len() == old(self).est().env.frames.len(),
        decreases fuel, size_expr(op@), 0int,
    {
        proof {
            reveal(spec_eval_expr);
        }
        let lv = match self.eval_expr(l, fuel) {
            Ok(v) => v,
            Err(er) => {
                return Err(er);
            },
        };
        let rv = match self.eval_expr(r, fuel) {
            Ok(v) => v,
            Err(er) => {
                return Err(er);
            },
        };
        apply_binary(op, lv, rv)
    }

    /// Evaluates the call arguments from `i` on, left to right.
    #[verifier::rlimit(100)]
    #[verifier::spinoff_prover]
    fn eval_args_from(&mut self, args: &Vec<Expr>, i: usize, fuel: u64) -> (r: Result<
        Vec<Value>,
        EvalError,
    >)
        requires
            old(self).wf_i(),
            i <= args@.len(),
        ensures
            final(self).wf_i(),
            final(self).locals_v() == old(self).locals_v(),
            ({
                let spec_r = spec_eval_exprs(
                    old(self).locals_v(),
                    old(self).est(),
                    view_exprs(args@).subrange(i as int, args@.len() as int),
                    fuel as nat,
                );
                match r {
                    Ok(vs) => spec_r == (final(self).est(), Ok::<Seq<ValueView>, EvalErrorView>(
                        view_values(vs@),
                    )) && vs@.len() == args@.len() - i,
                    Err(er) => spec_r == (final(self).est(), Err::<Seq<ValueView>, EvalErrorView>(
                        er@,
                    )),
                }
            }),
            old(self).est().env.cells.len() <= final(self).est().env.cells.len(),
            final(self).est().env.frames.len() == old(self).est().env.frames.len(),
        decreases fuel, size_exprs(view_exprs(args@).subrange(i as int, args@.len() as int)), 2int,
    {
        proof {
            reveal(spec_eval_exprs);
            crate::expr::lemma_view_exprs_len(args@);
        }
        let ghost av = view_exprs(args@);
        if i >= args.len() {
            let out: Vec<Value> = Vec::new();
            proof {
                assert(av.subrange(i as int, args@.len() as int) =~= Seq::<ExprView>::empty());
                assert(view_values(out@) =~= Seq::<ValueView>::empty());
            }
            return Ok(out);
        }
        proof {
            let rest = av.subrange(i as int, args@.len() as int);
            assert(rest[0] == av[i as int]);
            assert(rest[0] == args@[i as int]@);
            assert(rest.subrange(1, rest.len() as int) =~= av.subrange(
                i as int + 1,
                args@.len() as int,
            ));
            assert(size_expr(rest[0]) < size_exprs(rest));
            assert(size_exprs(rest.subrange(1, rest.len() as int)) < size_exprs(rest));
        }
        let v = match self.eval_expr(&args[i], fuel) {
            Ok(v) => v,
            Err(er) => {
                return Err(er);
            },
        };
        let rest_vals = match self.eval_args_from(args, i + 1, fuel) {
            Ok(vs) => vs,
            Err(er) => {
                return Err(er);
            },
        };
        let ghost rest0 = rest_vals@;
        let mut out: Vec<Value> = Vec::new();
        out.push(v);
        let mut rest_vals = rest_vals;
        out.append(&mut rest_vals);
        proof {
            assert(out@ =~= seq![out@[0]] + rest0);
            assert(view_values(out@) =~= seq![out@[0]@] + view_values(rest0));
        }
        Ok(out)
    }

    /// Evaluates one statement against the current environment.
    #[verifier::rlimit(100)]
    #[verifier::spinoff_prover]
    pub fn eval_stmt(&mut self, s: &Stmt, fuel: u64) -> (r: Result<Value, EvalError>)
        requires
            old(self).wf_i(),
        ensures
            final(self).wf_i(),
            final(self).locals_v() == old(self).locals_v(),
            spec_eval_stmt(old(self).locals_v(), old(self).est(), s@, fuel as nat) == (
                final(self).est(),
                view_eval_result(r),
            ),
            old(self).est().env.cells.len() <= final(self).est().env.cells.len(),
            final(self).est().env.frames.len() == old(self).est().env.frames.len(),
        decreases fuel, size_stmt(s@), 1int,
    {
        proof {
            reveal(spec_eval_stmt);
            reveal(spec_eval_stmts);
        }
        match s {
            Stmt::Print(e) => {
                let v = match self.eval_expr(e, fuel) {
                    Ok(v) => v,
                    Err(er) => {
                        return Err(er);
                    },
                };
                let text = v.to_text();
                let ghost out0 = self.output@;
                self.output.push(text);
                proof {
                    assert(view_strings(self.output@) =~= view_strings(out0).push(
                        spec_value_text(v@),
                    ));
                }
                Ok(Value::Nil)
            },
            Stmt::Expr(e) => self.eval_expr(e, fuel),
            Stmt::VarDeclaration(name, init) => match init {
                Some(e) => {
                    let v = match self.eval_expr(e, fuel) {
                        Ok(v) => v,
                        Err(er) => {
                            return Err(er);
                        },
                    };
                    let result = v.clone();
                    self.environment.define_variable(name.as_str(), v);
                    Ok(result)
                },
                None => {
                    self.environment.define_variable(name.as_str(), Value::Nil);
                    Ok(Value::Nil)
                },
            },
            Stmt::Block(stmts) => {
                self.environment.push_stack();
                proof {
                    crate::stmt::lemma_view_stmts_len(stmts@);
                    assert(view_stmts(stmts@).subrange(0, stmts@.len() as int) =~= view_stmts(
                        stmts@,
                    ));
                    assert(size_stmts(view_stmts(stmts@).subrange(0, stmts@.len() as int))
                        < size_stmt(s@));
                }
                let r = self.eval_stmts_from(stmts, 0, fuel);
                self.environment.pop_stack();
                match r {
                    Ok(_) => Ok(Value::Nil),
                    Err(er) => Err(er),
                }
            },
            Stmt::If(cond, then_branch, else_branch) => {
                let cv = match self.eval_expr(cond, fuel) {
                    Ok(v) => v,
                    Err(er) => {
                        return Err(er);
                    },
                };
                if cv.is_truthy() {
                    self.eval_stmt(then_branch, fuel)
                } else {
                    match else_branch {
                        Some(eb) => self.eval_stmt(eb, fuel),
                        None => Ok(Value::Nil),
                    }
                }
            },
            Stmt::While(cond, body) => {
                let cv = match self.eval_expr(cond, fuel) {
                    Ok(v) => v,
                    Err(er) => {
                        return Err(er);
                    },
                };
                if !cv.is_truthy() {
                    Ok(Value::Nil)
                } else {
                    let br = self.eval_stmt(body, fuel);
                    if let Err(er) = br {
                        return Err(er);
                    }
                    if fuel == 0 {
                        return Err(EvalError::OutOfSteps);
                    }
                    self.eval_stmt(s, fuel - 1)
                }
            },
            Stmt::FunctionDeclaration(name, params, body) => {
                let f = FunctionImpl::new(
                    name.clone(),
                    crate::stmt::clone_strings(params),
                    Box::new((**body).clone()),
                );
                self.environment.define_function(name.as_str(), f);
                Ok(Value::Nil)
            },
        }
    }

    /// Evaluates the statements from `i` on; the result is the last one's
    /// value, or `nil` when none are left.
    #[verifier::rlimit(100)]
    #[verifier::spinoff_prover]
    fn eval_stmts_from(&mut self, stmts: &Vec<Stmt>, i: usize, fuel: u64) -> (r: Result<
        Value,
        EvalError,
    >)
        requires
            old(self).wf_i(),
            i <= stmts@.len(),
        ensures
            final(self).wf_i(),
            final(self).locals_v() == old(self).locals_v(),
            spec_eval_stmts(
                old(self).locals_v(),
                old(self).est(),
                view_stmts(stmts@).subrange(i as int, stmts@.len() as int),
                fuel as nat,
            ) == (final(self).est(), view_eval_result(r)),
            old(self).est().env.cells.len() <= final(self).est().env.cells.len(),
            final(self).est().env.frames.len() == old(self).est().env.frames.len(),
        decreases fuel, size_stmts(view_stmts(stmts@).subrange(i as int, stmts@.len() as int)),
            2int,
    {
        proof {
            reveal(spec_eval_stmts);
            crate::stmt::lemma_view_stmts_len(stmts@);
        }
        let ghost sv = view_stmts(stmts@);
        if i >= stmts.len() {
            proof {
                assert(sv.subrange(i as int, stmts@.len() as int) =~= Seq::<StmtView>::empty());
            }
            return Ok(Value::Nil);
        }
        proof {
            let rest = sv.subrange(i as int, stmts@.len() as int);
            assert(rest[0] == sv[i as int]);
            assert(rest[0] == stmts@[i as int]@);
            assert(rest.subrange(1, rest.len() as int) =~= sv.subrange(
                i as int + 1,
                stmts@.len() as int,
            ));
            assert(size_stmt(rest[0]) < size_stmts(rest));
            assert(size_stmts(rest.subrange(1, rest.len() as int)) < size_stmts(rest));
        }
        let v = match self.eval_stmt(&stmts[i], fuel) {
            Ok(v) => v,
            Err(er) => {
                return Err(er);
            },
        };
        if i + 1 == stmts.len() {
            return Ok(v);
        }
        self.eval_stmts_from(stmts, i + 1, fuel)
    }
}

} // verus!

verus! {

/// Why a whole run of a source string failed.
#[derive(Debug)]
pub enum InterpretError {
    /// The scanner rejected the source.
    Scan(ScanError),
    /// The parser rejected the token stream.
    Parse(ParseError),
    /// The resolver rejected a variable use.
    Resolve(String),
    /// Evaluation failed.
    Eval(EvalError),
    /// The source produced more tokens than a parse can number.
    SourceTooLarge,
}

/// The shape of a run error.
pub enum InterpretErrorView {
    Scan(ScanError),
    Parse(Seq<char>),
    Resolve(Seq<char>),
    Eval(EvalErrorView),
    SourceTooLarge,
}

impl View for InterpretError {
    type V = InterpretErrorView;

    open spec fn view(&self) -> InterpretErrorView {
        match self {
            InterpretError::Scan(e) => InterpretErrorView::Scan(*e),
            InterpretError::Parse(pe) => InterpretErrorView::Parse(pe@),
            InterpretError::Resolve(m) => InterpretErrorView::Resolve(m@),
            InterpretError::Eval(e) => InterpretErrorView::Eval(e@),
            InterpretError::SourceTooLarge => InterpretErrorView::SourceTooLarge,
        }
    }
}

impl InterpretError {
    /// A human-readable description of the error.
    pub fn message(&self) -> (r: String)
    {
        match self {
            InterpretError::Scan(e) => e.message(),
            InterpretError::Parse(pe) => pe.to_string(),
            InterpretError::Resolve(m) => m.clone(),
            InterpretError::Eval(e) => e.message(),
            InterpretError::SourceTooLarge => String::from_str("Source is too large to parse"),
        }
    }
}

/// Runs a whole source string against a starting state: scan, parse,
/// resolve, then evaluate under the default step budget.
pub open spec fn spec_execute(st0: EvalState, src: Seq<char>) -> (EvalState, Result<
    ValueView,
    InterpretErrorView,
>) {
    match spec_scan(src) {
        Err(e) => (st0, Err(InterpretErrorView::Scan(e))),
        Ok(toks) => if toks.len() >= 0xFFFF_FFFF {
            (st0, Err(InterpretErrorView::SourceTooLarge))
        } else {
            match crate::parser::spec_parse_program(toks, 0, 0) {
                Err(m) => (st0, Err(InterpretErrorView::Parse(m))),
                Ok(parsed) => match spec_resolve(parsed.0) {
                    Err(m) => (st0, Err(InterpretErrorView::Resolve(m))),
                    Ok(map) => {
                        let evaluated = spec_eval_stmts(
                            map,
                            st0,
                            parsed.0,
                            DEFAULT_FUEL as nat,
                        );
                        (
                            evaluated.0,
                            match evaluated.1 {
                                Ok(v) => Ok(v),
                                Err(e) => Err(InterpretErrorView::Eval(e)),
                            },
                        )
                    },
                },
            }
        },
    }
}

/// The shape of a run result.
pub open spec fn view_execute_result(r: Result<Value, InterpretError>) -> Result<
    ValueView,
    InterpretErrorView,
> {
    match r {
        Ok(v) => Ok(v@),
        Err(e) => Err(e@),
    }
}

impl Interpreter {
    /// Runs one source string: scan, parse, resolve, evaluate. The result is
    /// the last statement's value, the printed lines collect in the output
    /// buffer, and globals persist into later runs.
    #[verifier::rlimit(100)]
    #[verifier::spinoff_prover]
    pub fn execute(&mut self, source: String) -> (r: Result<Value, InterpretError>)
        requires
            old(self).wf_i(),
        ensures
            final(self).wf_i(),
            spec_execute(old(self).est(), source@) == (final(self).est(), view_execute_result(r)),
    {
        let ghost src = source@;
        let mut scanner = Scanner::new(source);
        let tokens = match scanner.scan_tokens() {
            Ok(t) => t,
            Err(e) => {
                return Err(InterpretError::Scan(e));
            },
        };
        proof {
            crate::token::lemma_view_tokens_len(tokens@);
        }
        if tokens.len() >= 0xFFFF_FFFF {
            return Err(InterpretError::SourceTooLarge);
        }
        let mut parser = Parser::new(tokens);
        let statements = match parser.parse() {
            Ok(s) => s,
            Err(pe) => {
                return Err(InterpretError::Parse(pe));
            },
        };
        let mut resolver = Resolver::new();
        let map = match resolver.resolve(&statements) {
            Ok(m) => m,
            Err(msg) => {
                return Err(InterpretError::Resolve(msg));
            },
        };
        self.locals = map;
        proof {
            crate::stmt::lemma_view_stmts_len(statements@);
            assert(view_stmts(statements@).subrange(0, statements@.len() as int) =~= view_stmts(
                statements@,
            ));
        }
        let r = self.eval_stmts_from(&statements, 0, DEFAULT_FUEL);
        match r {
            Ok(v) => Ok(v),
            Err(e) => Err(InterpretError::Eval(e)),
        }
    }
}

} // verus!

verus! {

/// Short-circuit of `or`: when the left operand evaluates to a truthy value,
/// the whole `or` ends exactly as the left operand alone did — the right
/// operand is never evaluated, so none of its effects happen.
pub proof fn lemma_or_short_circuit(
    locals: Seq<(u32, usize)>,
    st: EvalState,
    l: ExprView,
    r: ExprView,
    fuel: nat,
)
    requires
        spec_eval_expr(locals, st, l, fuel).1 matches Ok(v) && spec_truthy(v),
    ensures
        spec_eval_expr(locals, st, ExprView::BinaryOr(Box::new(l), Box::new(r)), fuel)
            == spec_eval_expr(locals, st, l, fuel),
{
    reveal_with_fuel(spec_eval_expr, 2);
}

/// Short-circuit of `and`: when the left operand evaluates to a falsy value,
/// the whole `and` ends exactly as the left operand alone did.
pub proof fn lemma_and_short_circuit(
    locals: Seq<(u32, usize)>,
    st: EvalState,
    l: ExprView,
    r: ExprView,
    fuel: nat,
)
    requires
        spec_eval_expr(locals, st, l, fuel).1 matches Ok(v) && !spec_truthy(v),
    ensures
        spec_eval_expr(locals, st, ExprView::BinaryAnd(Box::new(l), Box::new(r)), fuel)
            == spec_eval_expr(locals, st, l, fuel),
{
    reveal_with_fuel(spec_eval_expr, 2);
}

/// Call arity: a call whose argument count differs from the function's
/// arity always fails with the arity error, and leaves the state exactly as
/// it stood after evaluating the callee — no argument and none of the body
/// is ever evaluated.
pub proof fn lemma_call_arity(
    locals: Seq<(u32, usize)>,
    st: EvalState,
    callee: ExprView,
    args: Seq<ExprView>,
    f: FunctionView,
    fuel: nat,
)
    requires
        spec_eval_expr(locals, st, callee, fuel).1 == Ok::<ValueView, EvalErrorView>(
            ValueView::Callable(f),
        ),
        f.arguments.len() != args.len(),
    ensures
        spec_eval_expr(locals, st, ExprView::Call(Box::new(callee), args), fuel) == (
            spec_eval_expr(locals, st, callee, fuel).0,
            Err::<ValueView, EvalErrorView>(EvalErrorView::ArityMismatch),
        ),
{
    reveal_with_fuel(spec_eval_expr, 2);
}

} // verus!
