//! Runtime values: the tagged union the evaluator computes with, and the
//! function handles that calls go through.

use vstd::prelude::*;
use vstd::string::StringExecFns;

use crate::num::{spec_num_text, Num};
use crate::stmt::{clone_strings, view_strings, Stmt, StmtView};
use crate::text::push_char;

verus! {

/// A function value: its name, its parameter names in order, and its body.
/// The arity is the parameter count. Functions are immutable once built.
#[derive(Debug, PartialEq)]
pub struct FunctionImpl {
    name: String,
    arguments: Vec<String>,
    body: Box<Stmt>,
}

/// The shape of a function value.
pub struct FunctionView {
    pub name: Seq<char>,
    pub arguments: Seq<Seq<char>>,
    pub body: StmtView,
}

impl View for FunctionImpl {
    type V = FunctionView;

    closed spec fn view(&self) -> FunctionView {
        FunctionView {
            name: self.name@,
            arguments: view_strings(self.arguments@),
            body: self.body@,
        }
    }
}

impl Clone for FunctionImpl {
    /// A deep copy with the same shape.
    fn clone(&self) -> (res: Self)
        ensures
            res@ == self@,
    {
        FunctionImpl {
            name: self.name.clone(),
            arguments: clone_strings(&self.arguments),
            body: Box::new((*self.body).clone()),
        }
    }
}

impl FunctionImpl {
    /// Builds the handle of a function with the given name, parameter names
    /// and body.
    pub fn new(name: String, arguments: Vec<String>, body: Box<Stmt>) -> (r: Self)
        ensures
            r@.name == name@,
            r@.arguments == view_strings(arguments@),
            r@.body == body@,
    {
        FunctionImpl { name, arguments, body }
    }

    /// The name of the parameter at the given position; an error exactly when
    /// the position is past the arity.
    pub fn get_arg_name(&self, arg_number: usize) -> (r: Result<String, String>)
        ensures
            r is Ok <==> arg_number < self@.arguments.len(),
            r matches Ok(s) ==> s@ == self@.arguments[arg_number as int],
    {
        if arg_number >= self.arguments.len() {
            Err(String::from_str("no parameter at the requested position"))
        } else {
            let s = self.arguments[arg_number].clone();
            proof {
                assert(view_strings(self.arguments@)[arg_number as int] == self.arguments@[
                    arg_number as int
                ]@);
            }
            Ok(s)
        }
    }

    /// The arity: how many parameters the function takes.
    pub fn get_arg_count(&self) -> (r: usize)
        ensures
            r == self@.arguments.len(),
    {
        proof {
            assert(view_strings(self.arguments@).len() == self.arguments@.len());
        }
        self.arguments.len()
    }

    /// The function's body.
    pub fn get_body(&self) -> (r: &Box<Stmt>)
        ensures
            r@ == self@.body,
    {
        &self.body
    }

    /// The function's name.
    pub fn get_name(&self) -> (r: &String)
        ensures
            r@ == self@.name,
    {
        &self.name
    }
}

/// A runtime value.
#[derive(Debug, PartialEq)]
pub enum Value {
    Number(Num),
    String(String),
    Boolean(bool),
    Callable(FunctionImpl),
    Nil,
}

/// The shape of a runtime value.
pub enum ValueView {
    Number(int),
    String(Seq<char>),
    Boolean(bool),
    Callable(FunctionView),
    Nil,
}

impl View for Value {
    type V = ValueView;

    open spec fn view(&self) -> ValueView {
        match self {
            Value::Number(n) => ValueView::Number(n@),
            Value::String(s) => ValueView::String(s@),
            Value::Boolean(b) => ValueView::Boolean(*b),
            Value::Callable(f) => ValueView::Callable(f@),
            Value::Nil => ValueView::Nil,
        }
    }
}

impl Clone for Value {
    /// A deep copy with the same shape.
    fn clone(&self) -> (res: Self)
        ensures
            res@ == self@,
    {
        match self {
            Value::Number(n) => Value::Number(*n),
            Value::String(s) => Value::String(s.clone()),
            Value::Boolean(b) => Value::Boolean(*b),
            Value::Callable(f) => Value::Callable(f.clone()),
            Value::Nil => Value::Nil,
        }
    }
}

/// Truthiness: only `nil` and `false` are falsy; every other value is truthy.
pub open spec fn spec_truthy(v: ValueView) -> bool {
    match v {
        ValueView::Nil => false,
        ValueView::Boolean(b) => b,
        _ => true,
    }
}

/// Structural equality of values: values of different kinds are unequal,
/// `nil` equals `nil`, and function values never compare equal.
pub open spec fn spec_value_eq(a: ValueView, b: ValueView) -> bool {
    match (a, b) {
        (ValueView::Number(x), ValueView::Number(y)) => x == y,
        (ValueView::String(x), ValueView::String(y)) => x == y,
        (ValueView::Boolean(x), ValueView::Boolean(y)) => x == y,
        (ValueView::Nil, ValueView::Nil) => true,
        _ => false,
    }
}

/// The printed form of a value: a number's decimal text, a string's own
/// characters, `true`/`false`, `nil`, or a function's tag.
pub open spec fn spec_value_text(v: ValueView) -> Seq<char> {
    match v {
        ValueView::Number(m) => spec_num_text(m),
        ValueView::String(s) => s,
        ValueView::Boolean(b) => if b {
            "true"@
        } else {
            "false"@
        },
        ValueView::Nil => "nil"@,
        ValueView::Callable(f) => "<callable> <fn "@ + f.name + ">"@,
    }
}

impl Value {
    /// Whether this value counts as true in a condition.
    pub fn is_truthy(&self) -> (r: bool)
        ensures
            r == spec_truthy(self@),
    {
        match self {
            Value::Nil => false,
            Value::Boolean(b) => *b,
            _ => true,
        }
    }

    /// Whether this value structurally equals the other.
    pub fn equals(&self, other: &Value) -> (r: bool)
        ensures
            r == spec_value_eq(self@, other@),
    {
        match (self, other) {
            (Value::Number(x), Value::Number(y)) => x.mantissa == y.mantissa,
            (Value::String(x), Value::String(y)) => *x == *y,
            (Value::Boolean(x), Value::Boolean(y)) => *x == *y,
            (Value::Nil, Value::Nil) => true,
            _ => false,
        }
    }

    /// The printed form of this value.
    pub fn to_text(&self) -> (r: String)
        ensures
            r@ == spec_value_text(self@),
    {
        match self {
            Value::Number(n) => n.to_text(),
            Value::String(s) => s.clone(),
            Value::Boolean(b) => if *b {
                String::from_str("true")
            } else {
                String::from_str("false")
            },
            Value::Nil => String::from_str("nil"),
            Value::Callable(f) => {
                let mut out = String::from_str("<callable> <fn ");
                out.append(f.get_name().as_str());
                push_char(&mut out, '>');
                proof {
                    reveal_strlit(">");
                    assert((">"@).len() == 1);
                    assert((">"@)[0] == '>');
                    assert(out@ =~= "<callable> <fn "@ + f@.name + ">"@);
                }
                out
            },
        }
    }
}

} // verus!
