//! Values on the virtual machine's stack, and the arithmetic the machine
//! performs on them.

use vstd::prelude::*;
use vstd::string::StringExecFns;

use crate::num::{div_mantissa, fits_mantissa, mul_mantissa, Num};
use crate::vm::error::{RuntimeError, RuntimeErrorView};

verus! {

/// A value in the virtual machine.
#[derive(Debug, Clone, Copy, PartialEq)]
pub enum Value {
    Number(Num),
    Boolean(bool),
    Nil,
}

/// The shape of a machine value.
pub enum ValueView {
    Number(int),
    Boolean(bool),
    Nil,
}

impl View for Value {
    type V = ValueView;

    open spec fn view(&self) -> ValueView {
        match self {
            Value::Number(n) => ValueView::Number(n@),
            Value::Boolean(b) => ValueView::Boolean(*b),
            Value::Nil => ValueView::Nil,
        }
    }
}

/// The result of negating a machine value: numbers only.
pub open spec fn spec_vm_neg(v: ValueView) -> Result<ValueView, RuntimeErrorView> {
    match v {
        ValueView::Number(x) => if fits_mantissa(-x) {
            Ok(ValueView::Number(-x))
        } else {
            Err(RuntimeErrorView::RuntimeError("Arithmetic left the representable number range"@))
        },
        _ => Err(RuntimeErrorView::RuntimeError("Attempted to negate a non-number value"@)),
    }
}

/// The result of adding two machine values: numbers only.
pub open spec fn spec_vm_add(a: ValueView, b: ValueView) -> Result<ValueView, RuntimeErrorView> {
    match (a, b) {
        (ValueView::Number(x), ValueView::Number(y)) => if fits_mantissa(x + y) {
            Ok(ValueView::Number(x + y))
        } else {
            Err(RuntimeErrorView::RuntimeError("Arithmetic left the representable number range"@))
        },
        _ => Err(RuntimeErrorView::RuntimeError("Attempted to add non-number values"@)),
    }
}

/// The result of subtracting two machine values: numbers only.
pub open spec fn spec_vm_sub(a: ValueView, b: ValueView) -> Result<ValueView, RuntimeErrorView> {
    match (a, b) {
        (ValueView::Number(x), ValueView::Number(y)) => if fits_mantissa(x - y) {
            Ok(ValueView::Number(x - y))
        } else {
            Err(RuntimeErrorView::RuntimeError("Arithmetic left the representable number range"@))
        },
        _ => Err(RuntimeErrorView::RuntimeError("Attempted to subtract non-number values"@)),
    }
}

/// The result of multiplying two machine values: numbers only.
pub open spec fn spec_vm_mul(a: ValueView, b: ValueView) -> Result<ValueView, RuntimeErrorView> {
    match (a, b) {
        (ValueView::Number(x), ValueView::Number(y)) => if fits_mantissa(mul_mantissa(x, y)) {
            Ok(ValueView::Number(mul_mantissa(x, y)))
        } else {
            Err(RuntimeErrorView::RuntimeError("Arithmetic left the representable number range"@))
        },
        _ => Err(RuntimeErrorView::RuntimeError("Attempted to multiply non-number values"@)),
    }
}

/// The result of dividing two machine values: numbers only, never by zero.
pub open spec fn spec_vm_div(a: ValueView, b: ValueView) -> Result<ValueView, RuntimeErrorView> {
    match (a, b) {
        (ValueView::Number(x), ValueView::Number(y)) => if y == 0 {
            Err(RuntimeErrorView::RuntimeError("Division by zero"@))
        } else if fits_mantissa(div_mantissa(x, y)) {
            Ok(ValueView::Number(div_mantissa(x, y)))
        } else {
            Err(RuntimeErrorView::RuntimeError("Arithmetic left the representable number range"@))
        },
        _ => Err(RuntimeErrorView::RuntimeError("Attempted to divide non-number values"@)),
    }
}

impl Value {
    /// Negates a number.
    pub fn neg(self) -> (r: Result<Value, RuntimeError>)
        ensures
            (match r {
                Ok(v) => Ok(v@),
                Err(e) => Err::<ValueView, RuntimeErrorView>(e@),
            }) == spec_vm_neg(self@),
    {
        match self {
            Value::Number(n) => match n.checked_neg() {
                Some(m) => Ok(Value::Number(m)),
                None => Err(
                    RuntimeError::RuntimeError(
                        String::from_str("Arithmetic left the representable number range"),
                    ),
                ),
            },
            _ => Err(
                RuntimeError::RuntimeError(
                    String::from_str("Attempted to negate a non-number value"),
                ),
            ),
        }
    }

    /// Adds two numbers.
    pub fn add(self, rhs: Value) -> (r: Result<Value, RuntimeError>)
        ensures
            (match r {
                Ok(v) => Ok(v@),
                Err(e) => Err::<ValueView, RuntimeErrorView>(e@),
            }) == spec_vm_add(self@, rhs@),
    {
        match (self, rhs) {
            (Value::Number(a), Value::Number(b)) => match a.checked_add(b) {
                Some(m) => Ok(Value::Number(m)),
                None => Err(
                    RuntimeError::RuntimeError(
                        String::from_str("Arithmetic left the representable number range"),
                    ),
                ),
            },
            _ => Err(
                RuntimeError::RuntimeError(String::from_str("Attempted to add non-number values")),
            ),
        }
    }

    /// Subtracts two numbers.
    pub fn sub(self, rhs: Value) -> (r: Result<Value, RuntimeError>)
        ensures
            (match r {
                Ok(v) => Ok(v@),
                Err(e) => Err::<ValueView, RuntimeErrorView>(e@),
            }) == spec_vm_sub(self@, rhs@),
    {
        match (self, rhs) {
            (Value::Number(a), Value::Number(b)) => match a.checked_sub(b) {
                Some(m) => Ok(Value::Number(m)),
                None => Err(
                    RuntimeError::RuntimeError(
                        String::from_str("Arithmetic left the representable number range"),
                    ),
                ),
            },
            _ => Err(
                RuntimeError::RuntimeError(
                    String::from_str("Attempted to subtract non-number values"),
                ),
            ),
        }
    }

    /// Multiplies two numbers.
    pub fn mul(self, rhs: Value) -> (r: Result<Value, RuntimeError>)
        ensures
            (match r {
                Ok(v) => Ok(v@),
                Err(e) => Err::<ValueView, RuntimeErrorView>(e@),
            }) == spec_vm_mul(self@, rhs@),
    {
        match (self, rhs) {
            (Value::Number(a), Value::Number(b)) => match a.checked_mul(b) {
                Some(m) => Ok(Value::Number(m)),
                None => Err(
                    RuntimeError::RuntimeError(
                        String::from_str("Arithmetic left the representable number range"),
                    ),
                ),
            },
            _ => Err(
                RuntimeError::RuntimeError(
                    String::from_str("Attempted to multiply non-number values"),
                ),
            ),
        }
    }

    /// Divides two numbers; the right operand must not be zero.
    pub fn div(self, rhs: Value) -> (r: Result<Value, RuntimeError>)
        ensures
            (match r {
                Ok(v) => Ok(v@),
                Err(e) => Err::<ValueView, RuntimeErrorView>(e@),
            }) == spec_vm_div(self@, rhs@),
    {
        match (self, rhs) {
            (Value::Number(a), Value::Number(b)) => {
                if b.is_zero() {
                    Err(RuntimeError::RuntimeError(String::from_str("Division by zero")))
                } else {
                    match a.checked_div(b) {
                        Some(m) => Ok(Value::Number(m)),
                        None => Err(
                            RuntimeError::RuntimeError(
                                String::from_str("Arithmetic left the representable number range"),
                            ),
                        ),
                    }
                }
            },
            _ => Err(
                RuntimeError::RuntimeError(
                    String::from_str("Attempted to divide non-number values"),
                ),
            ),
        }
    }
}

} // verus!
