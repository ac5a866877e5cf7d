//! Runtime values of the virtual machine and their mathematical model.

use crate::text::{push_signed_decimal, signed_decimal};
use vstd::prelude::*;

verus! {

/// Mathematical model of a [`RuntimeValue`]: text is a sequence of characters.
pub enum ValueView {
    Integer(i64),
    String(Seq<char>),
    Boolean(bool),
    Function { name: Seq<char>, ip: usize, num_params: usize },
    Null,
}

/// A value on the operand stack, in the constant pool or in the global
/// environment.
#[derive(Debug)]
pub enum RuntimeValue {
    Integer(i64),
    String(String),
    Boolean(bool),
    /// A function descriptor: name, entry offset and parameter count.
    Function { name: String, ip: usize, num_params: usize },
    Null,
}

impl View for RuntimeValue {
    type V = ValueView;

    open spec fn view(&self) -> ValueView {
        match self {
            RuntimeValue::Integer(i) => ValueView::Integer(*i),
            RuntimeValue::String(s) => ValueView::String(s@),
            RuntimeValue::Boolean(b) => ValueView::Boolean(*b),
            RuntimeValue::Function { name, ip, num_params } => ValueView::Function {
                name: name@,
                ip: *ip,
                num_params: *num_params,
            },
            RuntimeValue::Null => ValueView::Null,
        }
    }
}

/// The models of a sequence of values, element by element.
pub open spec fn value_views(values: Seq<RuntimeValue>) -> Seq<ValueView> {
    values.map_values(|v: RuntimeValue| v@)
}

/// Equality of runtime values: integers, strings, booleans and null by
/// value, functions by name; values of different variants are never equal.
pub open spec fn values_equal(a: ValueView, b: ValueView) -> bool {
    match (a, b) {
        (ValueView::Integer(x), ValueView::Integer(y)) => x == y,
        (ValueView::String(x), ValueView::String(y)) => x == y,
        (ValueView::Boolean(x), ValueView::Boolean(y)) => x == y,
        (ValueView::Function { name: x, .. }, ValueView::Function { name: y, .. }) => x == y,
        (ValueView::Null, ValueView::Null) => true,
        _ => false,
    }
}

/// The text that the builtins write for a value.
pub open spec fn display(v: ValueView) -> Seq<char> {
    match v {
        ValueView::Integer(i) => signed_decimal(i as int),
        ValueView::String(s) => s,
        ValueView::Boolean(b) => if b {
            "true"@
        } else {
            "false"@
        },
        ValueView::Function { name, .. } => "<function "@ + name + ">"@,
        ValueView::Null => "null"@,
    }
}

impl RuntimeValue {
    /// The text that the builtins write for the value.
    pub fn to_text(&self) -> (text: String)
        ensures
            text@ == display(self@),
    {
        match self {
            RuntimeValue::Integer(i) => {
                let mut text = String::new();
                push_signed_decimal(&mut text, *i);
                text
            },
            RuntimeValue::String(s) => s.clone(),
            RuntimeValue::Boolean(b) => {
                if *b {
                    String::from_str("true")
                } else {
                    String::from_str("false")
                }
            },
            RuntimeValue::Function { name, .. } => {
                let mut text = String::from_str("<function ");
                text.append(name.as_str());
                text.append(">");
                text
            },
            RuntimeValue::Null => String::from_str("null"),
        }
    }
}

impl Clone for RuntimeValue {
    fn clone(&self) -> (copy: RuntimeValue)
        ensures
            copy == *self,
    {
        match self {
            RuntimeValue::Integer(i) => RuntimeValue::Integer(*i),
            RuntimeValue::String(s) => RuntimeValue::String(s.clone()),
            RuntimeValue::Boolean(b) => RuntimeValue::Boolean(*b),
            RuntimeValue::Function { name, ip, num_params } => RuntimeValue::Function {
                name: name.clone(),
                ip: *ip,
                num_params: *num_params,
            },
            RuntimeValue::Null => RuntimeValue::Null,
        }
    }
}

impl PartialEq for RuntimeValue {
    fn eq(&self, other: &Self) -> (equal: bool) {
        match (self, other) {
            (RuntimeValue::Integer(a), RuntimeValue::Integer(b)) => *a == *b,
            (RuntimeValue::String(a), RuntimeValue::String(b)) => *a == *b,
            (RuntimeValue::Boolean(a), RuntimeValue::Boolean(b)) => *a == *b,
            (RuntimeValue::Function { name: a, .. }, RuntimeValue::Function { name: b, .. }) => *a
                == *b,
            (RuntimeValue::Null, RuntimeValue::Null) => true,
            _ => false,
        }
    }
}

impl vstd::std_specs::cmp::PartialEqSpecImpl for RuntimeValue {
    open spec fn obeys_eq_spec() -> bool {
        true
    }

    open spec fn eq_spec(&self, other: &RuntimeValue) -> bool {
        values_equal(self@, other@)
    }
}

} // verus!
