//! The value of one cell and its mathematical model.

use vstd::prelude::*;
use vstd::std_specs::cmp::PartialEqSpecImpl;

verus! {

/// The mathematical content of one cell: nothing, a text, the canonical
/// decimal text of a number, or a truth value.
pub enum Value {
    Nil,
    String(Seq<char>),
    Number(Seq<char>),
    Boolean(bool),
}

/// One cell as it is held in memory. A number is kept as its canonical
/// decimal text, so that it is compared and emitted without reformatting.
#[derive(Debug, Eq, Hash)]
pub enum Values {
    Nil,
    String(String),
    Number(String),
    Boolean(bool),
}

impl View for Values {
    type V = Value;

    open spec fn view(&self) -> Value {
        match self {
            Values::Nil => Value::Nil,
            Values::String(s) => Value::String(s@),
            Values::Number(n) => Value::Number(n@),
            Values::Boolean(b) => Value::Boolean(*b),
        }
    }
}

impl DeepView for Values {
    type V = Value;

    open spec fn deep_view(&self) -> Value {
        self@
    }
}

/// The text of a truth value: `true` or `false`.
pub open spec fn bool_text(b: bool) -> Seq<char> {
    if b {
        "true"@
    } else {
        "false"@
    }
}

impl Value {
    /// A number never has an empty text.
    pub open spec fn wf(self) -> bool {
        self matches Value::Number(n) ==> n.len() > 0
    }

    /// The bare text of the value, as it names a generated constant.
    pub open spec fn text(self) -> Seq<char> {
        match self {
            Value::Nil => "Nil"@,
            Value::String(s) => s,
            Value::Number(n) => n,
            Value::Boolean(b) => bool_text(b),
        }
    }
}

/// Renders a truth value as `true` or `false`.
pub fn bool_to_string(b: bool) -> (r: String)
    ensures
        r@ == bool_text(b),
{
    if b {
        String::from_str("true")
    } else {
        String::from_str("false")
    }
}

impl Clone for Values {
    fn clone(&self) -> (r: Values)
        ensures
            r@ == self@,
    {
        match self {
            Values::Nil => Values::Nil,
            Values::String(s) => Values::String(s.clone()),
            Values::Number(n) => Values::Number(n.clone()),
            Values::Boolean(b) => Values::Boolean(*b),
        }
    }
}

impl PartialEq for Values {
    fn eq(&self, other: &Values) -> (r: bool) {
        match self {
            Values::Nil => match other {
                Values::Nil => true,
                _ => false,
            },
            Values::String(a) => match other {
                Values::String(b) => *a == *b,
                _ => false,
            },
            Values::Number(a) => match other {
                Values::Number(b) => *a == *b,
                _ => false,
            },
            Values::Boolean(a) => match other {
                Values::Boolean(b) => *a == *b,
                _ => false,
            },
        }
    }
}

impl PartialEqSpecImpl for Values {
    open spec fn obeys_eq_spec() -> bool {
        true
    }

    open spec fn eq_spec(&self, other: &Values) -> bool {
        self@ == other@
    }
}

impl Values {
    /// The bare text of the value: a text or a number as it stands, a truth
    /// value as `true` or `false`, and `Nil` for an absent value.
    pub fn text(&self) -> (r: String)
        ensures
            r@ == self@.text(),
    {
        match self {
            Values::Nil => String::from_str("Nil"),
            Values::String(s) => s.clone(),
            Values::Number(n) => n.clone(),
            Values::Boolean(b) => bool_to_string(*b),
        }
    }
}

} // verus!
