//! The cell parser: from one raw field of a delimited document to a value.

use crate::text::{
    decimal, i64_literal, i64_to_string, lemma_decimal_len, parse_i64, same_text,
};
use crate::value::{Value, Values};
use vstd::prelude::*;

verus! {

/// One raw field of a delimited document.
///
/// `float_text` is the field read as a floating-point literal and written
/// back in canonical decimal form, where the field is such a literal. This
/// library holds no floating-point arithmetic: whoever hands the field in
/// supplies that reading.
#[derive(Debug)]
pub struct Field {
    pub text: String,
    pub float_text: Option<String>,
}

/// The mathematical content of a [`Field`].
pub struct FieldView {
    pub text: Seq<char>,
    pub float_text: Option<Seq<char>>,
}

/// The characters of a text that may be missing.
pub open spec fn option_text(text: Option<String>) -> Option<Seq<char>> {
    match text {
        Some(t) => Some(t@),
        None => None,
    }
}

impl View for Field {
    type V = FieldView;

    open spec fn view(&self) -> FieldView {
        FieldView { text: self.text@, float_text: option_text(self.float_text) }
    }
}

impl DeepView for Field {
    type V = FieldView;

    open spec fn deep_view(&self) -> FieldView {
        self@
    }
}

/// The value of a raw field. The first reading that applies wins: an integer
/// of 64 bits, a floating-point number, a truth value, nothing, a text.
pub open spec fn parsed_value(field: Seq<char>, float_text: Option<Seq<char>>) -> Value {
    if i64_literal(field) is Some {
        Value::Number(decimal(i64_literal(field).unwrap() as int))
    } else if float_text is Some {
        Value::Number(float_text.unwrap())
    } else if field == "true"@ {
        Value::Boolean(true)
    } else if field == "false"@ {
        Value::Boolean(false)
    } else if field.len() == 0 {
        Value::Nil
    } else {
        Value::String(field)
    }
}

impl FieldView {
    /// The value of the field.
    pub open spec fn value(self) -> Value {
        parsed_value(self.text, self.float_text)
    }

    /// The floating-point reading, where there is one, is not empty.
    pub open spec fn wf(self) -> bool {
        self.float_text matches Some(t) ==> t.len() > 0
    }
}

/// A field whose floating-point reading is not empty gives no number with
/// an empty text.
pub proof fn lemma_parsed_value_wf(field: FieldView)
    requires
        field.wf(),
    ensures
        field.value().wf(),
{
    if i64_literal(field.text) is Some {
        lemma_decimal_len(i64_literal(field.text).unwrap() as int);
    }
}

/// Parses one raw field. `float_text` is the reading of the field as a
/// floating-point literal, as in [`Field`].
pub fn parse_value(field: &str, float_text: Option<String>) -> (v: Values)
    ensures
        v@ == parsed_value(field@, option_text(float_text)),
        (float_text matches Some(t) ==> t@.len() > 0) ==> v@.wf(),
{
    match parse_i64(field) {
        Some(i) => Values::Number(i64_to_string(i)),
        None => match float_text {
            Some(t) => Values::Number(t),
            None => {
                if same_text(field, "true") {
                    Values::Boolean(true)
                } else if same_text(field, "false") {
                    Values::Boolean(false)
                } else if field.is_empty() {
                    Values::Nil
                } else {
                    Values::String(String::from_str(field))
                }
            },
        },
    }
}

impl Field {
    /// A field with no floating-point reading.
    pub fn new(text: String) -> (r: Field)
        ensures
            r@ == (FieldView { text: text@, float_text: None }),
    {
        Field { text, float_text: None }
    }

    /// Parses the field.
    pub fn value(&self) -> (v: Values)
        ensures
            v@ == self@.value(),
            self@.wf() ==> v@.wf(),
    {
        let float_text = match &self.float_text {
            Some(t) => Some(t.clone()),
            None => None,
        };
        parse_value(self.text.as_str(), float_text)
    }
}

} // verus!
