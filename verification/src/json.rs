//! The cell values that come back from a query, as the library reads them.

use vstd::prelude::*;
use crate::text::{dec_int, push_dec_i64};

verus! {

/// One JSON value of a result row. Numbers that fit an `i64` are kept as
/// such; every other number, and every array or object, is carried as its
/// JSON text, which is all the library ever does with them.
#[derive(Debug, Clone)]
pub enum JsonValue {
    Null,
    Bool(bool),
    /// a number within the range of `i64`
    Int(i64),
    /// any other number: a fraction, an exponent, or an integer above
    /// `i64::MAX`, as its JSON text
    Number(String),
    Str(String),
    /// an array or an object, as its compact JSON text
    Composite(String),
}

/// The text a cell is exported as: nothing for null, a string as itself,
/// anything else as its JSON text.
pub open spec fn cell_text_spec(v: JsonValue) -> Seq<char> {
    match v {
        JsonValue::Null => seq![],
        JsonValue::Bool(b) => if b {
            "true"@
        } else {
            "false"@
        },
        JsonValue::Int(i) => dec_int(i as int),
        JsonValue::Number(t) => t@,
        JsonValue::Str(s) => s@,
        JsonValue::Composite(t) => t@,
    }
}

/// The text of a cell for a CSV export.
pub fn cell_text(v: &JsonValue) -> (r: String)
    ensures
        r@ == cell_text_spec(*v),
{
    match v {
        JsonValue::Null => String::new(),
        JsonValue::Bool(b) => if *b {
            String::from_str("true")
        } else {
            String::from_str("false")
        },
        JsonValue::Int(i) => {
            let mut s = String::new();
            push_dec_i64(&mut s, *i);
            s
        },
        JsonValue::Number(t) => t.clone(),
        JsonValue::Str(s) => s.clone(),
        JsonValue::Composite(t) => t.clone(),
    }
}

} // verus!
