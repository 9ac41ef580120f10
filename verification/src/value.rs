//! Value normalizer: converts a typed cell value into its canonical display
//! string, so that numeric, textual, boolean and temporal cells can all be
//! compared against a text pattern uniformly.
//!
//! Numeric serials read as floating point (plain floats and date-time
//! serials) are carried here as their canonical decimal rendering, produced
//! where the value is read: floating-point arithmetic stays outside the
//! verified core, and the rendering is used unchanged.

use vstd::prelude::*;

use crate::codec::spec_decimal_digits;
use crate::text::chars_to_string;

verus! {

/// The error tag of a cell holding a spreadsheet error value.
#[derive(Clone, Copy, PartialEq, Eq, Structural)]
pub enum CellError {
    Div0,
    NA,
    Name,
    Null,
    Num,
    Ref,
    Value,
    GettingData,
}

/// A typed cell value.
pub enum CellValue {
    /// An empty cell.
    Empty,
    /// A plain text cell.
    Text(String),
    /// A signed integer cell.
    Int(i64),
    /// A floating-point cell, carried as its canonical decimal rendering
    /// (no trailing `.0` for integral values).
    Float(String),
    /// A boolean cell.
    Bool(bool),
    /// A date/time serial-number cell, carried as its default rendering.
    DateTime(String),
    /// A date, time or date/time in ISO 8601 text form.
    DateTimeIso(String),
    /// A duration in ISO 8601 text form.
    DurationIso(String),
    /// An error cell.
    Error(CellError),
}

/// The debug-style tag text of an error value.
pub open spec fn spec_error_tag(e: CellError) -> Seq<char> {
    match e {
        CellError::Div0 => "Div0"@,
        CellError::NA => "NA"@,
        CellError::Name => "Name"@,
        CellError::Null => "Null"@,
        CellError::Num => "Num"@,
        CellError::Ref => "Ref"@,
        CellError::Value => "Value"@,
        CellError::GettingData => "GettingData"@,
    }
}

/// Decimal rendering of a signed integer: a minus sign for negative values,
/// then the decimal digits of the magnitude.
pub open spec fn spec_int_string(i: int) -> Seq<char> {
    if i < 0 {
        seq!['-'] + spec_decimal_digits(-i)
    } else {
        spec_decimal_digits(i)
    }
}

/// The canonical display string of a cell value.
pub open spec fn spec_normalize(v: CellValue) -> Seq<char> {
    match v {
        CellValue::Empty => Seq::empty(),
        CellValue::Text(s) => s@,
        CellValue::Int(i) => spec_int_string(i as int),
        CellValue::Float(s) => s@,
        CellValue::Bool(b) => if b {
            "true"@
        } else {
            "false"@
        },
        CellValue::DateTime(s) => s@,
        CellValue::DateTimeIso(s) => s@,
        CellValue::DurationIso(s) => s@,
        CellValue::Error(e) => spec_error_tag(e),
    }
}

/// Decimal rendering of a signed integer, as characters.
fn int_chars(i: i64) -> (r: Vec<char>)
    ensures
        r@ == spec_int_string(i as int),
{
    if i >= 0 {
        crate::codec::decimal_chars(i as u64)
    } else {
        let wide: i128 = i as i128;
        let mag: u64 = (-wide) as u64;
        let mut v = crate::codec::decimal_chars(mag);
        v.insert(0, '-');
        proof {
            assert(v@ =~= seq!['-'] + spec_decimal_digits(mag as int));
        }
        v
    }
}

/// Normalize a cell value to its canonical display string. The result is a
/// pure function of the value: the same value always yields the same string.
pub fn normalize(v: &CellValue) -> (r: String)
    ensures
        r@ == spec_normalize(*v),
{
    match v {
        CellValue::Empty => String::new(),
        CellValue::Text(s) => s.clone(),
        CellValue::Int(i) => {
            let cs = int_chars(*i);
            chars_to_string(&cs)
        },
        CellValue::Float(s) => s.clone(),
        CellValue::Bool(b) => {
            if *b {
                "true".to_owned()
            } else {
                "false".to_owned()
            }
        },
        CellValue::DateTime(s) => s.clone(),
        CellValue::DateTimeIso(s) => s.clone(),
        CellValue::DurationIso(s) => s.clone(),
        CellValue::Error(e) => {
            match e {
                CellError::Div0 => "Div0".to_owned(),
                CellError::NA => "NA".to_owned(),
                CellError::Name => "Name".to_owned(),
                CellError::Null => "Null".to_owned(),
                CellError::Num => "Num".to_owned(),
                CellError::Ref => "Ref".to_owned(),
                CellError::Value => "Value".to_owned(),
                CellError::GettingData => "GettingData".to_owned(),
            }
        },
    }
}

} // verus!
