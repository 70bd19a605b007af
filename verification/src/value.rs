//! The structured value type crossing the host/script boundary.

use vstd::prelude::*;

use crate::JsWorkerError;

verus! {

/// A schema-less structured value exchanged between the host and the script.
///
/// Every bridge signature operates on this type: arguments arrive as a
/// sequence of values, results come back as one value. The mapping variant
/// keeps its entries in insertion order.
#[derive(Debug, PartialEq)]
pub enum ScriptValue {
    /// The absent result.
    Null,
    /// A boolean.
    Bool(bool),
    /// An integer number.
    Int(i64),
    /// A text value.
    Str(String),
    /// An ordered sequence of values.
    Array(Vec<ScriptValue>),
    /// An ordered mapping from keys to values.
    Object(Vec<ObjectEntry>),
}

/// One key/value entry of an object value.
#[derive(Debug, PartialEq)]
pub struct ObjectEntry {
    /// The entry's key.
    pub key: String,
    /// The entry's value.
    pub value: ScriptValue,
}

impl ScriptValue {
    /// Decodes the value as an integer; any other shape is a
    /// serialization failure.
    pub fn into_int(self) -> (r: Result<i64, JsWorkerError>)
        ensures
            match self {
                ScriptValue::Int(i) => r == Result::<i64, JsWorkerError>::Ok(i),
                _ => r matches Err(JsWorkerError::SerdeError(m)) && m@ == "expected an integer"@,
            },
    {
        match self {
            ScriptValue::Int(i) => Ok(i),
            _ => Err(JsWorkerError::SerdeError(String::from_str("expected an integer"))),
        }
    }

    /// Decodes the value as a boolean; any other shape is a
    /// serialization failure.
    pub fn into_bool(self) -> (r: Result<bool, JsWorkerError>)
        ensures
            match self {
                ScriptValue::Bool(b) => r == Result::<bool, JsWorkerError>::Ok(b),
                _ => r matches Err(JsWorkerError::SerdeError(m)) && m@ == "expected a boolean"@,
            },
    {
        match self {
            ScriptValue::Bool(b) => Ok(b),
            _ => Err(JsWorkerError::SerdeError(String::from_str("expected a boolean"))),
        }
    }

    /// Decodes the value as text; any other shape is a serialization
    /// failure.
    pub fn into_text(self) -> (r: Result<String, JsWorkerError>)
        ensures
            match self {
                ScriptValue::Str(s) => r == Result::<String, JsWorkerError>::Ok(s),
                _ => r matches Err(JsWorkerError::SerdeError(m)) && m@ == "expected text"@,
            },
    {
        match self {
            ScriptValue::Str(s) => Ok(s),
            _ => Err(JsWorkerError::SerdeError(String::from_str("expected text"))),
        }
    }
}

impl Default for ScriptValue {
    /// The default value is the absent result.
    fn default() -> (r: Self)
        ensures
            r == ScriptValue::Null,
    {
        ScriptValue::Null
    }
}

} // verus!
