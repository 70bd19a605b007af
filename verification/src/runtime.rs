//! The verified decisions of runtime initialization: the order in which
//! bridges are registered, and what the print bridge does with its
//! arguments.
//!
//! The host shell builds the embedded runtime with the configured timeout
//! and performs one registration per name this module plans, in order; a
//! failure of any single registration aborts the whole initialization, so
//! partial registration is never observable.

use vstd::prelude::*;

use crate::value::ScriptValue;
use crate::{spec_message, JsWorkerOptions, JsWorkerResult};

verus! {

/// What one bridged invocation hands back to the script: the executor's
/// value on success, and on failure the stringified failure, which the
/// bridge surfaces to the script as a thrown error's message.
pub fn bridge_outcome(result: JsWorkerResult<ScriptValue>) -> (r: Result<ScriptValue, String>)
    ensures
        match result {
            Ok(v) => r == Result::<ScriptValue, String>::Ok(v),
            Err(e) => r matches Err(m) && m@ == spec_message(e),
        },
{
    match result {
        Ok(v) => Ok(v),
        Err(e) => Err(e.message()),
    }
}

/// The bridge names the initializer registers, in order: every declared
/// function under its own name, then the print bridge.
pub fn registration_names(options: &JsWorkerOptions) -> (names: Vec<String>)
    ensures
        names@.len() == options.functions@.len() + 1,
        forall|i: int| 0 <= i < options.functions@.len() ==> names@[i]@ == options.functions@[i].name@,
        names@[options.functions@.len() as int]@ == "print"@,
{
    let mut names: Vec<String> = Vec::new();
    let n = options.functions.len();
    let mut i: usize = 0;
    while i < n
        invariant
            n == options.functions@.len(),
            i <= n,
            names@.len() == i,
            forall|k: int| 0 <= k < i ==> names@[k]@ == options.functions@[k].name@,
        decreases n - i,
    {
        names.push(options.functions[i].name.clone());
        i = i + 1;
    }
    names.push(String::from_str("print"));
    names
}

/// What the print bridge does with one invocation: the first argument (or
/// the absent value when the script passed none) is delivered on the sink
/// exactly once if a sink is configured and not at all otherwise, and the
/// script always receives the absent value back.
pub fn plan_print(args: Vec<ScriptValue>, sink_configured: bool) -> (r: (
    Option<ScriptValue>,
    ScriptValue,
))
    ensures
        r.1 == ScriptValue::Null,
        !sink_configured ==> r.0 is None,
        sink_configured && args@.len() > 0 ==> r.0 == Some(args@[0]),
        sink_configured && args@.len() == 0 ==> r.0 == Some(ScriptValue::Null),
{
    let mut args = args;
    let delivered = if sink_configured {
        if args.len() > 0 {
            Some(args.remove(0))
        } else {
            Some(ScriptValue::Null)
        }
    } else {
        None
    };
    (delivered, ScriptValue::Null)
}

} // verus!
