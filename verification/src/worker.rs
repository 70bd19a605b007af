//! The worker: message protocol, query handling, and snippet execution logic.
//!
//! The embedded runtime is owned exclusively by one dedicated host thread;
//! this module holds everything that thread (and the callers blocked on it)
//! decides, as verified functions from plain values to plain values. The
//! host shell performs the evaluation step itself and feeds the outcome
//! back through [`response_of`].

use vstd::prelude::*;

use crate::normalize::{spec_normalize, ensure_return_last_expression};
use crate::codegen::{spec_preamble, append_preamble, wrap_async_text};
use crate::value::ScriptValue;
use crate::{FunctionDefinition, JsWorkerError, JsWorkerOptions, JsWorkerResult};

verus! {

/// Why one evaluation of a module failed.
#[derive(Debug, PartialEq)]
pub enum EvalFailure {
    /// The script threw, failed to parse or transpile, or a module failed to load.
    Script(String),
    /// The evaluation exceeded the configured timeout.
    Timeout,
}

/// The messages exchanged with the worker thread.
///
/// Only `Execute` travels host to worker; only `Value` or `Error` travel
/// worker to host. Each message is consumed exactly once by its receiver.
#[derive(Debug, PartialEq)]
pub enum JsWorkerMessage {
    /// Evaluate this snippet and reply with its result.
    Execute(String),
    /// The snippet's result.
    Value(ScriptValue),
    /// The snippet failed.
    Error(EvalFailure),
}

/// What the worker thread must do with one received query.
#[derive(Debug, PartialEq)]
pub enum QueryPlan {
    /// Evaluate this module source against the runtime, then reply
    /// with [`response_of`] applied to the outcome.
    Evaluate(String),
    /// Reply with this message without touching the runtime.
    Reply(JsWorkerMessage),
}

/// The module source a snippet is evaluated as: the normalized body wrapped
/// in a synthetic module whose default export is a zero-argument entry function.
pub open spec fn spec_module_source(code: Seq<char>) -> Seq<char> {
    "\nexport default function main() {\n    "@ + spec_normalize(code) + "\n}\n"@
}

/// Wraps an already-normalized body in the synthetic entry-function module.
pub fn wrap_module(processed: &str) -> (r: String)
    ensures
        r@ == "\nexport default function main() {\n    "@ + processed@ + "\n}\n"@,
{
    let mut out = String::from_str("\nexport default function main() {\n    ");
    out.append(processed);
    out.append("\n}\n");
    out
}

/// Decides, without touching the runtime, what one received query asks of
/// the worker thread: an `Execute` query becomes an evaluation of the
/// normalized, module-wrapped snippet; any other message is echoed back.
pub fn plan_query(query: JsWorkerMessage) -> (p: QueryPlan)
    ensures
        match query {
            JsWorkerMessage::Execute(code) => p matches QueryPlan::Evaluate(m) && m@
                == spec_module_source(code@),
            _ => p == QueryPlan::Reply(query),
        },
{
    match query {
        JsWorkerMessage::Execute(code) => {
            let processed = ensure_return_last_expression(code.as_str());
            QueryPlan::Evaluate(wrap_module(processed.as_str()))
        },
        other => QueryPlan::Reply(other),
    }
}

/// Turns the outcome of one evaluation into the response message sent back
/// to the blocked caller.
pub fn response_of(outcome: Result<ScriptValue, EvalFailure>) -> (m: JsWorkerMessage)
    ensures
        match outcome {
            Ok(v) => m == JsWorkerMessage::Value(v),
            Err(f) => m == JsWorkerMessage::Error(f),
        },
{
    match outcome {
        Ok(v) => JsWorkerMessage::Value(v),
        Err(f) => JsWorkerMessage::Error(f),
    }
}

/// Maps the worker's response message to the caller's result: a value
/// succeeds, a script failure surfaces as `JsError`, a timeout as `Timeout`,
/// and a message no worker may send as `Other`.
pub fn classify_response(response: JsWorkerMessage) -> (r: JsWorkerResult<ScriptValue>)
    ensures
        match response {
            JsWorkerMessage::Value(v) => r == JsWorkerResult::<ScriptValue>::Ok(v),
            JsWorkerMessage::Error(EvalFailure::Script(msg)) => r
                == JsWorkerResult::<ScriptValue>::Err(JsWorkerError::JsError(msg)),
            JsWorkerMessage::Error(EvalFailure::Timeout) => r == JsWorkerResult::<
                ScriptValue,
            >::Err(JsWorkerError::Timeout),
            JsWorkerMessage::Execute(_) => r matches Err(JsWorkerError::Other(msg)) && msg@
                == "Unexpected response"@,
        },
{
    match response {
        JsWorkerMessage::Value(v) => Ok(v),
        JsWorkerMessage::Error(EvalFailure::Script(msg)) => Err(JsWorkerError::JsError(msg)),
        JsWorkerMessage::Error(EvalFailure::Timeout) => Err(JsWorkerError::Timeout),
        JsWorkerMessage::Execute(_) => Err(
            JsWorkerError::Other(String::from_str("Unexpected response")),
        ),
    }
}

/// No two definitions in the sequence share a name.
pub open spec fn unique_names(fns: Seq<FunctionDefinition>) -> bool {
    forall|i: int, j: int| 0 <= i < j < fns.len() ==> fns[i].name@ != fns[j].name@
}

/// The facade object of one worker.
///
/// It holds the options both for code generation (the namespace preamble)
/// and for the host shell that builds the embedded runtime from them. The
/// runtime, its thread and its channel live with that shell; everything the
/// worker decides about source text and messages is here.
pub struct JsWorker {
    options: JsWorkerOptions,
}

impl JsWorker {
    /// The options this worker was constructed from.
    pub closed spec fn spec_options(&self) -> JsWorkerOptions {
        self.options
    }

    /// Creates a worker from options, rejecting duplicate function names
    /// eagerly: two bridges under one name would silently shadow each other
    /// in the script namespace, so construction fails instead.
    pub fn new(options: JsWorkerOptions) -> (r: JsWorkerResult<Self>)
        ensures
            unique_names(options.functions@) <==> r is Ok,
            r matches Ok(w) ==> w.spec_options() == options,
            r matches Err(e) ==> e matches JsWorkerError::Other(msg) && msg@
                == "duplicate function name"@,
    {
        if has_duplicate_name(&options.functions) {
            Err(JsWorkerError::Other(String::from_str("duplicate function name")))
        } else {
            Ok(JsWorker { options })
        }
    }

    /// Read access to the options.
    pub fn options(&self) -> (r: &JsWorkerOptions)
        ensures
            *r == self.spec_options(),
    {
        &self.options
    }

    /// Prefixes the snippet with one namespace binding per registered
    /// function, so the script can call each host function by its bare name.
    pub fn append_functions(&self, code: &str) -> (r: String)
        ensures
            r@ == spec_preamble(self.spec_options().functions@) + code@,
    {
        let mut out = append_preamble(&self.options.functions);
        out.append(code);
        out
    }

    /// Wraps a snippet in an immediately-invoked async block that logs and
    /// rethrows any error raised while it runs.
    pub fn wrap_async_block(&self, code: &str) -> (r: String)
        ensures
            r@ == "\n(async () => {\n    try {\n        "@ + code@
                + "\n    } catch (error) {\n        console.log('Error in code execution:', error);\n        throw error;\n    }\n})()\n"@,
    {
        wrap_async_text(code)
    }

    /// Normalizes a free-form snippet so that a trailing expression
    /// statement becomes the entry function's return value.
    pub fn ensure_return_last_expression(code: &str) -> (r: String)
        ensures
            r@ == spec_normalize(code@),
    {
        ensure_return_last_expression(code)
    }
}

/// Reports whether two definitions share a name, by pairwise comparison.
fn has_duplicate_name(fns: &Vec<FunctionDefinition>) -> (r: bool)
    ensures
        r == !unique_names(fns@),
{
    let n = fns.len();
    let mut i: usize = 0;
    while i < n
        invariant
            n == fns@.len(),
            i <= n,
            forall|a: int, b: int| 0 <= a < b < fns@.len() && a < i ==> fns@[a].name@
                != fns@[b].name@,
        decreases n - i,
    {
        let mut j: usize = i + 1;
        while j < n
            invariant
                n == fns@.len(),
                i < n,
                i < j <= n,
                forall|b: int| i < b < j ==> fns@[i as int].name@ != fns@[b].name@,
            decreases n - j,
        {
            if fns[i].name.eq(&fns[j].name) {
                return true;
            }
            j = j + 1;
        }
        i = i + 1;
    }
    false
}

} // verus!
