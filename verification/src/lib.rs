//! A worker model for embedding a scripting runtime in a host process.
//!
//! The library owns the logic of the worker: normalizing free-form script
//! snippets into a uniform module shape, generating the namespace preamble
//! that exposes host functions to the script, the request/response protocol
//! of the worker channel, and the mapping of every outcome into a small
//! error taxonomy. The embedded engine itself is an external collaborator
//! that a host shell drives with the plans this library produces.

use vstd::prelude::*;

mod channel;
mod codegen;
mod normalize;
mod runtime;
mod value;
mod worker;

pub use channel::{
    finish_between, flight_delta, in_flight, lemma_single_flight_sequential,
    sequential_evaluations, single_flight, ChannelEvent, WorkerChannel, WorkerState,
};
pub use codegen::{spec_bridge_line, spec_preamble};
pub use normalize::{
    ensure_return_last_expression, first_nl, has_nl, is_ws, last_line,
    lemma_guarded_last_line_copied, lemma_normalize_idempotent,
    lemma_trailing_expression_returned, lemma_unterminated_last_line_copied, no_doubled_cr,
    spec_body, spec_init_lines, spec_keyword_guarded, spec_last_line, spec_normalize,
    spec_rewrites, spec_trim, starts_with, strip_cr, trim_end, trim_start,
};
pub use runtime::{bridge_outcome, plan_print, registration_names};
pub use value::{ObjectEntry, ScriptValue};
pub use worker::{
    classify_response, plan_query, response_of, spec_module_source, unique_names, EvalFailure,
    JsWorker, JsWorkerMessage, QueryPlan,
};

verus! {

/// Result alias used throughout the worker API.
pub type JsWorkerResult<T> = Result<T, JsWorkerError>;

/// Declarative description of one host-exposed callable.
#[derive(Debug)]
pub struct FunctionDefinition {
    /// Name the script uses to invoke the callable; unique within one worker.
    pub name: String,
    /// Optional human-readable description; static metadata only.
    pub description: Option<String>,
    /// Parameter schema, an opaque structured document.
    pub parameters: ScriptValue,
    /// Whether the bridge suspends script execution instead of blocking.
    pub is_async: bool,
}

/// Construction-time options of one worker: the timeout the embedded
/// runtime applies to every evaluation, the callables to expose, and the
/// capability that runs them. Shared between the worker-thread-owned
/// runtime and the facade that stays on the caller's side.
pub struct JsWorkerOptions {
    /// Timeout applied by the embedded runtime to every evaluation, in milliseconds.
    pub timeout_ms: u64,
    /// Host callables to expose, in registration order.
    pub functions: Vec<FunctionDefinition>,
    /// The capability that runs a named callable.
    pub executor: std::sync::Arc<dyn JsExecutor>,
}

/// The host-implemented capability behind every bridged function name.
///
/// The library never implements it: the host supplies one implementation
/// and shares it between the runtime initializer and the worker thread. A
/// failure surfaces to the script as a thrown error carrying the message,
/// and to the host as `JsWorkerError::JsError`. The asynchronous variant of
/// the capability belongs to the host shell, which owns the asynchronous
/// machinery the library cannot.
pub trait JsExecutor: Send + Sync {
    /// Runs the named callable synchronously with the given arguments.
    fn execute_sync(&self, name: &str, args: Vec<ScriptValue>) -> JsWorkerResult<ScriptValue>;
}

/// The error taxonomy every failure funnels into.
#[derive(Debug, Clone, PartialEq, Eq)]
pub enum JsWorkerError {
    /// The script threw, failed to parse, or a bridged function reported failure.
    JsError(String),
    /// The result could not be decoded into the caller's requested shape.
    SerdeError(String),
    /// Evaluation exceeded the configured duration.
    Timeout,
    /// Channel or worker-lifecycle failure.
    Other(String),
}

/// The stringified form of a failure: the kind's name, and its detail
/// where it carries one.
pub open spec fn spec_message(e: JsWorkerError) -> Seq<char> {
    match e {
        JsWorkerError::JsError(m) => "JsError: "@ + m@,
        JsWorkerError::SerdeError(m) => "SerdeError: "@ + m@,
        JsWorkerError::Timeout => "Timeout"@,
        JsWorkerError::Other(m) => "Other: "@ + m@,
    }
}

impl JsWorkerError {
    /// The stringified form of the failure, as a thrown script error or a
    /// diagnostic line carries it.
    pub fn message(&self) -> (r: String)
        ensures
            r@ == spec_message(*self),
    {
        match self {
            JsWorkerError::JsError(m) => {
                let mut out = String::from_str("JsError: ");
                out.append(m.as_str());
                out
            },
            JsWorkerError::SerdeError(m) => {
                let mut out = String::from_str("SerdeError: ");
                out.append(m.as_str());
                out
            },
            JsWorkerError::Timeout => String::from_str("Timeout"),
            JsWorkerError::Other(m) => {
                let mut out = String::from_str("Other: ");
                out.append(m.as_str());
                out
            },
        }
    }
}

} // verus!
