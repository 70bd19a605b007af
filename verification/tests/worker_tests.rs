use std::sync::Arc;

use js_worker::{
    classify_response, plan_query, response_of, EvalFailure, FunctionDefinition, JsExecutor,
    JsWorker, JsWorkerError, JsWorkerMessage, JsWorkerOptions, JsWorkerResult, QueryPlan,
    ScriptValue,
};

struct NullExecutor;

impl JsExecutor for NullExecutor {
    fn execute_sync(&self, _name: &str, _args: Vec<ScriptValue>) -> JsWorkerResult<ScriptValue> {
        Ok(ScriptValue::Null)
    }
}

#[test]
fn duplicate_function_names_rejected_at_construction() {
    let options = JsWorkerOptions {
        timeout_ms: 1000,
        executor: Arc::new(NullExecutor),
        functions: vec![
            FunctionDefinition {
                name: "echo".to_string(),
                description: Some("Echo a message".to_string()),
                parameters: ScriptValue::Null,
                is_async: false,
            },
            FunctionDefinition {
                name: "echo".to_string(),
                description: None,
                parameters: ScriptValue::Null,
                is_async: true,
            },
        ],
    };
    match JsWorker::new(options) {
        Err(JsWorkerError::Other(msg)) => assert_eq!(msg, "duplicate function name"),
        _ => panic!("construction must fail on duplicate names"),
    }
}

#[test]
fn unique_function_names_accepted() {
    let options = JsWorkerOptions {
        timeout_ms: 1000,
        executor: Arc::new(NullExecutor),
        functions: vec![
            FunctionDefinition {
                name: "echo".to_string(),
                description: None,
                parameters: ScriptValue::Null,
                is_async: false,
            },
            FunctionDefinition {
                name: "fetch_data".to_string(),
                description: None,
                parameters: ScriptValue::Null,
                is_async: true,
            },
        ],
    };
    let worker = JsWorker::new(options).unwrap();
    assert_eq!(worker.options().functions.len(), 2);
    assert_eq!(worker.options().timeout_ms, 1000);
}

#[test]
fn append_functions_binds_each_name_before_the_code() {
    let options = JsWorkerOptions {
        timeout_ms: 1000,
        executor: Arc::new(NullExecutor),
        functions: vec![
            FunctionDefinition {
                name: "echo".to_string(),
                description: None,
                parameters: ScriptValue::Null,
                is_async: false,
            },
            FunctionDefinition {
                name: "fetch_data".to_string(),
                description: None,
                parameters: ScriptValue::Null,
                is_async: true,
            },
        ],
    };
    let worker = JsWorker::new(options).unwrap();
    let out = worker.append_functions("echo('hi');");
    assert_eq!(
        out,
        " let echo = rustyscript.functions['echo']; \
         let fetch_data = rustyscript.async_functions['fetch_data'];\
         echo('hi');"
    );
}

#[test]
fn wrap_async_block_surrounds_the_code() {
    let options = JsWorkerOptions { timeout_ms: 1000, executor: Arc::new(NullExecutor), functions: vec![] };
    let worker = JsWorker::new(options).unwrap();
    let out = worker.wrap_async_block("await echo('hi');");
    let expected = "\n(async () => {\n    try {\n        await echo('hi');\n    } catch (error) {\n        console.log('Error in code execution:', error);\n        throw error;\n    }\n})()\n";
    assert_eq!(out, expected);
}

#[test]
fn execute_query_becomes_wrapped_module_evaluation() {
    let plan = plan_query(JsWorkerMessage::Execute("1 + 2;".to_string()));
    match plan {
        QueryPlan::Evaluate(module) => {
            assert_eq!(
                module,
                "\nexport default function main() {\n    return 1 + 2;\n\n}\n"
            );
        }
        QueryPlan::Reply(_) => panic!("an execute query must be evaluated"),
    }
}

#[test]
fn non_execute_queries_are_echoed_back() {
    let plan = plan_query(JsWorkerMessage::Value(ScriptValue::Int(3)));
    assert_eq!(plan, QueryPlan::Reply(JsWorkerMessage::Value(ScriptValue::Int(3))));
}

#[test]
fn evaluation_outcome_becomes_response_message() {
    assert_eq!(
        response_of(Ok(ScriptValue::Int(3))),
        JsWorkerMessage::Value(ScriptValue::Int(3))
    );
    assert_eq!(
        response_of(Err(EvalFailure::Timeout)),
        JsWorkerMessage::Error(EvalFailure::Timeout)
    );
}

#[test]
fn value_response_is_the_result() {
    let r = classify_response(JsWorkerMessage::Value(ScriptValue::Str("hi".to_string())));
    assert_eq!(r, Ok(ScriptValue::Str("hi".to_string())));
}

#[test]
fn script_failure_surfaces_as_js_error() {
    let r = classify_response(JsWorkerMessage::Error(EvalFailure::Script(
        "ReferenceError: echo is not defined".to_string(),
    )));
    assert_eq!(
        r,
        Err(JsWorkerError::JsError("ReferenceError: echo is not defined".to_string()))
    );
}

#[test]
fn timeout_failure_surfaces_as_timeout() {
    let r = classify_response(JsWorkerMessage::Error(EvalFailure::Timeout));
    assert_eq!(r, Err(JsWorkerError::Timeout));
}

#[test]
fn execute_message_is_an_unexpected_response() {
    let r = classify_response(JsWorkerMessage::Execute("1;".to_string()));
    assert_eq!(r, Err(JsWorkerError::Other("Unexpected response".to_string())));
}

#[test]
fn integer_result_decodes_as_integer() {
    let value = classify_response(JsWorkerMessage::Value(ScriptValue::Int(3))).unwrap();
    assert_eq!(value.into_int(), Ok(3));
}

#[test]
fn wrong_shape_decodes_as_serialization_error() {
    assert_eq!(
        ScriptValue::Str("3".to_string()).into_int(),
        Err(JsWorkerError::SerdeError("expected an integer".to_string()))
    );
    assert_eq!(
        ScriptValue::Int(1).into_bool(),
        Err(JsWorkerError::SerdeError("expected a boolean".to_string()))
    );
    assert_eq!(
        ScriptValue::Null.into_text(),
        Err(JsWorkerError::SerdeError("expected text".to_string()))
    );
}

#[test]
fn plain_shapes_decode_to_their_values() {
    assert_eq!(ScriptValue::Bool(true).into_bool(), Ok(true));
    assert_eq!(ScriptValue::Str("hi".to_string()).into_text(), Ok("hi".to_string()));
}
