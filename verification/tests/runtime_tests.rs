use std::sync::Arc;

use js_worker::{
    plan_print, registration_names, FunctionDefinition, JsExecutor, JsWorkerOptions,
    JsWorkerResult, ScriptValue,
};

struct NullRuntimeExecutor;

impl JsExecutor for NullRuntimeExecutor {
    fn execute_sync(&self, _name: &str, _args: Vec<ScriptValue>) -> JsWorkerResult<ScriptValue> {
        Ok(ScriptValue::Null)
    }
}

#[test]
fn print_with_sink_delivers_the_value_exactly_once() {
    let (delivered, script_result) = plan_print(vec![ScriptValue::Int(42)], true);
    assert_eq!(delivered, Some(ScriptValue::Int(42)));
    assert_eq!(script_result, ScriptValue::Null);
}

#[test]
fn print_without_sink_drops_the_value() {
    let (delivered, script_result) = plan_print(vec![ScriptValue::Int(42)], false);
    assert_eq!(delivered, None);
    assert_eq!(script_result, ScriptValue::Null);
}

#[test]
fn print_without_arguments_delivers_the_absent_value() {
    let (delivered, script_result) = plan_print(vec![], true);
    assert_eq!(delivered, Some(ScriptValue::Null));
    assert_eq!(script_result, ScriptValue::Null);
}

#[test]
fn print_delivers_only_the_first_argument() {
    let (delivered, _) = plan_print(
        vec![ScriptValue::Str("first".to_string()), ScriptValue::Str("second".to_string())],
        true,
    );
    assert_eq!(delivered, Some(ScriptValue::Str("first".to_string())));
}

#[test]
fn registration_follows_declaration_order_then_print() {
    let options = JsWorkerOptions {
        timeout_ms: 250,
        executor: Arc::new(NullRuntimeExecutor),
        functions: vec![
            FunctionDefinition {
                name: "echo".to_string(),
                description: None,
                parameters: ScriptValue::Null,
                is_async: false,
            },
            FunctionDefinition {
                name: "fetch_data".to_string(),
                description: None,
                parameters: ScriptValue::Null,
                is_async: true,
            },
        ],
    };
    let names = registration_names(&options);
    assert_eq!(names, vec!["echo", "fetch_data", "print"]);
}
