use js_worker::{bridge_outcome, JsExecutor, JsWorkerError, JsWorkerResult, ScriptValue};

struct EchoExecutor;

impl JsExecutor for EchoExecutor {
    fn execute_sync(&self, name: &str, args: Vec<ScriptValue>) -> JsWorkerResult<ScriptValue> {
        let mut joined = String::new();
        for a in args {
            if let ScriptValue::Str(s) = a {
                if !joined.is_empty() {
                    joined.push_str(" ");
                }
                joined.push_str(&s);
            }
        }
        Ok(ScriptValue::Str(format!("{}: {}", name, joined)))
    }
}

struct FailingExecutor;

impl JsExecutor for FailingExecutor {
    fn execute_sync(&self, _name: &str, _args: Vec<ScriptValue>) -> JsWorkerResult<ScriptValue> {
        Err(JsWorkerError::JsError("echo failed".to_string()))
    }
}

#[test]
fn sync_echo_result_reaches_the_script_side() {
    let executor = EchoExecutor;
    let result = executor.execute_sync("echo", vec![ScriptValue::Str("hi".to_string())]);
    match bridge_outcome(result) {
        Ok(ScriptValue::Str(s)) => assert!(s.contains("hi")),
        other => panic!("expected the executor's text, got {:?}", other),
    }
}

#[test]
fn bridge_failure_surfaces_as_the_stringified_error() {
    let executor = FailingExecutor;
    let out = bridge_outcome(executor.execute_sync("echo", vec![]));
    assert_eq!(out, Err("JsError: echo failed".to_string()));
}

#[test]
fn failure_messages_carry_kind_and_detail() {
    assert_eq!(JsWorkerError::JsError("boom".to_string()).message(), "JsError: boom");
    assert_eq!(
        JsWorkerError::SerdeError("bad shape".to_string()).message(),
        "SerdeError: bad shape"
    );
    assert_eq!(JsWorkerError::Timeout.message(), "Timeout");
    assert_eq!(JsWorkerError::Other("worker is closed".to_string()).message(), "Other: worker is closed");
}
