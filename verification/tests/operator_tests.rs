use ironflow::json::JsonValue;
use ironflow::operators::bash::BashOperator;
use ironflow::operators::http::{HttpMethod, HttpOperator};
use ironflow::operators::process::ProcessOutput;
use ironflow::operators::python::PythonOperator;
use ironflow::operators::registry::{ConfigField, OperatorError, OperatorKind, OperatorRegistry};
use ironflow::operators::slack::SlackOperator;
use ironflow::operators::sql::SqlOperator;

fn obj(entries: Vec<(&str, JsonValue)>) -> JsonValue {
    JsonValue::Object(entries.into_iter().map(|(k, v)| (k.to_string(), v)).collect())
}

fn s(v: &str) -> JsonValue {
    JsonValue::Str(v.to_string())
}

#[test]
fn test_bash_operator_missing_command() {
    let config = obj(vec![]);
    let result = BashOperator::command(&config);
    assert!(result.is_err());
}

#[test]
fn test_http_operator_missing_url() {
    let config = obj(vec![]);
    let result = HttpOperator::request(&config);
    assert!(result.is_err());
}

#[test]
fn test_slack_operator_missing_webhook() {
    let config = obj(vec![("message", s("test"))]);
    let result = SlackOperator::message(&config);
    assert!(result.is_err());
}

#[test]
fn test_sql_operator_missing_query() {
    let config = obj(vec![("connection_string", s("sqlite::memory:"))]);
    let result = SqlOperator::execute(&config);
    assert!(result.is_err());
}

#[test]
fn sql_operator_requirements() {
    let missing_conn = obj(vec![("query", s("select 1"))]);
    assert_eq!(
        SqlOperator::execute(&missing_conn),
        Err(OperatorError::MissingField { operator: OperatorKind::Sql, field: ConfigField::ConnectionString })
    );
    let missing_query = obj(vec![("connection_string", s("c"))]);
    assert_eq!(
        SqlOperator::execute(&missing_query),
        Err(OperatorError::MissingField { operator: OperatorKind::Sql, field: ConfigField::Query })
    );
    let full = obj(vec![("query", s("select 1")), ("connection_string", s("c"))]);
    assert_eq!(SqlOperator::execute(&full), Ok("SQL execution result".to_string()));
}

#[test]
fn bash_command_read_from_config() {
    let config = obj(vec![("command", s("echo 'hello world'"))]);
    assert_eq!(BashOperator::command(&config), Ok("echo 'hello world'".to_string()));
    let not_string = obj(vec![("command", JsonValue::Number("1".to_string()))]);
    assert!(BashOperator::command(&not_string).is_err());
}

#[test]
fn bash_operator_success_output() {
    let out = ProcessOutput { success: true, exit_code: Some(0), stdout: b"hello world\n".to_vec(), stderr: vec![] };
    let result = BashOperator::finish(out);
    assert!(result.is_ok());
    assert!(result.unwrap().contains("hello world"));
}

#[test]
fn bash_operator_failure_output() {
    let out = ProcessOutput { success: false, exit_code: Some(1), stdout: vec![], stderr: b"bad\xff".to_vec() };
    assert_eq!(
        BashOperator::finish(out),
        Err(OperatorError::CommandFailed {
            operator: OperatorKind::Bash,
            exit_code: Some(1),
            stderr: "bad\u{fffd}".to_string()
        })
    );
}

#[test]
fn python_script_prefers_script_over_command() {
    let both = obj(vec![("command", s("print(1)")), ("script", s("print(2)"))]);
    assert_eq!(PythonOperator::script(&both), Ok("print(2)".to_string()));
    let only_command = obj(vec![("command", s("print(1)"))]);
    assert_eq!(PythonOperator::script(&only_command), Ok("print(1)".to_string()));
    assert_eq!(
        PythonOperator::script(&obj(vec![])),
        Err(OperatorError::MissingField { operator: OperatorKind::Python, field: ConfigField::ScriptOrCommand })
    );
    let out = ProcessOutput { success: false, exit_code: None, stdout: vec![], stderr: vec![] };
    assert!(matches!(
        PythonOperator::finish(out),
        Err(OperatorError::CommandFailed { operator: OperatorKind::Python, exit_code: None, .. })
    ));
}

#[test]
fn http_request_methods() {
    let get = obj(vec![("url", s("http://x"))]);
    let req = HttpOperator::request(&get).unwrap();
    assert_eq!(req.method, HttpMethod::Get);
    assert_eq!(req.url, "http://x");
    assert!(req.body.is_none());

    let post = obj(vec![("url", s("http://x")), ("method", s("post")), ("body", obj(vec![("k", s("v"))]))]);
    let req = HttpOperator::request(&post).unwrap();
    assert_eq!(req.method, HttpMethod::Post);
    assert!(matches!(req.body.as_ref().unwrap().get_str("k"), Some(v) if v == "v"));

    let delete = obj(vec![("url", s("http://x")), ("method", s("Delete")), ("body", s("ignored"))]);
    let req = HttpOperator::request(&delete).unwrap();
    assert_eq!(req.method, HttpMethod::Delete);
    assert!(req.body.is_none());

    let patch = obj(vec![("url", s("http://x")), ("method", s("patch"))]);
    assert_eq!(HttpOperator::request(&patch).unwrap_err(), OperatorError::UnsupportedHttpMethod("patch".to_string()));
}

#[test]
fn http_status_judgement() {
    assert_eq!(HttpOperator::finish(200, "ok".to_string()), Ok("ok".to_string()));
    assert_eq!(HttpOperator::finish(299, "ok".to_string()), Ok("ok".to_string()));
    assert_eq!(HttpOperator::finish(404, "no".to_string()), Err(OperatorError::HttpStatus(404)));
    assert_eq!(HttpOperator::finish(199, "no".to_string()), Err(OperatorError::HttpStatus(199)));
}

#[test]
fn slack_message_defaults() {
    let config = obj(vec![("webhook_url", s("http://hook"))]);
    let m = SlackOperator::message(&config).unwrap();
    assert_eq!(m.webhook_url, "http://hook");
    assert_eq!(m.text, "Task completed");
    let payload = SlackOperator::payload(&m);
    assert_eq!(payload.get_str("text"), Some(&"Task completed".to_string()));
    assert_eq!(SlackOperator::finish(204), Ok("Slack message sent".to_string()));
    assert_eq!(SlackOperator::finish(500), Err(OperatorError::SlackStatus(500)));
}

#[test]
fn registry_lookup() {
    for (name, kind) in [
        ("bash", OperatorKind::Bash),
        ("python", OperatorKind::Python),
        ("http", OperatorKind::Http),
        ("sql", OperatorKind::Sql),
        ("slack", OperatorKind::Slack),
    ] {
        assert_eq!(OperatorRegistry::get_operator(name), Some(kind));
        assert_eq!(kind.name(), name);
    }
    assert_eq!(OperatorRegistry::get_operator("Bash"), None);
    assert_eq!(OperatorRegistry::get_operator(""), None);
    assert_eq!(BashOperator.name(), "bash");
    assert_eq!(SqlOperator.name(), "sql");
}

#[test]
fn missing_field_messages() {
    let empty = obj(vec![]);
    assert_eq!(
        BashOperator::command(&empty).unwrap_err().message(),
        "Missing 'command' field in bash operator config"
    );
    assert_eq!(
        HttpOperator::request(&empty).unwrap_err().message(),
        "Missing 'url' field in HTTP operator config"
    );
    assert_eq!(
        SlackOperator::message(&obj(vec![("message", s("test"))])).unwrap_err().message(),
        "Missing 'webhook_url' field in Slack operator config"
    );
    assert_eq!(
        SqlOperator::execute(&obj(vec![("connection_string", s("x"))])).unwrap_err().message(),
        "Missing 'query' field in SQL operator config"
    );
    assert_eq!(
        SqlOperator::execute(&obj(vec![("query", s("select 1"))])).unwrap_err().message(),
        "Missing 'connection_string' field in SQL operator config"
    );
    assert_eq!(
        PythonOperator::script(&empty).unwrap_err().message(),
        "Missing 'script' or 'command' field in python operator config"
    );
}

#[test]
fn status_and_command_messages() {
    assert_eq!(OperatorError::HttpStatus(404).message(), "HTTP request failed with status: 404 Not Found");
    assert_eq!(
        OperatorError::SlackStatus(500).message(),
        "Slack webhook request failed with status: 500 Internal Server Error"
    );
    assert_eq!(OperatorError::HttpStatus(599).message(), "HTTP request failed with status: 599 <unknown status code>");
    assert_eq!(OperatorError::HttpStatus(42).message(), "HTTP request failed with status: 42");
    assert_eq!(OperatorError::UnsupportedHttpMethod("patch".to_string()).message(), "Unsupported HTTP method: patch");
    let failed = OperatorError::CommandFailed {
        operator: OperatorKind::Bash,
        exit_code: Some(-2147483648),
        stderr: "boom".to_string(),
    };
    assert_eq!(failed.message(), "Bash command failed with exit code: Some(-2147483648)\nStderr: boom");
    let failed = OperatorError::CommandFailed { operator: OperatorKind::Python, exit_code: None, stderr: String::new() };
    assert_eq!(failed.message(), "Python command failed with exit code: None\nStderr: ");
    let failed = OperatorError::CommandFailed { operator: OperatorKind::Bash, exit_code: Some(1), stderr: "e".to_string() };
    assert_eq!(failed.message(), format!("Bash command failed with exit code: {:?}\nStderr: e", Some(1)));
}
