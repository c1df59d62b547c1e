use ironflow::dag::definition::{DagDefinition, DagRunStatus, TaskDefinition};
use ironflow::executor::attempt::{after_attempt, max_attempts, retry_delay_secs, timeout_secs, AttemptOutcome};
use ironflow::executor::run_state::RunState;
use ironflow::executor::xcom::inject_xcom;
use ironflow::json::JsonValue;

fn task(id: &str, deps: &[&str]) -> TaskDefinition {
    TaskDefinition {
        id: id.to_string(),
        operator: "bash".to_string(),
        depends_on: if deps.is_empty() { None } else { Some(deps.iter().map(|s| s.to_string()).collect()) },
        retries: None,
        retry_delay_secs: None,
        timeout_secs: None,
        xcom_inputs: None,
        config: JsonValue::Object(Vec::new()),
    }
}

fn dag(tasks: Vec<TaskDefinition>) -> DagDefinition {
    DagDefinition {
        id: "d".to_string(),
        description: None,
        schedule: None,
        max_active_runs: None,
        catchup: None,
        tasks,
    }
}

#[test]
fn run_starts_tasks_in_dependency_waves() {
    let d = dag(vec![task("a", &[]), task("b", &["a"]), task("c", &["a"]), task("d", &["b", "c"])]);
    let mut st = RunState::new();
    assert_eq!(st.start_runnable(&d), vec!["a"]);
    assert!(st.start_runnable(&d).is_empty());
    assert!(st.is_in_flight(&"a".to_string()));
    assert!(!st.is_in_flight(&"b".to_string()));
    st.record_result(&"a".to_string(), true);
    assert!(!st.is_in_flight(&"a".to_string()));
    assert_eq!(st.start_runnable(&d), vec!["b", "c"]);
    st.record_result(&"c".to_string(), true);
    assert!(st.start_runnable(&d).is_empty());
    st.record_result(&"b".to_string(), true);
    assert_eq!(st.start_runnable(&d), vec!["d"]);
    assert!(!st.is_idle());
    st.record_result(&"d".to_string(), true);
    assert!(st.start_runnable(&d).is_empty());
    assert!(st.is_idle());
    assert_eq!(st.final_status(), DagRunStatus::Success);
}

#[test]
fn failed_dependency_blocks_dependents() {
    let d = dag(vec![task("a", &[]), task("b", &["a"]), task("c", &[])]);
    let mut st = RunState::new();
    assert_eq!(st.start_runnable(&d), vec!["a", "c"]);
    st.record_result(&"a".to_string(), false);
    assert!(st.start_runnable(&d).is_empty());
    st.record_result(&"c".to_string(), true);
    assert!(st.start_runnable(&d).is_empty());
    assert!(st.is_idle());
    assert_eq!(st.final_status(), DagRunStatus::Failed);
    assert!(st.runnable_tasks(&d).is_empty());
}

#[test]
fn empty_run_succeeds_at_once() {
    let d = dag(vec![]);
    let mut st = RunState::new();
    assert!(st.start_runnable(&d).is_empty());
    assert!(st.is_idle());
    assert_eq!(st.final_status(), DagRunStatus::Success);
}

#[test]
fn task_with_unknown_dependency_never_starts() {
    let d = dag(vec![task("a", &["ghost"])]);
    let mut st = RunState::new();
    assert!(st.start_runnable(&d).is_empty());
    assert!(st.is_idle());
    assert_eq!(st.final_status(), DagRunStatus::Success);
}

#[test]
fn attempts_and_defaults() {
    let mut t = task("a", &[]);
    assert_eq!(max_attempts(&t), 1);
    assert_eq!(timeout_secs(&t), 3600);
    assert_eq!(retry_delay_secs(&t), 60);
    t.retries = Some(2);
    t.retry_delay_secs = Some(5);
    t.timeout_secs = Some(10);
    assert_eq!(max_attempts(&t), 3);
    assert_eq!(timeout_secs(&t), 10);
    assert_eq!(retry_delay_secs(&t), 5);
    assert_eq!(
        after_attempt(&t, 1, Err("boom".to_string())),
        AttemptOutcome::Retry { error: "boom".to_string(), delay_secs: 5, next_attempt: 2 }
    );
    assert_eq!(
        after_attempt(&t, 2, Err("boom".to_string())),
        AttemptOutcome::Retry { error: "boom".to_string(), delay_secs: 5, next_attempt: 3 }
    );
    assert_eq!(after_attempt(&t, 3, Err("boom".to_string())), AttemptOutcome::GaveUp { error: "boom".to_string() });
    assert_eq!(
        after_attempt(&t, 3, Ok("out".to_string())),
        AttemptOutcome::Succeeded { output: "out".to_string() }
    );
}

#[test]
fn no_retries_gives_up_after_first_failure() {
    let t = task("a", &[]);
    assert_eq!(after_attempt(&t, 1, Err("e".to_string())), AttemptOutcome::GaveUp { error: "e".to_string() });
}

fn obj(entries: Vec<(&str, JsonValue)>) -> JsonValue {
    JsonValue::Object(entries.into_iter().map(|(k, v)| (k.to_string(), v)).collect())
}

#[test]
fn xcom_injection_creates_member() {
    let config = obj(vec![("command", JsonValue::Str("echo".to_string()))]);
    let out = inject_xcom(config, "up".to_string(), JsonValue::Number("42".to_string()));
    assert_eq!(out.get_str("command"), Some(&"echo".to_string()));
    let xcom = out.get("xcom").unwrap();
    match xcom.get("up") {
        Some(JsonValue::Number(n)) => assert_eq!(n, "42"),
        other => panic!("unexpected {:?}", other),
    }
}

#[test]
fn xcom_injection_adds_to_existing_member() {
    let config = obj(vec![("xcom", obj(vec![("a", JsonValue::Bool(true))]))]);
    let out = inject_xcom(config, "b".to_string(), JsonValue::Null);
    let xcom = out.get("xcom").unwrap();
    assert!(matches!(xcom.get("a"), Some(JsonValue::Bool(true))));
    assert!(matches!(xcom.get("b"), Some(JsonValue::Null)));
    let out2 = inject_xcom(out, "a".to_string(), JsonValue::Bool(false));
    assert!(matches!(out2.get("xcom").unwrap().get("a"), Some(JsonValue::Bool(false))));
}

#[test]
fn xcom_injection_replaces_non_object_config() {
    let out = inject_xcom(JsonValue::Str("x".to_string()), "u".to_string(), JsonValue::Null);
    assert!(out.is_object());
    assert!(matches!(out.get("xcom").unwrap().get("u"), Some(JsonValue::Null)));
}

#[test]
fn xcom_injection_keeps_non_object_xcom_member() {
    let config = obj(vec![("xcom", JsonValue::Number("1".to_string()))]);
    let out = inject_xcom(config, "u".to_string(), JsonValue::Null);
    assert!(matches!(out.get("xcom"), Some(JsonValue::Number(n)) if n == "1"));
}
