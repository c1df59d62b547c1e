use ironflow::dag::definition::DagDefinition;
use ironflow::dag::validator::ValidationError;
use ironflow::dag::watcher::DagWatcher;
use ironflow::json::JsonValue;
use ironflow::scheduler::scheduled_run_allowed;
use ironflow::text::{contains_str, count_fields, starts_with};
use ironflow::ui::{get_asset, is_frontend_available, trim_slashes, Assets};

fn dag(id: &str, description: &str) -> DagDefinition {
    DagDefinition {
        id: id.to_string(),
        description: Some(description.to_string()),
        schedule: None,
        max_active_runs: None,
        catchup: None,
        tasks: vec![],
    }
}

#[test]
fn watcher_keeps_one_dag_per_id() {
    let mut w = DagWatcher::new();
    assert!(w.get_dag("a").is_none());
    assert!(w.load_dag(dag("a", "first")).is_ok());
    assert!(w.load_dag(dag("b", "other")).is_ok());
    assert!(w.load_dag(dag("a", "second")).is_ok());
    assert_eq!(w.get_all_dags().len(), 2);
    assert_eq!(w.get_dag("a").unwrap().description.as_deref(), Some("second"));
    assert_eq!(w.get_dag("b").unwrap().description.as_deref(), Some("other"));
}

#[test]
fn watcher_loads_only_valid_dags() {
    let mut w = DagWatcher::new();
    assert_eq!(w.load_dag(dag("", "x")), Err(ValidationError::EmptyDagId));
    assert!(w.get_all_dags().is_empty());
    assert!(w.load_dag(dag("my_dag", "x")).is_ok());
    assert_eq!(w.get_dag("my_dag").unwrap().id, "my_dag");
    assert_eq!(w.load_dag(dag("", "y")), Err(ValidationError::EmptyDagId));
    assert_eq!(w.get_all_dags().len(), 1);
    assert_eq!(w.get_dag("my_dag").unwrap().description.as_deref(), Some("x"));
}

#[test]
fn assets_lookup_and_mime() {
    let mut a = Assets::new();
    assert!(!is_frontend_available(&a));
    a.insert("index.html".to_string(), b"<html>".to_vec());
    a.insert("app.js".to_string(), b"js".to_vec());
    a.insert("data.unknownext".to_string(), b"?".to_vec());
    assert!(is_frontend_available(&a));
    let (data, mime) = get_asset(&a, "/").unwrap();
    assert_eq!(data, b"<html>".to_vec());
    assert_eq!(mime, "text/html");
    let (_, mime) = get_asset(&a, "//app.js").unwrap();
    assert_eq!(mime, "text/javascript");
    let (_, mime) = get_asset(&a, "data.unknownext").unwrap();
    assert_eq!(mime, "application/octet-stream");
    assert!(get_asset(&a, "missing.css").is_none());
    assert_eq!(get_asset(&a, "").unwrap().0, b"<html>".to_vec());
}

#[test]
fn text_helpers() {
    assert_eq!(trim_slashes("///a/b"), "a/b");
    assert_eq!(trim_slashes("a"), "a");
    assert_eq!(count_fields("0 2 * * *"), 5);
    assert_eq!(count_fields("  a\u{3000}b\n"), 2);
    assert_eq!(count_fields(""), 0);
    assert!(contains_str("sqlite://x?mode=rwc", "mode="));
    assert!(!contains_str("abc", "abcd"));
    assert!(contains_str("abc", ""));
    assert!(starts_with("./x", "./"));
    assert!(!starts_with(".", "./"));
}

#[test]
fn scheduled_runs_skip_paused_dags() {
    assert!(!scheduled_run_allowed(Some(true)));
    assert!(scheduled_run_allowed(Some(false)));
    assert!(scheduled_run_allowed(None));
}

#[test]
fn json_member_lookup() {
    let v = JsonValue::Object(vec![
        ("a".to_string(), JsonValue::Str("x".to_string())),
        ("b".to_string(), JsonValue::Bool(true)),
    ]);
    assert_eq!(v.get_str("a"), Some(&"x".to_string()));
    assert_eq!(v.get_str("b"), None);
    assert!(v.get("c").is_none());
    assert!(JsonValue::Null.get("a").is_none());
    let c = v.clone();
    assert_eq!(c.get_str("a"), Some(&"x".to_string()));
}
