use ironflow::dag::definition::{DagRunStatus, TaskRunStatus, TriggerType};
use ironflow::json::JsonValue;
use ironflow::store::{
    collect_xcoms,
    append_log_line, connection_url, database_url, decode_dag_run, decode_task_run, plan_task_run_update,
    start_database_url, DagRunRow, TaskRunRow, ORPHANED_TASK_MESSAGE,
};

fn dag_row(started: &str, ended: Option<&str>) -> DagRunRow {
    DagRunRow {
        id: "r1".to_string(),
        dag_id: "d".to_string(),
        status: "running".to_string(),
        started_at: started.to_string(),
        ended_at: ended.map(|s| s.to_string()),
        triggered_by: "schedule".to_string(),
        run_number: 7,
    }
}

#[test]
fn decode_dag_run_reads_row() {
    let run = decode_dag_run(dag_row("2024-01-02T03:04:05+00:00", Some("2024-01-02T04:00:00Z"))).unwrap();
    assert_eq!(run.id, "r1");
    assert_eq!(run.status, DagRunStatus::Running);
    assert_eq!(run.triggered_by, TriggerType::Schedule);
    assert_eq!(run.run_number, 7);
    assert_eq!(run.started_at.secs(), 1704164645);
    assert_eq!(run.started_at.nanos(), 0);
    assert_eq!(run.ended_at.unwrap().secs(), 1704168000);
    assert_eq!(run.started_at.to_rfc3339(), "2024-01-02T03:04:05+00:00");
}

#[test]
fn decode_dag_run_drops_bad_start_time() {
    assert!(decode_dag_run(dag_row("yesterday", None)).is_none());
    let run = decode_dag_run(dag_row("2024-01-02T03:04:05+02:00", Some("never"))).unwrap();
    assert!(run.ended_at.is_none());
    assert_eq!(run.started_at.secs(), 1704157445);
    assert_eq!(run.started_at.to_rfc3339(), "2024-01-02T01:04:05+00:00");
}

#[test]
fn decode_task_run_reads_row() {
    let row = TaskRunRow {
        id: "t".to_string(),
        dag_run_id: "r".to_string(),
        task_id: "a".to_string(),
        status: "retried".to_string(),
        started_at: Some("2024-01-02T03:04:05Z".to_string()),
        ended_at: None,
        attempt_number: 2,
        log: "x".to_string(),
        xcom_output: Some("{}".to_string()),
    };
    let tr = decode_task_run(row);
    assert_eq!(tr.status, TaskRunStatus::Retried);
    assert_eq!(tr.started_at.unwrap().secs(), 1704164645);
    assert!(tr.ended_at.is_none());
    assert_eq!(tr.attempt_number, 2);
    assert_eq!(tr.xcom_output, Some("{}".to_string()));
}

#[test]
fn task_run_update_plans() {
    let u = plan_task_run_update(TaskRunStatus::Running, None, None, None);
    assert!(u.stamp_started && !u.stamp_ended && u.new_log.is_none());
    let u = plan_task_run_update(TaskRunStatus::Success, Some("old"), Some("done"), Some("{}".to_string()));
    assert!(!u.stamp_started && u.stamp_ended);
    assert_eq!(u.new_log, Some("old\ndone".to_string()));
    assert_eq!(u.xcom_output, Some("{}".to_string()));
    let u = plan_task_run_update(TaskRunStatus::Failed, None, Some("err"), None);
    assert_eq!(u.new_log, Some("err".to_string()));
    let u = plan_task_run_update(TaskRunStatus::Retried, None, Some(""), None);
    assert!(u.new_log.is_none());
    assert!(!u.stamp_ended);
}

#[test]
fn log_lines_and_urls() {
    assert_eq!(append_log_line("a", "b"), "a\nb");
    assert_eq!(append_log_line("", ORPHANED_TASK_MESSAGE), format!("\n{}", ORPHANED_TASK_MESSAGE));
    assert_eq!(connection_url("sqlite::memory:"), "sqlite::memory:?mode=rwc");
    assert_eq!(connection_url("sqlite://x.db?mode=ro"), "sqlite://x.db?mode=ro");
    assert_eq!(start_database_url("./ironflow.db"), "sqlite://./ironflow.db");
    assert_eq!(start_database_url("data/db.sqlite"), "sqlite://data/db.sqlite");
    assert_eq!(start_database_url("sqlite://x.db"), "sqlite://x.db");
    assert_eq!(database_url("./ironflow.db"), "sqlite://./ironflow.db");
}

#[test]
fn test_get_all_xcoms_for_run() {
    let rows = vec![
        ("task_1".to_string(), Some(r#"{"value": 1}"#.to_string())),
        ("task_2".to_string(), Some(r#"{"value": 2}"#.to_string())),
    ];
    let all = collect_xcoms(rows);
    match &all {
        JsonValue::Object(entries) => assert_eq!(entries.len(), 2),
        _ => panic!("not an object"),
    }
    assert!(all.get("task_1").is_some());
    assert!(all.get("task_2").is_some());
    assert_eq!(all.get_str("task_1"), Some(&r#"{"value": 1}"#.to_string()));
    assert_eq!(all.get_str("task_2"), Some(&r#"{"value": 2}"#.to_string()));
}

#[test]
fn collect_xcoms_skips_missing_output_and_keeps_last() {
    let rows = vec![
        ("a".to_string(), Some("1".to_string())),
        ("b".to_string(), None),
        ("a".to_string(), Some("2".to_string())),
    ];
    let all = collect_xcoms(rows);
    match &all {
        JsonValue::Object(entries) => assert_eq!(entries.len(), 1),
        _ => panic!("not an object"),
    }
    assert_eq!(all.get_str("a"), Some(&"2".to_string()));
    assert!(all.get("b").is_none());
}
