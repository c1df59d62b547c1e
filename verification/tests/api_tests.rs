use chrono::NaiveDate;
use ironflow::text::decimal_text;
use ironflow::timestamp::Timestamp;
use ironflow::api::{run_details, trigger_response, DagRunResponse};
use ironflow::cli::Commands;
use ironflow::dag::definition::{DagRun, DagRunStatus, TaskRun, TaskRunStatus, TriggerType};
use ironflow::json::JsonValue;

fn at(h: u32, m: u32, s: u32) -> Timestamp {
    let t = NaiveDate::from_ymd_opt(2024, 1, 2).unwrap().and_hms_opt(h, m, s).unwrap().and_utc();
    Timestamp::new(t.timestamp(), t.timestamp_subsec_nanos()).unwrap()
}

fn sample_run() -> DagRun {
    DagRun {
        id: "run-1".to_string(),
        dag_id: "etl".to_string(),
        status: DagRunStatus::Success,
        started_at: at(3, 4, 5),
        ended_at: None,
        triggered_by: TriggerType::Manual,
        run_number: 4,
    }
}

fn sample_task_run(id: &str, attempt: u32, ended: Option<Timestamp>) -> TaskRun {
    TaskRun {
        id: id.to_string(),
        dag_run_id: "run-1".to_string(),
        task_id: format!("task-{}", id),
        status: TaskRunStatus::Failed,
        started_at: Some(at(3, 5, 0)),
        ended_at: ended,
        attempt_number: attempt,
        log: "line one\nline two".to_string(),
        xcom_output: None,
    }
}

fn entries(v: &JsonValue) -> &Vec<(String, JsonValue)> {
    match v {
        JsonValue::Object(es) => es,
        _ => panic!("not an object"),
    }
}

fn text(v: &JsonValue) -> &str {
    match v {
        JsonValue::Str(s) => s,
        _ => panic!("not a string"),
    }
}

#[test]
fn dag_run_response_names_status_and_trigger() {
    let r = DagRunResponse::from_run(&sample_run());
    assert_eq!(r.id, "run-1");
    assert_eq!(r.dag_id, "etl");
    assert_eq!(r.status, "success");
    assert_eq!(r.triggered_by, "manual");
    assert_eq!(r.started_at, "2024-01-02T03:04:05+00:00");
}

#[test]
fn run_details_describes_run_and_tasks() {
    let tasks = vec![sample_task_run("a", 3, Some(at(3, 6, 0))), sample_task_run("b", 12, None)];
    let details = run_details(&sample_run(), &tasks);
    let top = entries(&details);
    assert_eq!(top.len(), 2);
    assert_eq!(top[0].0, "run");
    assert_eq!(top[1].0, "tasks");

    let run = entries(&top[0].1);
    let keys: Vec<&str> = run.iter().map(|e| e.0.as_str()).collect();
    assert_eq!(keys, vec!["id", "dag_id", "status", "started_at", "ended_at", "triggered_by"]);
    assert_eq!(text(&run[0].1), "run-1");
    assert_eq!(text(&run[1].1), "etl");
    assert_eq!(text(&run[2].1), "success");
    assert_eq!(text(&run[3].1), "2024-01-02T03:04:05+00:00");
    assert!(matches!(run[4].1, JsonValue::Null));
    assert_eq!(text(&run[5].1), "manual");

    let items = match &top[1].1 {
        JsonValue::Array(items) => items,
        _ => panic!("tasks is not an array"),
    };
    assert_eq!(items.len(), 2);
    let first = entries(&items[0]);
    let keys: Vec<&str> = first.iter().map(|e| e.0.as_str()).collect();
    assert_eq!(keys, vec!["id", "task_id", "status", "started_at", "ended_at", "attempt_number", "log"]);
    assert_eq!(text(&first[1].1), "task-a");
    assert_eq!(text(&first[2].1), "failed");
    assert_eq!(text(&first[4].1), "2024-01-02T03:06:00+00:00");
    assert!(matches!(&first[5].1, JsonValue::Number(n) if n == "3"));
    assert_eq!(text(&first[6].1), "line one\nline two");
    let second = entries(&items[1]);
    assert!(matches!(second[4].1, JsonValue::Null));
    assert!(matches!(&second[5].1, JsonValue::Number(n) if n == "12"));
}

#[test]
fn run_details_without_tasks() {
    let details = run_details(&sample_run(), &Vec::new());
    let top = entries(&details);
    assert!(matches!(&top[1].1, JsonValue::Array(items) if items.is_empty()));
}

#[test]
fn trigger_response_names_dag_and_run() {
    let r = trigger_response("etl", "run-9".to_string());
    let es = entries(&r);
    assert_eq!(es.len(), 2);
    assert_eq!(es[0].0, "message");
    assert_eq!(text(&es[0].1), "DAG etl triggered successfully");
    assert_eq!(es[1].0, "run_id");
    assert_eq!(text(&es[1].1), "run-9");
}

#[test]
fn start_command_keeps_urls_with_a_scheme() {
    let c = Commands::Start {
        dags_dir: "./dags".to_string(),
        db_path: "postgres://host/db".to_string(),
        with_api: false,
        port: 8080,
    };
    assert_eq!(c.database_url(), "postgres://host/db");
    let c = Commands::Start {
        dags_dir: "./dags".to_string(),
        db_path: "./ironflow.db".to_string(),
        with_api: true,
        port: 8080,
    };
    assert_eq!(c.database_url(), "sqlite://./ironflow.db");
    let c = Commands::Start {
        dags_dir: "./dags".to_string(),
        db_path: "data/flow.db".to_string(),
        with_api: true,
        port: 8080,
    };
    assert_eq!(c.database_url(), "sqlite://data/flow.db");
}

#[test]
fn other_commands_open_a_sqlite_file() {
    let commands = vec![
        Commands::Trigger { dag_id: "d".to_string(), db_path: "x.db".to_string() },
        Commands::Status { dag_id: "d".to_string(), limit: 10, db_path: "x.db".to_string() },
        Commands::Pause { dag_id: "d".to_string(), db_path: "x.db".to_string() },
        Commands::Unpause { dag_id: "d".to_string(), db_path: "x.db".to_string() },
        Commands::List { db_path: "x.db".to_string() },
        Commands::Serve { port: 1, db_path: "x.db".to_string() },
    ];
    for c in commands {
        assert_eq!(c.database_url(), "sqlite://x.db");
    }
    let c = Commands::Serve { port: 1, db_path: "sqlite://already".to_string() };
    assert_eq!(c.database_url(), "sqlite://sqlite://already");
}

#[test]
fn decimal_text_digits() {
    assert_eq!(decimal_text(0), "0");
    assert_eq!(decimal_text(7), "7");
    assert_eq!(decimal_text(10), "10");
    assert_eq!(decimal_text(4294967295), "4294967295");
}

#[test]
fn timestamps_read_and_write_rfc3339() {
    let t = Timestamp::parse_rfc3339("2024-01-02T03:04:05.250+01:00").unwrap();
    assert_eq!(t.secs(), 1704161045);
    assert_eq!(t.nanos(), 250_000_000);
    assert_eq!(t.to_rfc3339(), "2024-01-02T02:04:05.250+00:00");
    assert_eq!(Timestamp::parse_rfc3339(&t.to_rfc3339()), Some(t));
    assert!(Timestamp::parse_rfc3339("2024-13-02T03:04:05Z").is_none());
    assert_eq!(Timestamp::new(0, 0).unwrap().to_rfc3339(), "1970-01-01T00:00:00+00:00");
    assert!(Timestamp::new(0, 2_000_000_000).is_none());
    assert!(Timestamp::new(i64::MAX, 0).is_none());
}
