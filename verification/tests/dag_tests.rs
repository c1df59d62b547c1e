use ironflow::dag::definition::{DagDefinition, DagRunStatus, TaskDefinition, TaskRunStatus, TriggerType};
use ironflow::json::JsonValue;

fn task(id: &str, depends_on: Option<Vec<&str>>) -> TaskDefinition {
    TaskDefinition {
        id: id.to_string(),
        operator: "bash".to_string(),
        depends_on: depends_on.map(|d| d.into_iter().map(|s| s.to_string()).collect()),
        retries: None,
        retry_delay_secs: None,
        timeout_secs: None,
        xcom_inputs: None,
        config: JsonValue::Object(Vec::new()),
    }
}

fn dag(id: &str, tasks: Vec<TaskDefinition>) -> DagDefinition {
    DagDefinition {
        id: id.to_string(),
        description: None,
        schedule: None,
        max_active_runs: None,
        catchup: None,
        tasks,
    }
}

#[test]
fn test_task_execution_order() {
    let dag = dag(
        "test_dag",
        vec![task("a", None), task("b", Some(vec!["a"])), task("c", Some(vec!["b"]))],
    );
    let order = dag.task_execution_order().unwrap();
    assert_eq!(order, vec!["a", "b", "c"]);
}

#[test]
fn test_cycle_detection() {
    let dag = dag(
        "cyclic_dag",
        vec![task("a", Some(vec!["c"])), task("b", Some(vec!["a"])), task("c", Some(vec!["b"]))],
    );
    let result = dag.task_execution_order();
    assert!(result.is_err());
}

#[test]
fn test_root_tasks() {
    let dag = dag("test_dag", vec![task("a", None), task("b", Some(vec!["a"]))]);
    let roots = dag.root_tasks();
    assert_eq!(roots, vec!["a"]);
}

#[test]
fn execution_order_puts_dependencies_first_when_listed_later() {
    let dag = dag(
        "d",
        vec![task("load", Some(vec!["transform"])), task("transform", Some(vec!["extract"])), task("extract", None)],
    );
    assert_eq!(dag.task_execution_order().unwrap(), vec!["extract", "transform", "load"]);
}

#[test]
fn execution_order_lists_task_ids_only() {
    let dag = dag("d", vec![task("a", None), task("b", Some(vec!["x"]))]);
    assert_eq!(dag.task_execution_order().unwrap(), vec!["a", "b"]);
}

#[test]
fn execution_order_of_diamond() {
    let dag = dag(
        "d",
        vec![
            task("a", None),
            task("b", Some(vec!["a"])),
            task("c", Some(vec!["a"])),
            task("d", Some(vec!["b", "c"])),
        ],
    );
    assert_eq!(dag.task_execution_order().unwrap(), vec!["a", "b", "c", "d"]);
}

#[test]
fn cycle_message_names_task_on_cycle() {
    let dag = dag("d", vec![task("a", Some(vec!["a"]))]);
    assert_eq!(dag.task_execution_order().unwrap_err(), "Cycle detected involving task: a");
}

#[test]
fn empty_dag_has_empty_order() {
    let dag = dag("d", vec![]);
    assert_eq!(dag.task_execution_order().unwrap(), Vec::<String>::new());
    assert!(dag.root_tasks().is_empty());
}

#[test]
fn dependents_lists_tasks_depending_on_given_task() {
    let dag = dag(
        "d",
        vec![task("a", None), task("b", Some(vec!["a"])), task("c", Some(vec!["a", "b"]))],
    );
    assert_eq!(dag.dependents("a"), vec!["b", "c"]);
    assert_eq!(dag.dependents("b"), vec!["c"]);
    assert!(dag.dependents("c").is_empty());
}

#[test]
fn get_task_finds_first_task_with_id() {
    let dag = dag("d", vec![task("a", None), task("b", Some(vec!["a"]))]);
    assert_eq!(dag.get_task("b").unwrap().id, "b");
    assert!(dag.get_task("zzz").is_none());
}

#[test]
fn dependencies_satisfied_requires_all_completed() {
    let dag = dag("d", vec![task("a", None), task("b", Some(vec!["a", "x"]))]);
    assert!(dag.dependencies_satisfied("a", &vec![]));
    assert!(!dag.dependencies_satisfied("b", &vec!["a".to_string()]));
    assert!(dag.dependencies_satisfied("b", &vec!["x".to_string(), "a".to_string()]));
    assert!(!dag.dependencies_satisfied("missing", &vec![]));
}

#[test]
fn dependencies_default_to_empty() {
    let t = task("a", None);
    assert!(t.dependencies().is_empty());
    assert!(t.xcom_dependencies().is_empty());
    let mut u = task("b", Some(vec!["a"]));
    u.xcom_inputs = Some(vec!["a".to_string()]);
    assert_eq!(u.dependencies(), vec!["a"]);
    assert_eq!(u.xcom_dependencies(), vec!["a"]);
}

#[test]
fn status_names_round_trip() {
    for s in [DagRunStatus::Queued, DagRunStatus::Running, DagRunStatus::Success, DagRunStatus::Failed] {
        assert_eq!(DagRunStatus::from_name(&s.to_string()), s);
    }
    for s in [
        TaskRunStatus::Pending,
        TaskRunStatus::Running,
        TaskRunStatus::Success,
        TaskRunStatus::Failed,
        TaskRunStatus::Retried,
        TaskRunStatus::Skipped,
    ] {
        assert_eq!(TaskRunStatus::from_name(&s.to_string()), s);
    }
    for t in [TriggerType::Schedule, TriggerType::Manual] {
        assert_eq!(TriggerType::from_name(&t.to_string()), t);
    }
}

#[test]
fn status_names_are_lowercase() {
    assert_eq!(DagRunStatus::Queued.to_string(), "queued");
    assert_eq!(DagRunStatus::Failed.to_string(), "failed");
    assert_eq!(TaskRunStatus::Retried.to_string(), "retried");
    assert_eq!(TaskRunStatus::Skipped.to_string(), "skipped");
    assert_eq!(TriggerType::Schedule.to_string(), "schedule");
    assert_eq!(TriggerType::Manual.to_string(), "manual");
}

#[test]
fn unknown_status_names_fall_back() {
    assert_eq!(DagRunStatus::from_name("bogus"), DagRunStatus::Queued);
    assert_eq!(TaskRunStatus::from_name("bogus"), TaskRunStatus::Pending);
    assert_eq!(TriggerType::from_name("bogus"), TriggerType::Manual);
}

#[test]
fn status_time_stamps() {
    assert!(DagRunStatus::Success.is_finished());
    assert!(DagRunStatus::Failed.is_finished());
    assert!(!DagRunStatus::Running.is_finished());
    assert!(TaskRunStatus::Running.marks_start());
    assert!(!TaskRunStatus::Retried.marks_start());
    assert!(TaskRunStatus::Skipped.marks_end());
    assert!(!TaskRunStatus::Retried.marks_end());
}

#[test]
fn execution_order_keeps_task_order_of_independent_tasks() {
    let dag = dag("d", vec![task("b", None), task("a", None), task("c", Some(vec!["a", "b"]))]);
    assert_eq!(dag.task_execution_order().unwrap(), vec!["b", "a", "c"]);
    let dag = dag_with_deps_first();
    assert_eq!(dag.task_execution_order().unwrap(), vec!["y", "z", "w"]);
}

fn dag_with_deps_first() -> ironflow::dag::definition::DagDefinition {
    dag("d", vec![task("z", Some(vec!["x", "y"])), task("w", None), task("y", Some(vec!["x"]))])
}
