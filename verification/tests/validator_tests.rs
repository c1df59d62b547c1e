use ironflow::dag::definition::{DagDefinition, TaskDefinition};
use ironflow::dag::validator::{DagValidator, ValidationError};
use ironflow::json::JsonValue;

fn create_test_task(id: &str, depends_on: Option<Vec<String>>) -> TaskDefinition {
    TaskDefinition {
        id: id.to_string(),
        operator: "bash".to_string(),
        depends_on,
        retries: None,
        retry_delay_secs: None,
        timeout_secs: None,
        xcom_inputs: None,
        config: JsonValue::Object(Vec::new()),
    }
}

fn dag_with(id: &str, schedule: Option<&str>, tasks: Vec<TaskDefinition>) -> DagDefinition {
    DagDefinition {
        id: id.to_string(),
        description: None,
        schedule: schedule.map(|s| s.to_string()),
        max_active_runs: None,
        catchup: None,
        tasks,
    }
}

#[test]
fn test_validate_valid_dag() {
    let dag = dag_with(
        "test_dag",
        Some("0 2 * * *"),
        vec![create_test_task("a", None), create_test_task("b", Some(vec!["a".to_string()]))],
    );
    assert!(DagValidator::validate(&dag).is_ok());
}

#[test]
fn test_validate_empty_id() {
    let dag = dag_with("", None, vec![create_test_task("a", None)]);
    assert!(DagValidator::validate(&dag).is_err());
}

#[test]
fn test_validate_duplicate_task_ids() {
    let dag = dag_with("test_dag", None, vec![create_test_task("a", None), create_test_task("a", None)]);
    assert!(DagValidator::validate(&dag).is_err());
}

#[test]
fn test_validate_missing_dependency() {
    let dag = dag_with(
        "test_dag",
        None,
        vec![create_test_task("a", None), create_test_task("b", Some(vec!["nonexistent".to_string()]))],
    );
    assert!(DagValidator::validate(&dag).is_err());
}

#[test]
fn test_validate_invalid_cron() {
    let dag = dag_with("test_dag", Some("invalid cron"), vec![create_test_task("a", None)]);
    assert!(DagValidator::validate(&dag).is_err());
}

#[test]
fn validation_errors_are_specific() {
    let empty = dag_with("", None, vec![]);
    assert_eq!(DagValidator::validate(&empty), Err(ValidationError::EmptyDagId));

    let dup = dag_with("d", None, vec![create_test_task("a", None), create_test_task("a", None)]);
    assert_eq!(DagValidator::validate(&dup), Err(ValidationError::DuplicateTaskId("a".to_string())));

    let missing = dag_with("d", None, vec![create_test_task("b", Some(vec!["x".to_string()]))]);
    assert_eq!(
        DagValidator::validate(&missing),
        Err(ValidationError::MissingDependency { task: "b".to_string(), dependency: "x".to_string() })
    );

    let cyclic = dag_with(
        "d",
        None,
        vec![create_test_task("a", Some(vec!["b".to_string()])), create_test_task("b", Some(vec!["a".to_string()]))],
    );
    match DagValidator::validate(&cyclic) {
        Err(ValidationError::Cycle(m)) => assert!(m.starts_with("Cycle detected involving task: ")),
        other => panic!("unexpected {:?}", other),
    }

    let two_fields = dag_with("d", Some("invalid cron"), vec![]);
    assert_eq!(DagValidator::validate(&two_fields), Err(ValidationError::CronFieldCount));

    let bad = dag_with("d", Some("99 * * * *"), vec![]);
    assert_eq!(DagValidator::validate(&bad), Err(ValidationError::InvalidCron("99 * * * *".to_string())));
}

#[test]
fn cycle_is_reported_before_duplicates() {
    let dag = dag_with(
        "d",
        None,
        vec![create_test_task("a", Some(vec!["a".to_string()])), create_test_task("a", None)],
    );
    assert!(matches!(DagValidator::validate(&dag), Err(ValidationError::Cycle(_))));
}

#[test]
fn cron_field_counts() {
    assert!(DagValidator::validate_cron("*/5 * * * *").is_ok());
    assert!(DagValidator::validate_cron("0 */5 * * * *").is_ok());
    assert!(DagValidator::validate_cron("0 0 12 * * * 2030").is_ok());
    assert_eq!(DagValidator::validate_cron("* * * *"), Err(ValidationError::CronFieldCount));
    assert_eq!(DagValidator::validate_cron("  "), Err(ValidationError::CronFieldCount));
    assert!(DagValidator::validate_cron("  0   2 *\t* *  ").is_ok());
}

#[test]
fn validation_messages() {
    assert_eq!(ValidationError::EmptyDagId.message(), "DAG ID cannot be empty");
    assert_eq!(ValidationError::DuplicateTaskId("a".to_string()).message(), "Duplicate task ID: a");
    assert_eq!(
        ValidationError::MissingDependency { task: "b".to_string(), dependency: "x".to_string() }.message(),
        "Task b depends on non-existent task: x"
    );
    assert_eq!(
        ValidationError::CronFieldCount.message(),
        "Invalid cron expression length. Expected 5, 6, or 7 fields"
    );
    assert_eq!(ValidationError::InvalidCron("x y".to_string()).message(), "Invalid cron expression: 'x y'");
    assert_eq!(
        ValidationError::Cycle("Cycle detected involving task: a".to_string()).message(),
        "DAG validation failed: Cycle detected involving task: a"
    );
}
