//! What the HTTP API answers.
use vstd::prelude::*;
use vstd::string::*;
use crate::dag::definition::{DagRun, TaskRun};
use crate::json::JsonValue;
use crate::text::{decimal, decimal_text};
use crate::timestamp::Timestamp;

verus! {

/// A DAG run as listed by the API.
#[derive(Debug, Clone)]
pub struct DagRunResponse {
    pub id: String,
    pub dag_id: String,
    pub status: String,
    pub started_at: String,
    pub triggered_by: String,
}

/// A task run as reported by the API.
#[derive(Debug, Clone)]
pub struct TaskRunResponse {
    pub id: String,
    pub dag_run_id: String,
    pub task_id: String,
    pub status: String,
    pub started_at: Option<String>,
    pub ended_at: Option<String>,
    pub attempt_number: u32,
    pub log: String,
}

/// A DAG with its recent runs, as shown on the dashboard.
#[derive(Debug, Clone)]
pub struct DashboardDagResponse {
    pub id: String,
    pub description: Option<String>,
    pub schedule: Option<String>,
    pub latest_run: Option<DagRunResponse>,
    pub runs: Vec<DagRunResponse>,
    pub tasks: Vec<JsonValue>,
}

/// A request to trigger a DAG.
#[derive(Debug, Clone)]
pub struct TriggerRequest {
    pub dag_id: String,
}

/// The envelope of every API answer.
#[derive(Debug, Clone)]
pub struct StatusResponse<T> {
    pub success: bool,
    pub data: Option<T>,
    pub error: Option<String>,
}

impl DagRunResponse {
    /// The summary of a run as the API lists it: ids, and the status and
    /// trigger by name.
    pub fn from_run(run: &DagRun) -> (r: DagRunResponse)
        ensures
            r.id@ == run.id@,
            r.dag_id@ == run.dag_id@,
            r.status@ == run.status.spec_name(),
            r.started_at@ == run.started_at.rfc3339(),
            r.triggered_by@ == run.triggered_by.spec_name(),
    {
        DagRunResponse {
            id: run.id.clone(),
            dag_id: run.dag_id.clone(),
            status: run.status.to_string(),
            started_at: run.started_at.to_rfc3339(),
            triggered_by: run.triggered_by.to_string(),
        }
    }
}

/// `e` is the member `key` holding the string `text`.
pub open spec fn str_entry(e: (String, JsonValue), key: Seq<char>, text: Seq<char>) -> bool {
    &&& e.0@ == key
    &&& (e.1 matches JsonValue::Str(s) && s@ == text)
}

/// `e` is the member `key` holding the RFC 3339 text of the time, or null
/// for no time.
pub open spec fn time_entry(e: (String, JsonValue), key: Seq<char>, t: Option<Timestamp>) -> bool {
    e.0@ == key && match t {
        Some(x) => e.1 matches JsonValue::Str(s) && s@ == x.rfc3339(),
        None => e.1 == JsonValue::Null,
    }
}

/// `v` describes the run: its id, DAG id, status, start and end times and
/// trigger, in that order.
pub open spec fn describes_run(run: DagRun, v: JsonValue) -> bool {
    match v {
        JsonValue::Object(es) => {
            &&& es@.len() == 6
            &&& str_entry(es@[0], "id"@, run.id@)
            &&& str_entry(es@[1], "dag_id"@, run.dag_id@)
            &&& str_entry(es@[2], "status"@, run.status.spec_name())
            &&& time_entry(es@[3], "started_at"@, Some(run.started_at))
            &&& time_entry(es@[4], "ended_at"@, run.ended_at)
            &&& str_entry(es@[5], "triggered_by"@, run.triggered_by.spec_name())
        },
        _ => false,
    }
}

/// `v` describes the task run: its id, task id, status, start and end
/// times, attempt number and log, in that order.
pub open spec fn describes_task_run(t: TaskRun, v: JsonValue) -> bool {
    match v {
        JsonValue::Object(es) => {
            &&& es@.len() == 7
            &&& str_entry(es@[0], "id"@, t.id@)
            &&& str_entry(es@[1], "task_id"@, t.task_id@)
            &&& str_entry(es@[2], "status"@, t.status.spec_name())
            &&& time_entry(es@[3], "started_at"@, t.started_at)
            &&& time_entry(es@[4], "ended_at"@, t.ended_at)
            &&& es@[5].0@ == "attempt_number"@
            &&& (es@[5].1 matches JsonValue::Number(n) && n@ == decimal(t.attempt_number as nat))
            &&& str_entry(es@[6], "log"@, t.log@)
        },
        _ => false,
    }
}

/// A time as JSON: its text, or null.
fn time_json(t: &Option<Timestamp>) -> (r: JsonValue)
    ensures
        match *t {
            Some(x) => r matches JsonValue::Str(s) && s@ == x.rfc3339(),
            None => r == JsonValue::Null,
        },
{
    match t {
        Some(x) => JsonValue::Str(x.to_rfc3339()),
        None => JsonValue::Null,
    }
}

/// The description of a run.
fn run_json(run: &DagRun) -> (r: JsonValue)
    ensures
        describes_run(*run, r),
{
    let mut es: Vec<(String, JsonValue)> = Vec::new();
    es.push((String::from_str("id"), JsonValue::Str(run.id.clone())));
    es.push((String::from_str("dag_id"), JsonValue::Str(run.dag_id.clone())));
    es.push((String::from_str("status"), JsonValue::Str(run.status.to_string())));
    es.push((String::from_str("started_at"), JsonValue::Str(run.started_at.to_rfc3339())));
    es.push((String::from_str("ended_at"), time_json(&run.ended_at)));
    es.push((String::from_str("triggered_by"), JsonValue::Str(run.triggered_by.to_string())));
    JsonValue::Object(es)
}

/// The description of a task run.
fn task_run_json(t: &TaskRun) -> (r: JsonValue)
    ensures
        describes_task_run(*t, r),
{
    let mut es: Vec<(String, JsonValue)> = Vec::new();
    es.push((String::from_str("id"), JsonValue::Str(t.id.clone())));
    es.push((String::from_str("task_id"), JsonValue::Str(t.task_id.clone())));
    es.push((String::from_str("status"), JsonValue::Str(t.status.to_string())));
    es.push((String::from_str("started_at"), time_json(&t.started_at)));
    es.push((String::from_str("ended_at"), time_json(&t.ended_at)));
    es.push((String::from_str("attempt_number"), JsonValue::Number(decimal_text(t.attempt_number))));
    es.push((String::from_str("log"), JsonValue::Str(t.log.clone())));
    JsonValue::Object(es)
}

/// The details of a run that the API reports: the run under `run`, and
/// its task runs, in order, under `tasks`.
pub fn run_details(run: &DagRun, task_runs: &Vec<TaskRun>) -> (r: JsonValue)
    ensures
        match r {
            JsonValue::Object(es) => {
                &&& es@.len() == 2
                &&& es@[0].0@ == "run"@
                &&& describes_run(*run, es@[0].1)
                &&& es@[1].0@ == "tasks"@
                &&& match es@[1].1 {
                    JsonValue::Array(items) => {
                        &&& items@.len() == task_runs@.len()
                        &&& forall|i: int|
                            0 <= i < task_runs@.len() ==> #[trigger] describes_task_run(task_runs@[i], items@[i])
                    },
                    _ => false,
                }
            },
            _ => false,
        },
{
    let mut items: Vec<JsonValue> = Vec::new();
    let mut i: usize = 0;
    while i < task_runs.len()
        invariant
            i <= task_runs@.len(),
            items@.len() == i,
            forall|j: int| 0 <= j < i ==> #[trigger] describes_task_run(task_runs@[j], items@[j]),
        decreases task_runs@.len() - i,
    {
        let item = task_run_json(&task_runs[i]);
        items.push(item);
        i = i + 1;
    }
    let mut es: Vec<(String, JsonValue)> = Vec::new();
    es.push((String::from_str("run"), run_json(run)));
    es.push((String::from_str("tasks"), JsonValue::Array(items)));
    JsonValue::Object(es)
}

/// The answer to a trigger: a message naming the DAG, and the new run's id.
pub fn trigger_response(dag_id: &str, run_id: String) -> (r: JsonValue)
    ensures
        match r {
            JsonValue::Object(es) => {
                &&& es@.len() == 2
                &&& str_entry(es@[0], "message"@, "DAG "@ + dag_id@ + " triggered successfully"@)
                &&& str_entry(es@[1], "run_id"@, run_id@)
            },
            _ => false,
        },
{
    let mut message = String::from_str("DAG ");
    message.append(dag_id);
    message.append(" triggered successfully");
    let mut es: Vec<(String, JsonValue)> = Vec::new();
    es.push((String::from_str("message"), JsonValue::Str(message)));
    es.push((String::from_str("run_id"), JsonValue::Str(run_id)));
    JsonValue::Object(es)
}

/// In the description of a task run, the `started_at` member is the text
/// of that run's own start time and `ended_at` that of its own end time
/// (null when the run has none); `attempt_number` is its attempt number
/// in decimal.
pub proof fn lemma_task_run_times(t: TaskRun, v: JsonValue)
    requires
        describes_task_run(t, v),
    ensures
        v is Object,
        v->Object_0@.len() == 7,
        v->Object_0@[0].1 matches JsonValue::Str(s) && s@ == t.id@,
        v->Object_0@[1].1 matches JsonValue::Str(s) && s@ == t.task_id@,
        v->Object_0@[2].1 matches JsonValue::Str(s) && s@ == t.status.spec_name(),
        v->Object_0@[6].1 matches JsonValue::Str(s) && s@ == t.log@,
        v->Object_0@[3].0@ == "started_at"@,
        v->Object_0@[4].0@ == "ended_at"@,
        match t.started_at {
            Some(x) => v->Object_0@[3].1 matches JsonValue::Str(s) && s@ == x.rfc3339(),
            None => v->Object_0@[3].1 == JsonValue::Null,
        },
        match t.ended_at {
            Some(x) => v->Object_0@[4].1 matches JsonValue::Str(s) && s@ == x.rfc3339(),
            None => v->Object_0@[4].1 == JsonValue::Null,
        },
        v->Object_0@[5].1 matches JsonValue::Number(n) && n@ == decimal(t.attempt_number as nat),
{
}

/// In the description of a run, `started_at` is the text of the run's
/// start time and `ended_at` that of its end time, or null.
pub proof fn lemma_run_times(run: DagRun, v: JsonValue)
    requires
        describes_run(run, v),
    ensures
        v is Object,
        v->Object_0@.len() == 6,
        v->Object_0@[0].1 matches JsonValue::Str(s) && s@ == run.id@,
        v->Object_0@[1].1 matches JsonValue::Str(s) && s@ == run.dag_id@,
        v->Object_0@[2].1 matches JsonValue::Str(s) && s@ == run.status.spec_name(),
        v->Object_0@[5].1 matches JsonValue::Str(s) && s@ == run.triggered_by.spec_name(),
        v->Object_0@[3].0@ == "started_at"@,
        v->Object_0@[3].1 matches JsonValue::Str(s) && s@ == run.started_at.rfc3339(),
        v->Object_0@[4].0@ == "ended_at"@,
        match run.ended_at {
            Some(x) => v->Object_0@[4].1 matches JsonValue::Str(s) && s@ == x.rfc3339(),
            None => v->Object_0@[4].1 == JsonValue::Null,
        },
{
}

} // verus!
