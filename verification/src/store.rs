//! The record-keeping rules of the run store: how stored rows read back as
//! runs, how new runs start out, and how a task run's row changes.
use vstd::prelude::*;
use vstd::string::*;
use crate::dag::definition::{DagRun, DagRunStatus, TaskRun, TaskRunStatus, TriggerType};
use crate::executor::xcom::object_insert;
use crate::json::{entry_insert, JsonValue};
use crate::text::{contains_str, spec_contains, starts_with};
use crate::timestamp::{rfc3339_parsed, Timestamp};

verus! {

/// The line appended to the log of a task run found running at start-up.
pub const ORPHANED_TASK_MESSAGE: &'static str = "Orphaned by executor crash — marked failed on restart";

/// A stored DAG run, as text.
#[derive(Debug, Clone)]
pub struct DagRunRow {
    pub id: String,
    pub dag_id: String,
    pub status: String,
    pub started_at: String,
    pub ended_at: Option<String>,
    pub triggered_by: String,
    pub run_number: i64,
}

/// A stored task run, as text.
#[derive(Debug, Clone)]
pub struct TaskRunRow {
    pub id: String,
    pub dag_run_id: String,
    pub task_id: String,
    pub status: String,
    pub started_at: Option<String>,
    pub ended_at: Option<String>,
    pub attempt_number: i64,
    pub log: String,
    pub xcom_output: Option<String>,
}

/// `t` is what reading the stored text `text` gives: the instant that RFC
/// 3339 parsing reads from it, or nothing when parsing rejects it.
pub open spec fn time_read(text: Seq<char>, t: Option<Timestamp>) -> bool {
    match rfc3339_parsed(text) {
        Some(p) => t matches Some(x) && x.seconds() == p.0 && x.nanoseconds() == p.1,
        None => t is None,
    }
}

/// An optional stored timestamp reads as the instant its text denotes; an
/// absent or unparsable one reads as absent.
pub open spec fn optional_time_read(text: Option<String>, t: Option<Timestamp>) -> bool {
    match text {
        Some(s) => time_read(s@, t),
        None => t is None,
    }
}

/// Reads an optional stored timestamp; unparsable text reads as absent.
pub fn read_optional_time(text: &Option<String>) -> (r: Option<Timestamp>)
    ensures
        optional_time_read(*text, r),
{
    match text {
        Some(s) => Timestamp::parse_rfc3339(s.as_str()),
        None => None,
    }
}

/// Reads a stored DAG run.  A row whose start time does not parse is not a
/// run; unknown status and trigger names read as queued and manual.
pub fn decode_dag_run(row: DagRunRow) -> (r: Option<DagRun>)
    ensures
        r is Some == rfc3339_parsed(row.started_at@) is Some,
        r matches Some(run) ==> {
            &&& time_read(row.started_at@, Some(run.started_at))
            &&& run.id == row.id
            &&& run.dag_id == row.dag_id
            &&& run.status == DagRunStatus::spec_from_name(row.status@)
            &&& optional_time_read(row.ended_at, run.ended_at)
            &&& run.triggered_by == TriggerType::spec_from_name(row.triggered_by@)
            &&& run.run_number == row.run_number as u32
        },
{
    let started_at = match Timestamp::parse_rfc3339(row.started_at.as_str()) {
        Some(t) => t,
        None => {
            return None;
        },
    };
    let status = DagRunStatus::from_name(row.status.as_str());
    let triggered_by = TriggerType::from_name(row.triggered_by.as_str());
    let ended_at = read_optional_time(&row.ended_at);
    Some(
        DagRun {
            id: row.id,
            dag_id: row.dag_id,
            status,
            started_at,
            ended_at,
            triggered_by,
            run_number: row.run_number as u32,
        },
    )
}

/// Reads a stored task run; unknown status names read as pending and
/// timestamps that do not parse read as absent.
pub fn decode_task_run(row: TaskRunRow) -> (r: TaskRun)
    ensures
        r.id == row.id,
        r.dag_run_id == row.dag_run_id,
        r.task_id == row.task_id,
        r.status == TaskRunStatus::spec_from_name(row.status@),
        optional_time_read(row.started_at, r.started_at),
        optional_time_read(row.ended_at, r.ended_at),
        r.attempt_number == row.attempt_number as u32,
        r.log == row.log,
        r.xcom_output == row.xcom_output,
{
    let status = TaskRunStatus::from_name(row.status.as_str());
    let started_at = read_optional_time(&row.started_at);
    let ended_at = read_optional_time(&row.ended_at);
    TaskRun {
        id: row.id,
        dag_run_id: row.dag_run_id,
        task_id: row.task_id,
        status,
        started_at,
        ended_at,
        attempt_number: row.attempt_number as u32,
        log: row.log,
        xcom_output: row.xcom_output,
    }
}

/// A new DAG run: queued, not ended, numbered one past the highest number
/// of the DAG's earlier runs.
pub fn new_dag_run(
    id: String,
    dag_id: String,
    started_at: Timestamp,
    triggered_by: TriggerType,
    run_number: i64,
) -> (r: DagRun)
    ensures
        r.id == id,
        r.dag_id == dag_id,
        r.status == DagRunStatus::Queued,
        r.started_at == started_at,
        r.ended_at is None,
        r.triggered_by == triggered_by,
        r.run_number == run_number as u32,
{
    DagRun {
        id,
        dag_id,
        status: DagRunStatus::Queued,
        started_at,
        ended_at: None,
        triggered_by,
        run_number: run_number as u32,
    }
}

/// A new task run: pending, first attempt, empty log, no times or output.
pub fn new_task_run(id: String, dag_run_id: String, task_id: String) -> (r: TaskRun)
    ensures
        r.id == id,
        r.dag_run_id == dag_run_id,
        r.task_id == task_id,
        r.status == TaskRunStatus::Pending,
        r.started_at is None,
        r.ended_at is None,
        r.attempt_number == 1,
        r.log@ == Seq::<char>::empty(),
        r.xcom_output is None,
{
    TaskRun {
        id,
        dag_run_id,
        task_id,
        status: TaskRunStatus::Pending,
        started_at: None,
        ended_at: None,
        attempt_number: 1,
        log: String::new(),
        xcom_output: None,
    }
}

/// A log with one more line.
pub open spec fn appended_log(log: Seq<char>, line: Seq<char>) -> Seq<char> {
    log + "\n"@ + line
}

/// The log with `line` appended on a line of its own.
pub fn append_log_line(log: &str, line: &str) -> (r: String)
    ensures
        r@ == appended_log(log@, line@),
{
    let mut s = log.to_owned();
    s.append("\n");
    s.append(line);
    s
}

/// How a task run's row changes when it enters a status.
#[derive(Debug, Clone)]
pub struct TaskRunUpdate {
    pub status: TaskRunStatus,
    /// Record the current time as start time, unless one is recorded.
    pub stamp_started: bool,
    /// Record the current time as end time (otherwise the end time is
    /// cleared).
    pub stamp_ended: bool,
    /// The new log, when it changes.
    pub new_log: Option<String>,
    /// The new output, when one is given (an existing one is kept otherwise).
    pub xcom_output: Option<String>,
}

/// The log after an update: `append` goes on a line of its own after the
/// current log when the run was found, replaces it when not; an update
/// that would leave the log empty leaves it unchanged.
pub open spec fn updated_log(current_log: Option<Seq<char>>, append: Option<Seq<char>>) -> Option<Seq<char>> {
    match append {
        None => None,
        Some(a) => {
            let l = match current_log {
                Some(c) => appended_log(c, a),
                None => a,
            };
            if l.len() == 0 {
                None
            } else {
                Some(l)
            }
        },
    }
}

/// Plans the update of a task run entering `status`: running records a
/// start time; success, failure and skip record an end time; `log_append`
/// extends the current log (`current_log`, when the run was found).
pub fn plan_task_run_update(
    status: TaskRunStatus,
    current_log: Option<&str>,
    log_append: Option<&str>,
    xcom_output: Option<String>,
) -> (r: TaskRunUpdate)
    ensures
        r.status == status,
        r.stamp_started == (status == TaskRunStatus::Running),
        r.stamp_ended == (status == TaskRunStatus::Success || status == TaskRunStatus::Failed || status
            == TaskRunStatus::Skipped),
        match updated_log(
            match current_log {
                Some(c) => Some(c@),
                None => None,
            },
            match log_append {
                Some(a) => Some(a@),
                None => None,
            },
        ) {
            Some(l) => r.new_log matches Some(n) && n@ == l,
            None => r.new_log is None,
        },
        r.xcom_output == xcom_output,
{
    let new_log: Option<String> = match log_append {
        None => None,
        Some(append) => {
            let l = match current_log {
                Some(c) => append_log_line(c, append),
                None => append.to_owned(),
            };
            if l.as_str().is_empty() {
                None
            } else {
                Some(l)
            }
        },
    };
    TaskRunUpdate {
        status,
        stamp_started: status.marks_start(),
        stamp_ended: status.marks_end(),
        new_log,
        xcom_output,
    }
}

/// The outputs of a run's tasks, in row order: each stored output is
/// recorded as a string under its task id, a later row replacing an
/// earlier one with the same task id.
pub open spec fn collected_xcoms(rows: Seq<(String, Option<String>)>) -> Seq<(String, JsonValue)>
    decreases rows.len(),
{
    if rows.len() == 0 {
        Seq::empty()
    } else {
        let acc = collected_xcoms(rows.drop_last());
        match rows.last().1 {
            Some(out) => entry_insert(acc, rows.last().0, JsonValue::Str(out)),
            None => acc,
        }
    }
}

/// Collects the outputs of a run's tasks into an object keyed by task id.
pub fn collect_xcoms(rows: Vec<(String, Option<String>)>) -> (r: JsonValue)
    ensures
        r matches JsonValue::Object(entries) && entries@ == collected_xcoms(rows@),
{
    let mut entries: Vec<(String, JsonValue)> = Vec::new();
    let mut i: usize = 0;
    while i < rows.len()
        invariant
            i <= rows@.len(),
            entries@ == collected_xcoms(rows@.subrange(0, i as int)),
        decreases rows@.len() - i,
    {
        proof {
            assert(rows@.subrange(0, i + 1).drop_last() =~= rows@.subrange(0, i as int));
            assert(rows@.subrange(0, i + 1).last() == rows@[i as int]);
        }
        match &rows[i].1 {
            Some(out) => {
                object_insert(&mut entries, rows[i].0.clone(), JsonValue::Str(out.clone()));
            },
            None => {},
        }
        i = i + 1;
    }
    proof {
        assert(rows@.subrange(0, i as int) =~= rows@);
    }
    JsonValue::Object(entries)
}

/// The connection string for a SQLite database URL: one that names no
/// open mode opens read-write and creates the file (`?mode=rwc`).
pub open spec fn spec_connection_url(database_url: Seq<char>) -> Seq<char> {
    if spec_contains(database_url, "mode="@) {
        database_url
    } else {
        database_url + "?mode=rwc"@
    }
}

/// The connection string for a SQLite database URL.
pub fn connection_url(database_url: &str) -> (r: String)
    ensures
        r@ == spec_connection_url(database_url@),
{
    if contains_str(database_url, "mode=") {
        database_url.to_owned()
    } else {
        let mut s = database_url.to_owned();
        s.append("?mode=rwc");
        s
    }
}

/// The database URL for a database path when starting the orchestrator:
/// relative paths (`./…`) and paths without a scheme are SQLite files.
pub open spec fn spec_start_database_url(db_path: Seq<char>) -> Seq<char> {
    if (db_path.len() >= 2 && db_path.subrange(0, 2) == "./"@) || !spec_contains(db_path, "://"@) {
        "sqlite://"@ + db_path
    } else {
        db_path
    }
}

/// The database URL for a database path when starting the orchestrator.
pub fn start_database_url(db_path: &str) -> (r: String)
    ensures
        r@ == spec_start_database_url(db_path@),
{
    proof {
        reveal_strlit("./");
    }
    if starts_with(db_path, "./") || !contains_str(db_path, "://") {
        let mut s = String::from_str("sqlite://");
        s.append(db_path);
        s
    } else {
        db_path.to_owned()
    }
}

/// The database URL for a database path in the other commands: always a
/// SQLite file.
pub fn database_url(db_path: &str) -> (r: String)
    ensures
        r@ == "sqlite://"@ + db_path@,
{
    let mut s = String::from_str("sqlite://");
    s.append(db_path);
    s
}

/// Appending a line keeps the log as it was, then a newline, then the line.
pub proof fn lemma_appended_log(log: Seq<char>, line: Seq<char>)
    ensures
        appended_log(log, line).len() == log.len() + 1 + line.len(),
        appended_log(log, line).subrange(0, log.len() as int) == log,
        appended_log(log, line)[log.len() as int] == '\n',
        appended_log(log, line).subrange(log.len() + 1int, appended_log(log, line).len() as int) == line,
{
    reveal_strlit("\n");
    let l = appended_log(log, line);
    assert(l.subrange(0, log.len() as int) =~= log);
    assert(l.subrange(log.len() + 1int, l.len() as int) =~= line);
}

/// An update without a line leaves the log alone; a line goes on a line of
/// its own after the log of a run that was found, and becomes the whole log
/// of one that was not (unless it is empty).
pub proof fn lemma_updated_log(current: Option<Seq<char>>, append: Option<Seq<char>>)
    ensures
        match (current, append) {
            (_, None) => updated_log(current, append) is None,
            (Some(c), Some(a)) => updated_log(current, append) == Some(appended_log(c, a)),
            (None, Some(a)) => updated_log(current, append) == if a.len() == 0 {
                None::<Seq<char>>
            } else {
                Some(a)
            },
        },
{
    reveal_strlit("\n");
}

/// A database URL that names an open mode is used as it is; any other gets
/// `?mode=rwc` appended and is otherwise kept.
pub proof fn lemma_connection_url(url: Seq<char>)
    ensures
        spec_contains(url, "mode="@) ==> spec_connection_url(url) == url,
        !spec_contains(url, "mode="@) ==> spec_connection_url(url).len() == url.len() + "?mode=rwc"@.len()
            && spec_connection_url(url).subrange(0, url.len() as int) == url && spec_connection_url(url).subrange(
            url.len() as int,
            spec_connection_url(url).len() as int,
        ) == "?mode=rwc"@,
{
    let u = url + "?mode=rwc"@;
    assert(u.subrange(0, url.len() as int) =~= url);
    assert(u.subrange(url.len() as int, u.len() as int) =~= "?mode=rwc"@);
}

/// When starting, a path that is relative (`./...`) or has no scheme opens
/// the SQLite file `sqlite://<path>`; any other path is a URL used as it is.
pub proof fn lemma_start_database_url(path: Seq<char>)
    ensures
        (path.len() >= 2 && path.subrange(0, 2) == "./"@) ==> spec_start_database_url(path) == "sqlite://"@ + path,
        !spec_contains(path, "://"@) ==> spec_start_database_url(path) == "sqlite://"@ + path,
        (spec_contains(path, "://"@) && !(path.len() >= 2 && path.subrange(0, 2) == "./"@))
            ==> spec_start_database_url(path) == path,
{
}

/// A stored time reads as the instant that parsing its text gives, and as
/// nothing exactly when parsing rejects the text.
pub proof fn lemma_time_read(text: Seq<char>, t: Option<Timestamp>)
    requires
        time_read(text, t),
    ensures
        t matches Some(x) ==> rfc3339_parsed(text) == Some((x.seconds(), x.nanoseconds())),
        t is None <==> rfc3339_parsed(text) is None,
{
}

} // verus!
