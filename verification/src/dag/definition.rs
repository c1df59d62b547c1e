//! DAG and task definitions, and the dependency-graph queries on them.
use vstd::prelude::*;
use vstd::string::*;
use crate::json::JsonValue;
use crate::text::str_equals;
use crate::timestamp::Timestamp;

verus! {

/// The character sequences of a sequence of strings.
pub open spec fn strs(s: Seq<String>) -> Seq<Seq<char>> {
    s.map_values(|x: String| x@)
}

/// The ids of a sequence of tasks.
pub open spec fn ids_of(tasks: Seq<TaskDefinition>) -> Seq<Seq<char>> {
    tasks.map_values(|t: TaskDefinition| t.id@)
}

/// A single task within a DAG.
#[derive(Debug, Clone)]
pub struct TaskDefinition {
    pub id: String,
    pub operator: String,
    pub depends_on: Option<Vec<String>>,
    pub retries: Option<u32>,
    pub retry_delay_secs: Option<u64>,
    pub timeout_secs: Option<u64>,
    /// Upstream tasks whose results are passed into the task's configuration.
    pub xcom_inputs: Option<Vec<String>>,
    /// Operator-specific configuration (the remaining fields of the task).
    pub config: JsonValue,
}

/// A complete DAG (directed acyclic graph) of tasks.
#[derive(Debug, Clone)]
pub struct DagDefinition {
    pub id: String,
    pub description: Option<String>,
    /// Cron expression.
    pub schedule: Option<String>,
    pub max_active_runs: Option<u32>,
    pub catchup: Option<bool>,
    pub tasks: Vec<TaskDefinition>,
}

/// One execution instance of a DAG.  Times are UTC instants.
#[derive(Debug, Clone)]
pub struct DagRun {
    pub id: String,
    pub dag_id: String,
    pub status: DagRunStatus,
    pub started_at: Timestamp,
    pub ended_at: Option<Timestamp>,
    pub triggered_by: TriggerType,
    pub run_number: u32,
}

/// The state of a DAG run.
#[derive(Debug, Clone, Copy, PartialEq, Eq, Structural)]
pub enum DagRunStatus {
    Queued,
    Running,
    Success,
    Failed,
}

/// What started a DAG run.
#[derive(Debug, Clone, Copy, PartialEq, Eq, Structural)]
pub enum TriggerType {
    Schedule,
    Manual,
}

/// One execution of a task within a DAG run.  Times are UTC instants.
#[derive(Debug, Clone)]
pub struct TaskRun {
    pub id: String,
    pub dag_run_id: String,
    pub task_id: String,
    pub status: TaskRunStatus,
    pub started_at: Option<Timestamp>,
    pub ended_at: Option<Timestamp>,
    pub attempt_number: u32,
    pub log: String,
    /// JSON text produced by the task.
    pub xcom_output: Option<String>,
}

/// The state of a task run.
#[derive(Debug, Clone, Copy, PartialEq, Eq, Structural)]
pub enum TaskRunStatus {
    Pending,
    Running,
    Success,
    Failed,
    Retried,
    Skipped,
}

impl DagRunStatus {
    /// The lowercase name of the status.
    pub open spec fn spec_name(self) -> Seq<char> {
        match self {
            DagRunStatus::Queued => "queued"@,
            DagRunStatus::Running => "running"@,
            DagRunStatus::Success => "success"@,
            DagRunStatus::Failed => "failed"@,
        }
    }

    /// The status a stored name denotes; unknown names denote `Queued`.
    pub open spec fn spec_from_name(name: Seq<char>) -> DagRunStatus {
        if name == "running"@ {
            DagRunStatus::Running
        } else if name == "success"@ {
            DagRunStatus::Success
        } else if name == "failed"@ {
            DagRunStatus::Failed
        } else {
            DagRunStatus::Queued
        }
    }

    /// The lowercase name of the status.
    pub fn to_string(&self) -> (r: String)
        ensures
            r@ == self.spec_name(),
    {
        match self {
            DagRunStatus::Queued => String::from_str("queued"),
            DagRunStatus::Running => String::from_str("running"),
            DagRunStatus::Success => String::from_str("success"),
            DagRunStatus::Failed => String::from_str("failed"),
        }
    }

    /// The status named `name`; `Queued` for any other text.
    pub fn from_name(name: &str) -> (r: DagRunStatus)
        ensures
            r == Self::spec_from_name(name@),
    {
        if str_equals(name, "running") {
            DagRunStatus::Running
        } else if str_equals(name, "success") {
            DagRunStatus::Success
        } else if str_equals(name, "failed") {
            DagRunStatus::Failed
        } else {
            DagRunStatus::Queued
        }
    }

    /// Whether the run has ended (succeeded or failed).
    pub fn is_finished(&self) -> (r: bool)
        ensures
            r == (*self == DagRunStatus::Success || *self == DagRunStatus::Failed),
    {
        match self {
            DagRunStatus::Success | DagRunStatus::Failed => true,
            _ => false,
        }
    }
}

impl TriggerType {
    /// The lowercase name of the trigger.
    pub open spec fn spec_name(self) -> Seq<char> {
        match self {
            TriggerType::Schedule => "schedule"@,
            TriggerType::Manual => "manual"@,
        }
    }

    /// The trigger a stored name denotes; unknown names denote `Manual`.
    pub open spec fn spec_from_name(name: Seq<char>) -> TriggerType {
        if name == "schedule"@ {
            TriggerType::Schedule
        } else {
            TriggerType::Manual
        }
    }

    /// The lowercase name of the trigger.
    pub fn to_string(&self) -> (r: String)
        ensures
            r@ == self.spec_name(),
    {
        match self {
            TriggerType::Schedule => String::from_str("schedule"),
            TriggerType::Manual => String::from_str("manual"),
        }
    }

    /// The trigger named `name`; `Manual` for any other text.
    pub fn from_name(name: &str) -> (r: TriggerType)
        ensures
            r == Self::spec_from_name(name@),
    {
        if str_equals(name, "schedule") {
            TriggerType::Schedule
        } else {
            TriggerType::Manual
        }
    }
}

impl TaskRunStatus {
    /// The lowercase name of the status.
    pub open spec fn spec_name(self) -> Seq<char> {
        match self {
            TaskRunStatus::Pending => "pending"@,
            TaskRunStatus::Running => "running"@,
            TaskRunStatus::Success => "success"@,
            TaskRunStatus::Failed => "failed"@,
            TaskRunStatus::Retried => "retried"@,
            TaskRunStatus::Skipped => "skipped"@,
        }
    }

    /// The status a stored name denotes; unknown names denote `Pending`.
    pub open spec fn spec_from_name(name: Seq<char>) -> TaskRunStatus {
        if name == "running"@ {
            TaskRunStatus::Running
        } else if name == "success"@ {
            TaskRunStatus::Success
        } else if name == "failed"@ {
            TaskRunStatus::Failed
        } else if name == "retried"@ {
            TaskRunStatus::Retried
        } else if name == "skipped"@ {
            TaskRunStatus::Skipped
        } else {
            TaskRunStatus::Pending
        }
    }

    /// The lowercase name of the status.
    pub fn to_string(&self) -> (r: String)
        ensures
            r@ == self.spec_name(),
    {
        match self {
            TaskRunStatus::Pending => String::from_str("pending"),
            TaskRunStatus::Running => String::from_str("running"),
            TaskRunStatus::Success => String::from_str("success"),
            TaskRunStatus::Failed => String::from_str("failed"),
            TaskRunStatus::Retried => String::from_str("retried"),
            TaskRunStatus::Skipped => String::from_str("skipped"),
        }
    }

    /// The status named `name`; `Pending` for any other text.
    pub fn from_name(name: &str) -> (r: TaskRunStatus)
        ensures
            r == Self::spec_from_name(name@),
    {
        if str_equals(name, "running") {
            TaskRunStatus::Running
        } else if str_equals(name, "success") {
            TaskRunStatus::Success
        } else if str_equals(name, "failed") {
            TaskRunStatus::Failed
        } else if str_equals(name, "retried") {
            TaskRunStatus::Retried
        } else if str_equals(name, "skipped") {
            TaskRunStatus::Skipped
        } else {
            TaskRunStatus::Pending
        }
    }

    /// Whether entering this status records a start time (running).
    pub fn marks_start(&self) -> (r: bool)
        ensures
            r == (*self == TaskRunStatus::Running),
    {
        match self {
            TaskRunStatus::Running => true,
            _ => false,
        }
    }

    /// Whether entering this status records an end time (success, failure
    /// or skip).
    pub fn marks_end(&self) -> (r: bool)
        ensures
            r == (*self == TaskRunStatus::Success || *self == TaskRunStatus::Failed || *self
                == TaskRunStatus::Skipped),
    {
        match self {
            TaskRunStatus::Success | TaskRunStatus::Failed | TaskRunStatus::Skipped => true,
            _ => false,
        }
    }
}

/// Reading back the stored name of a DAG run status gives the status.
pub proof fn lemma_dag_run_status_name_round_trip(s: DagRunStatus)
    ensures
        DagRunStatus::spec_from_name(s.spec_name()) == s,
{
    reveal_strlit("queued");
    reveal_strlit("running");
    reveal_strlit("success");
    reveal_strlit("failed");
    assert("queued"@[0] == 'q' && "running"@[0] == 'r' && "success"@[0] == 's' && "failed"@[0] == 'f');
}

/// Reading back the stored name of a trigger gives the trigger.
pub proof fn lemma_trigger_name_round_trip(t: TriggerType)
    ensures
        TriggerType::spec_from_name(t.spec_name()) == t,
{
    reveal_strlit("schedule");
    reveal_strlit("manual");
    assert("schedule"@[0] == 's' && "manual"@[0] == 'm');
}

/// Reading back the stored name of a task run status gives the status.
pub proof fn lemma_task_run_status_name_round_trip(s: TaskRunStatus)
    ensures
        TaskRunStatus::spec_from_name(s.spec_name()) == s,
{
    reveal_strlit("pending");
    reveal_strlit("running");
    reveal_strlit("success");
    reveal_strlit("failed");
    reveal_strlit("retried");
    reveal_strlit("skipped");
    assert("pending"@[0] == 'p' && "running"@[0] == 'r' && "success"@[0] == 's' && "failed"@[0] == 'f'
        && "retried"@[0] == 'r' && "skipped"@[0] == 's');
    assert("running"@[1] == 'u' && "retried"@[1] == 'e' && "success"@[1] == 'u' && "skipped"@[1] == 'k');
}

impl TaskDefinition {
    /// The dependencies of the task.
    pub open spec fn spec_dependencies(self) -> Seq<Seq<char>> {
        match self.depends_on {
            Some(v) => strs(v@),
            None => Seq::empty(),
        }
    }

    /// The upstream tasks whose results the task receives.
    pub open spec fn spec_xcom_dependencies(self) -> Seq<Seq<char>> {
        match self.xcom_inputs {
            Some(v) => strs(v@),
            None => Seq::empty(),
        }
    }

    /// The dependencies of the task (none when `depends_on` is absent).
    pub fn dependencies(&self) -> (r: Vec<String>)
        ensures
            strs(r@) == self.spec_dependencies(),
    {
        match &self.depends_on {
            Some(v) => copy_strings(v),
            None => Vec::new(),
        }
    }

    /// The ids whose outputs are injected (none when `xcom_inputs` is absent).
    pub fn xcom_dependencies(&self) -> (r: Vec<String>)
        ensures
            strs(r@) == self.spec_xcom_dependencies(),
    {
        match &self.xcom_inputs {
            Some(v) => copy_strings(v),
            None => Vec::new(),
        }
    }
}

/// A copy of a vector of strings.
pub fn copy_strings(v: &Vec<String>) -> (r: Vec<String>)
    ensures
        strs(r@) == strs(v@),
{
    let mut out: Vec<String> = Vec::new();
    let mut i: usize = 0;
    while i < v.len()
        invariant
            i <= v@.len(),
            strs(out@) == strs(v@).subrange(0, i as int),
        decreases v@.len() - i,
    {
        let s = v[i].clone();
        let ghost prev = out@;
        out.push(s);
        proof {
            assert(strs(prev).len() == i);
            assert(prev.len() == i);
            assert(s@ == v@[i as int]@);
            assert(out@ == prev.push(s));
            assert(out@.len() == i + 1);
            assert(strs(out@).len() == i + 1);
            assert forall|k: int| 0 <= k <= i implies strs(out@)[k] == strs(v@)[k] by {
                if k < i {
                    assert(strs(prev)[k] == strs(v@).subrange(0, i as int)[k]);
                }
            }
        }
        i = i + 1;
        proof {
            assert(strs(out@) =~= strs(v@).subrange(0, i as int));
        }
    }
    proof {
        assert(strs(v@).subrange(0, i as int) =~= strs(v@));
    }
    out
}

/// Whether `s` occurs in `v`.
pub fn contains_string(v: &Vec<String>, s: &String) -> (r: bool)
    ensures
        r == strs(v@).contains(s@),
{
    let mut i: usize = 0;
    while i < v.len()
        invariant
            i <= v@.len(),
            forall|j: int| 0 <= j < i ==> v@[j]@ != s@,
        decreases v@.len() - i,
    {
        if v[i] == *s {
            proof {
                assert(strs(v@)[i as int] == s@);
            }
            return true;
        }
        i = i + 1;
    }
    proof {
        if strs(v@).contains(s@) {
            let k = choose|k: int| 0 <= k < strs(v@).len() && strs(v@)[k] == s@;
            assert(v@[k]@ == s@);
        }
    }
    false
}

impl DagDefinition {
    /// The ids of the tasks, in order.
    pub open spec fn task_ids(self) -> Seq<Seq<char>> {
        ids_of(self.tasks@)
    }

    /// `i` is the position of the first task whose id is `id`.
    pub open spec fn is_first_task(self, id: Seq<char>, i: int) -> bool {
        &&& 0 <= i < self.tasks@.len()
        &&& self.tasks@[i].id@ == id
        &&& forall|j: int| 0 <= j < i ==> self.tasks@[j].id@ != id
    }

    /// Some task has id `id`.
    pub open spec fn has_task(self, id: Seq<char>) -> bool {
        exists|i: int| 0 <= i < self.tasks@.len() && self.tasks@[i].id@ == id
    }

    /// The task that a lookup by `id` finds: the first one with that id.
    pub open spec fn spec_get_task(self, id: Seq<char>) -> Option<TaskDefinition> {
        if exists|i: int| self.is_first_task(id, i) {
            Some(self.tasks@[choose|i: int| self.is_first_task(id, i)])
        } else {
            None
        }
    }

    /// The dependencies of the task found by `id`; none for unknown ids.
    pub open spec fn task_deps(self, id: Seq<char>) -> Seq<Seq<char>> {
        match self.spec_get_task(id) {
            Some(t) => t.spec_dependencies(),
            None => Seq::empty(),
        }
    }

    /// A dependency path: each element is a dependency of the one before it.
    pub open spec fn is_dep_path(self, p: Seq<Seq<char>>) -> bool {
        &&& p.len() >= 1
        &&& forall|k: int| 0 <= k < p.len() - 1 ==> #[trigger] self.task_deps(p[k]).contains(p[k + 1])
    }

    /// `x` lies on a cycle of dependencies.
    pub open spec fn on_cycle(self, x: Seq<char>) -> bool {
        exists|p: Seq<Seq<char>>|
            #![trigger self.is_dep_path(p)]
            p.len() >= 2 && self.is_dep_path(p) && p[0] == x && p.last() == x
    }

    /// The dependencies contain a cycle.
    pub open spec fn has_cycle(self) -> bool {
        exists|x: Seq<char>| #[trigger] self.on_cycle(x)
    }

    /// `order` lists every task id once, each after those of its
    /// dependencies that name tasks.
    pub open spec fn is_execution_order(self, order: Seq<Seq<char>>) -> bool {
        &&& order.no_duplicates()
        &&& forall|x: Seq<char>| #[trigger] order.contains(x) <==> self.task_ids().contains(x)
        &&& self.deps_precede(order)
    }

    /// The ids of the tasks with no dependencies, in task order.
    pub open spec fn spec_root_tasks(self) -> Seq<Seq<char>> {
        self.tasks@.filter(|t: TaskDefinition| t.spec_dependencies().len() == 0).map_values(
            |t: TaskDefinition| t.id@,
        )
    }

    /// The ids of the tasks that depend on `id`, in task order.
    pub open spec fn spec_dependents(self, id: Seq<char>) -> Seq<Seq<char>> {
        self.tasks@.filter(|t: TaskDefinition| t.spec_dependencies().contains(id)).map_values(
            |t: TaskDefinition| t.id@,
        )
    }

    /// The task with id `id` exists and all its dependencies are in `completed`.
    pub open spec fn spec_dependencies_satisfied(self, id: Seq<char>, completed: Seq<Seq<char>>) -> bool {
        match self.spec_get_task(id) {
            Some(t) => forall|d: Seq<char>| #[trigger] t.spec_dependencies().contains(d) ==> completed.contains(d),
            None => false,
        }
    }
}

impl DagDefinition {
    /// Position of the first task with id `task_id`.
    fn find_task(&self, task_id: &String) -> (r: Option<usize>)
        ensures
            match r {
                Some(i) => self.is_first_task(task_id@, i as int),
                None => !self.has_task(task_id@),
            },
    {
        let mut i: usize = 0;
        while i < self.tasks.len()
            invariant
                i <= self.tasks@.len(),
                forall|j: int| 0 <= j < i ==> self.tasks@[j].id@ != task_id@,
            decreases self.tasks@.len() - i,
        {
            if self.tasks[i].id == *task_id {
                return Some(i);
            }
            i = i + 1;
        }
        None
    }

    /// The first task with id `task_id`.
    pub fn get_task(&self, task_id: &str) -> (r: Option<&TaskDefinition>)
        ensures
            match r {
                Some(t) => self.spec_get_task(task_id@) == Some(*t),
                None => self.spec_get_task(task_id@) is None && !self.has_task(task_id@),
            },
    {
        let key = task_id.to_owned();
        match self.find_task(&key) {
            Some(i) => {
                proof {
                    lemma_first_task_unique(*self, key@, i as int);
                }
                Some(&self.tasks[i])
            },
            None => None,
        }
    }

    /// The ids of the tasks with no dependencies.
    pub fn root_tasks(&self) -> (r: Vec<String>)
        ensures
            strs(r@) == self.spec_root_tasks(),
    {
        let ghost pred = |t: TaskDefinition| t.spec_dependencies().len() == 0;
        let mut out: Vec<String> = Vec::new();
        let mut i: usize = 0;
        while i < self.tasks.len()
            invariant
                i <= self.tasks@.len(),
                pred == (|t: TaskDefinition| t.spec_dependencies().len() == 0),
                strs(out@) == self.tasks@.subrange(0, i as int).filter(pred).map_values(
                    |t: TaskDefinition| t.id@,
                ),
            decreases self.tasks@.len() - i,
        {
            let task = &self.tasks[i];
            let deps = task.dependencies();
            proof {
                lemma_filter_map_step(self.tasks@, pred, i as int);
            }
            let ghost prev = out@;
            if deps.len() == 0 {
                let id = task.id.clone();
                out.push(id);
                proof {
                    lemma_map_push(prev, id, |x: String| x@);
                    lemma_map_push(
                        self.tasks@.subrange(0, i as int).filter(pred),
                        self.tasks@[i as int],
                        |t: TaskDefinition| t.id@,
                    );
                }
            }
            proof {
                assert(deps@.len() == strs(deps@).len());
                assert(pred(self.tasks@[i as int]) == (deps@.len() == 0));
            }
            i = i + 1;
        }
        proof {
            assert(self.tasks@.subrange(0, i as int) =~= self.tasks@);
        }
        out
    }

    /// The ids of the tasks that depend on `task_id`.
    pub fn dependents(&self, task_id: &str) -> (r: Vec<String>)
        ensures
            strs(r@) == self.spec_dependents(task_id@),
    {
        let key = task_id.to_owned();
        let ghost pred = |t: TaskDefinition| t.spec_dependencies().contains(task_id@);
        let mut out: Vec<String> = Vec::new();
        let mut i: usize = 0;
        while i < self.tasks.len()
            invariant
                i <= self.tasks@.len(),
                key@ == task_id@,
                pred == (|t: TaskDefinition| t.spec_dependencies().contains(task_id@)),
                strs(out@) == self.tasks@.subrange(0, i as int).filter(pred).map_values(
                    |t: TaskDefinition| t.id@,
                ),
            decreases self.tasks@.len() - i,
        {
            let task = &self.tasks[i];
            let deps = task.dependencies();
            proof {
                lemma_filter_map_step(self.tasks@, pred, i as int);
            }
            let ghost prev = out@;
            if contains_string(&deps, &key) {
                let id = task.id.clone();
                out.push(id);
                proof {
                    lemma_map_push(prev, id, |x: String| x@);
                    lemma_map_push(
                        self.tasks@.subrange(0, i as int).filter(pred),
                        self.tasks@[i as int],
                        |t: TaskDefinition| t.id@,
                    );
                }
            }
            i = i + 1;
        }
        proof {
            assert(self.tasks@.subrange(0, i as int) =~= self.tasks@);
        }
        out
    }

    /// Whether the task `task_id` exists and every one of its dependencies
    /// is in `completed_tasks`.
    pub fn dependencies_satisfied(&self, task_id: &str, completed_tasks: &Vec<String>) -> (r: bool)
        ensures
            r == self.spec_dependencies_satisfied(task_id@, strs(completed_tasks@)),
    {
        match self.get_task(task_id) {
            Some(task) => {
                let deps = task.dependencies();
                let mut i: usize = 0;
                while i < deps.len()
                    invariant
                        i <= deps@.len(),
                        strs(deps@) == task.spec_dependencies(),
                        self.spec_get_task(task_id@) == Some(*task),
                        forall|j: int| 0 <= j < i ==> strs(completed_tasks@).contains(#[trigger] strs(deps@)[j]),
                    decreases deps@.len() - i,
                {
                    if !contains_string(completed_tasks, &deps[i]) {
                        proof {
                            assert(strs(deps@)[i as int] == deps@[i as int]@);
                            assert(task.spec_dependencies().contains(strs(deps@)[i as int]));
                        }
                        return false;
                    }
                    i = i + 1;
                }
                proof {
                    assert forall|d: Seq<char>| #[trigger] task.spec_dependencies().contains(d) implies strs(
                        completed_tasks@,
                    ).contains(d) by {
                        let k = choose|k: int| 0 <= k < strs(deps@).len() && strs(deps@)[k] == d;
                    }
                }
                true
            },
            None => false,
        }
    }
}

/// The message given for a dependency cycle through `x`.
pub open spec fn cycle_message(x: Seq<char>) -> Seq<char> {
    "Cycle detected involving task: "@ + x
}

impl DagDefinition {
    /// Each element's dependencies that name tasks occur before it.
    pub open spec fn deps_precede(self, order: Seq<Seq<char>>) -> bool {
        forall|i: int, d: Seq<char>|
            0 <= i < order.len() && #[trigger] self.task_deps(order[i]).contains(d) && self.task_ids().contains(d)
                ==> exists|j: int| 0 <= j < i && #[trigger] order[j] == d
    }

    /// What holds of the partial order and the stack of tasks being
    /// visited between steps of the depth-first search.
    pub open spec fn search_state(self, result: Seq<Seq<char>>, visiting: Seq<Seq<char>>) -> bool {
        &&& result.no_duplicates()
        &&& visiting.no_duplicates()
        &&& forall|x: Seq<char>| #[trigger] result.contains(x) ==> self.task_ids().contains(x)
        &&& forall|x: Seq<char>| #[trigger] visiting.contains(x) ==> self.task_ids().contains(x) && !result.contains(x)
        &&& self.deps_precede(result)
        &&& visiting.len() > 0 ==> self.is_dep_path(visiting)
    }
}

impl DagDefinition {
    /// The number of distinct task ids; no search path holds more.
    pub open spec fn id_count(self) -> nat {
        self.task_ids().to_set().len()
    }

    /// The depth-first visit of `x`, given the ids placed so far and the
    /// path of ids being visited: an id already placed stays; an id met
    /// again on the path is the error; otherwise the dependencies that
    /// name tasks are visited in their listed order, then `x` is placed.
    pub open spec fn dfs_visit(self, result: Seq<Seq<char>>, visiting: Seq<Seq<char>>, x: Seq<char>) -> Result<
        Seq<Seq<char>>,
        Seq<char>,
    >
        decreases self.id_count() - visiting.len(), 0int,
    {
        if result.contains(x) {
            Ok(result)
        } else if visiting.contains(x) {
            Err(x)
        } else if visiting.len() >= self.id_count() {
            Ok(result)
        } else {
            match self.dfs_deps(result, visiting.push(x), self.task_deps(x), 0) {
                Ok(r) => Ok(r.push(x)),
                Err(e) => Err(e),
            }
        }
    }

    /// The visits of the dependencies `deps[i..]` that name tasks, in order,
    /// stopping at the first error.
    pub open spec fn dfs_deps(
        self,
        result: Seq<Seq<char>>,
        visiting: Seq<Seq<char>>,
        deps: Seq<Seq<char>>,
        i: int,
    ) -> Result<Seq<Seq<char>>, Seq<char>>
        decreases self.id_count() - visiting.len(), deps.len() - i + 1,
    {
        if i < 0 || i >= deps.len() {
            Ok(result)
        } else if !self.task_ids().contains(deps[i]) {
            self.dfs_deps(result, visiting, deps, i + 1)
        } else {
            match self.dfs_visit(result, visiting, deps[i]) {
                Ok(r) => self.dfs_deps(r, visiting, deps, i + 1),
                Err(e) => Err(e),
            }
        }
    }

    /// The depth-first visits of the first `n` tasks, in task order, from
    /// an empty path, stopping at the first error.
    pub open spec fn dfs_tasks(self, n: int) -> Result<Seq<Seq<char>>, Seq<char>>
        decreases n,
    {
        if n <= 0 {
            Ok(Seq::empty())
        } else {
            match self.dfs_tasks(n - 1) {
                Ok(r) => self.dfs_visit(r, Seq::empty(), self.task_ids()[n - 1]),
                Err(e) => Err(e),
            }
        }
    }

    /// The execution order: the depth-first visits of all tasks, in task
    /// order; or the id met again on a search path.
    pub open spec fn spec_execution_order(self) -> Result<Seq<Seq<char>>, Seq<char>> {
        self.dfs_tasks(self.tasks@.len() as int)
    }
}

impl DagDefinition {
    /// Depth-first visit of `task_id`: its dependencies are placed in
    /// `result` before it; `visiting` holds the path being explored.
    fn visit(
        &self,
        task_id: &String,
        result: &mut Vec<String>,
        visiting: &mut Vec<String>,
    ) -> (r: Result<(), String>)
        requires
            self.task_ids().contains(task_id@),
            self.search_state(strs(old(result)@), strs(old(visiting)@)),
            old(visiting)@.len() > 0 ==> self.task_deps(strs(old(visiting)@).last()).contains(task_id@),
        ensures
            match r {
                Ok(()) => {
                    &&& final(visiting)@ == old(visiting)@
                    &&& old(result)@.len() <= final(result)@.len()
                    &&& forall|i: int| 0 <= i < old(result)@.len() ==> final(result)@[i] == old(result)@[i]
                    &&& strs(final(result)@).contains(task_id@)
                    &&& self.search_state(strs(final(result)@), strs(final(visiting)@))
                    &&& self.dfs_visit(strs(old(result)@), strs(old(visiting)@), task_id@) == Ok::<
                        Seq<Seq<char>>,
                        Seq<char>,
                    >(strs(final(result)@))
                },
                Err(e) => exists|x: Seq<char>|
                    #![trigger self.on_cycle(x)]
                    self.on_cycle(x) && e@ == cycle_message(x) && self.dfs_visit(
                        strs(old(result)@),
                        strs(old(visiting)@),
                        task_id@,
                    ) == Err::<Seq<Seq<char>>, Seq<char>>(x),
            },
        decreases self.id_count() - old(visiting)@.len(),
    {
        if contains_string(result, task_id) {
            return Ok(());
        }
        if contains_string(visiting, task_id) {
            proof {
                let vs = strs(visiting@);
                let j = choose|j: int| 0 <= j < vs.len() && vs[j] == task_id@;
                let p = vs.subrange(j, vs.len() as int).push(task_id@);
                assert forall|k: int| 0 <= k < p.len() - 1 implies #[trigger] self.task_deps(p[k]).contains(
                    p[k + 1],
                ) by {
                    if k < p.len() - 2 {
                        assert(self.task_deps(vs[j + k]).contains(vs[j + k + 1]));
                    }
                }
                assert(self.is_dep_path(p));
                assert(self.on_cycle(task_id@));
            }
            let mut msg = String::from_str("Cycle detected involving task: ");
            msg.append(task_id.as_str());
            proof {
                assert(msg@ == cycle_message(task_id@));
                assert(self.on_cycle(task_id@) && msg@ == cycle_message(task_id@));
            }
            return Err(msg);
        }
        let ghost vis0 = visiting@;
        let ghost res0 = result@;
        proof {
            assert forall|x: Seq<char>| #[trigger] strs(vis0).push(task_id@).contains(x) implies self.task_ids().contains(x) by {
                if x != task_id@ {
                    let m = choose|m: int| 0 <= m < strs(vis0).push(task_id@).len() && strs(vis0).push(task_id@)[m] == x;
                    assert(strs(vis0)[m] == x);
                    assert(strs(vis0).contains(x));
                }
            }
            lemma_stack_bounded(*self, strs(vis0).push(task_id@));
            assert(!strs(res0).contains(task_id@));
            assert(!strs(vis0).contains(task_id@));
            assert(strs(vis0.push(*task_id)) =~= strs(vis0).push(task_id@));
        }
        visiting.push(task_id.clone());
        proof {
            assert(strs(visiting@) =~= strs(vis0).push(task_id@));
            assert(self.is_dep_path(strs(visiting@))) by {
                let vs = strs(visiting@);
                assert forall|k: int| 0 <= k < vs.len() - 1 implies #[trigger] self.task_deps(vs[k]).contains(
                    vs[k + 1],
                ) by {
                    if k < vs.len() - 2 {
                        assert(self.task_deps(strs(vis0)[k]).contains(strs(vis0)[k + 1]));
                    }
                }
            }
            assert(self.search_state(strs(result@), strs(visiting@))) by {
                assert forall|x: Seq<char>| #[trigger] strs(visiting@).contains(x) implies self.task_ids().contains(x)
                    && !strs(result@).contains(x) by {
                    if x != task_id@ {
                        let m = choose|m: int| 0 <= m < strs(visiting@).len() && strs(visiting@)[m] == x;
                        assert(strs(vis0)[m] == x);
                        assert(strs(vis0).contains(x));
                    }
                }
            }
            assert(vis0.len() + 1 <= self.id_count());
        }
        match self.find_task(task_id) {
            Some(idx) => {
                let deps = self.tasks[idx].dependencies();
                proof {
                    lemma_first_task_unique(*self, task_id@, idx as int);
                    assert(self.task_ids()[idx as int] == task_id@);
                }
                let mut k: usize = 0;
                while k < deps.len()
                    invariant
                        k <= deps@.len(),
                        strs(deps@) == self.task_deps(task_id@),
                        self.task_ids().contains(task_id@),
                        strs(visiting@) == strs(vis0).push(task_id@),
                        visiting@ == vis0.push(*task_id),
                        vis0 == old(visiting)@,
                        res0 == old(result)@,
                        vis0.len() + 1 <= self.id_count(),
                        self.dfs_visit(strs(res0), strs(vis0), task_id@) == match self.dfs_deps(
                            strs(result@),
                            strs(vis0).push(task_id@),
                            self.task_deps(task_id@),
                            k as int,
                        ) {
                            Ok(r) => Ok::<Seq<Seq<char>>, Seq<char>>(r.push(task_id@)),
                            Err(e) => Err(e),
                        },
                        self.search_state(strs(result@), strs(visiting@)),
                        res0.len() <= result@.len(),
                        forall|i: int| 0 <= i < res0.len() ==> result@[i] == res0[i],
                        forall|j: int|
                            0 <= j < k && self.task_ids().contains(#[trigger] strs(deps@)[j]) ==> strs(
                                result@,
                            ).contains(strs(deps@)[j]),
                    decreases deps@.len() - k,
                {
                    let dep = &deps[k];
                    proof {
                        assert(strs(deps@)[k as int] == dep@);
                        assert(self.task_deps(task_id@).contains(dep@));
                        assert(strs(visiting@).last() == task_id@);
                    }
                    let ghost res1 = result@;
                    let known = self.find_task(dep).is_some();
                    if known {
                        proof {
                            let q = choose|q: int| 0 <= q < self.tasks@.len() && self.tasks@[q].id@ == dep@;
                            assert(self.task_ids()[q] == dep@);
                        }
                        match self.visit(dep, result, visiting) {
                            Ok(()) => {},
                            Err(e) => {
                                proof {
                                    let x = choose|x: Seq<char>|
                                        #![trigger self.on_cycle(x)]
                                        self.on_cycle(x) && e@ == cycle_message(x) && self.dfs_visit(
                                            strs(res1),
                                            strs(vis0).push(task_id@),
                                            dep@,
                                        ) == Err::<Seq<Seq<char>>, Seq<char>>(x);
                                    assert(self.dfs_deps(
                                        strs(res1),
                                        strs(vis0).push(task_id@),
                                        self.task_deps(task_id@),
                                        k as int,
                                    ) == Err::<Seq<Seq<char>>, Seq<char>>(x));
                                    assert(self.on_cycle(x) && e@ == cycle_message(x) && self.dfs_visit(
                                        strs(res0),
                                        strs(vis0),
                                        task_id@,
                                    ) == Err::<Seq<Seq<char>>, Seq<char>>(x));
                                }
                                return Err(e);
                            },
                        }
                    }
                    proof {
                        let dd = self.task_deps(task_id@);
                        let vv = strs(vis0).push(task_id@);
                        assert(dd[k as int] == dep@);
                        if known {
                            assert(self.dfs_deps(strs(res1), vv, dd, k as int) == self.dfs_deps(
                                strs(result@),
                                vv,
                                dd,
                                k + 1,
                            ));
                        } else {
                            assert(self.dfs_deps(strs(res1), vv, dd, k as int) == self.dfs_deps(
                                strs(res1),
                                vv,
                                dd,
                                k + 1,
                            ));
                        }
                        if !known {
                            assert(!self.has_task(dep@));
                            if self.task_ids().contains(dep@) {
                                let q = choose|q: int| 0 <= q < self.task_ids().len() && self.task_ids()[q] == dep@;
                                assert(self.tasks@[q].id@ == dep@);
                            }
                        }
                        assert forall|j: int|
                            0 <= j < k + 1 && self.task_ids().contains(#[trigger] strs(deps@)[j]) implies strs(
                            result@,
                        ).contains(strs(deps@)[j]) by {
                            if j < k {
                                let m = choose|m: int| 0 <= m < strs(res1).len() && strs(res1)[m] == strs(deps@)[j];
                                assert(strs(result@)[m] == strs(deps@)[j]);
                            }
                        }
                    }
                    k = k + 1;
                }
                proof {
                    assert forall|d: Seq<char>| #[trigger]
                        self.task_deps(task_id@).contains(d) && self.task_ids().contains(d) implies strs(
                        result@,
                    ).contains(d) by {
                        let q = choose|q: int| 0 <= q < strs(deps@).len() && strs(deps@)[q] == d;
                    }
                    assert(self.dfs_deps(
                        strs(result@),
                        strs(vis0).push(task_id@),
                        self.task_deps(task_id@),
                        k as int,
                    ) == Ok::<Seq<Seq<char>>, Seq<char>>(strs(result@)));
                }
            },
            None => {
                proof {
                    assert(self.task_deps(task_id@) =~= Seq::empty());
                    assert(result@ == res0);
                    assert(self.dfs_deps(
                        strs(result@),
                        strs(vis0).push(task_id@),
                        self.task_deps(task_id@),
                        0,
                    ) == Ok::<Seq<Seq<char>>, Seq<char>>(strs(result@)));
                }
            },
        }
        let ghost res2 = result@;
        proof {
            assert(self.dfs_visit(strs(res0), strs(vis0), task_id@) == Ok::<Seq<Seq<char>>, Seq<char>>(
                strs(res2).push(task_id@),
            ));
        }
        proof {
            assert(strs(visiting@)[strs(visiting@).len() - 1] == task_id@);
            assert(strs(visiting@).contains(task_id@));
            assert(!strs(res2).contains(task_id@));
        }
        visiting.pop();
        proof {
            assert(visiting@ =~= vis0);
        }
        result.push(task_id.clone());
        proof {
            let rs = strs(result@);
            assert(rs =~= strs(res2).push(task_id@));
            assert(strs(visiting@) =~= strs(vis0));
            assert forall|i: int| 0 <= i < res0.len() implies result@[i] == res0[i] by {}
            assert(rs[rs.len() - 1] == task_id@);
            assert(rs.no_duplicates()) by {
                assert(!strs(res2).contains(task_id@));
            }
            assert forall|x: Seq<char>| #[trigger] rs.contains(x) implies self.task_ids().contains(x) by {
                if x != task_id@ {
                    let m = choose|m: int| 0 <= m < rs.len() && rs[m] == x;
                    assert(strs(res2)[m] == x);
                    assert(strs(res2).contains(x));
                }
            }
            assert forall|x: Seq<char>| #[trigger] strs(vis0).contains(x) implies self.task_ids().contains(x)
                && !rs.contains(x) by {
                let m0 = choose|m0: int| 0 <= m0 < strs(vis0).len() && strs(vis0)[m0] == x;
                assert(strs(vis0).push(task_id@)[m0] == x);
                assert(strs(vis0).push(task_id@).contains(x));
                if rs.contains(x) {
                    let m = choose|m: int| 0 <= m < rs.len() && rs[m] == x;
                    if m < rs.len() - 1 {
                        assert(strs(res2)[m] == x);
                    }
                }
            }
            assert forall|i: int, d: Seq<char>|
                0 <= i < rs.len() && #[trigger] self.task_deps(rs[i]).contains(d) && self.task_ids().contains(d)
                implies exists|j: int| 0 <= j < i && #[trigger] rs[j] == d by {
                if i < rs.len() - 1 {
                    assert(strs(res2)[i] == rs[i]);
                    let j = choose|j: int| 0 <= j < i && #[trigger] strs(res2)[j] == d;
                    assert(rs[j] == d);
                } else {
                    assert(rs[i] == task_id@);
                    assert(strs(res2).contains(d));
                    let j = choose|j: int| 0 <= j < strs(res2).len() && strs(res2)[j] == d;
                    assert(rs[j] == d);
                }
            }
        }
        Ok(())
    }
}

impl DagDefinition {
    /// All task ids in topological order: each comes after its dependencies
    /// (a dependency that names no task is not listed).  The order is that
    /// of depth-first visits of the tasks in their listed order, each
    /// visiting its dependencies in their listed order first; the error
    /// names the first task such a visit meets again on its own path.
    pub fn task_execution_order(&self) -> (r: Result<Vec<String>, String>)
        ensures
            r is Ok <==> !self.has_cycle(),
            r matches Ok(order) ==> self.is_execution_order(strs(order@)),
            match r {
                Ok(order) => self.spec_execution_order() == Ok::<Seq<Seq<char>>, Seq<char>>(strs(order@)),
                Err(e) => exists|x: Seq<char>|
                    #![trigger self.on_cycle(x)]
                    self.on_cycle(x) && e@ == cycle_message(x) && self.spec_execution_order() == Err::<
                        Seq<Seq<char>>,
                        Seq<char>,
                    >(x),
            },
    {
        let mut result: Vec<String> = Vec::new();
        let mut visiting: Vec<String> = Vec::new();
        let mut i: usize = 0;
        proof {
            assert(strs(result@) =~= Seq::empty());
            assert(strs(visiting@) =~= Seq::empty());
        }
        while i < self.tasks.len()
            invariant
                i <= self.tasks@.len(),
                visiting@.len() == 0,
                self.search_state(strs(result@), strs(visiting@)),
                forall|j: int| 0 <= j < i ==> strs(result@).contains(#[trigger] self.task_ids()[j]),
                self.dfs_tasks(i as int) == Ok::<Seq<Seq<char>>, Seq<char>>(strs(result@)),
            decreases self.tasks@.len() - i,
        {
            let ghost res1 = result@;
            proof {
                assert(self.task_ids()[i as int] == self.tasks@[i as int].id@);
                assert(self.task_ids().contains(self.tasks@[i as int].id@));
                assert(strs(visiting@) =~= Seq::<Seq<char>>::empty());
            }
            match self.visit(&self.tasks[i].id, &mut result, &mut visiting) {
                Ok(()) => {},
                Err(e) => {
                    proof {
                        let x = choose|x: Seq<char>|
                            #![trigger self.on_cycle(x)]
                            self.on_cycle(x) && e@ == cycle_message(x) && self.dfs_visit(
                                strs(res1),
                                Seq::empty(),
                                self.tasks@[i as int].id@,
                            ) == Err::<Seq<Seq<char>>, Seq<char>>(x);
                        assert(self.has_cycle());
                        assert(self.dfs_tasks(i + 1) == Err::<Seq<Seq<char>>, Seq<char>>(x));
                        lemma_dfs_error_stays(*self, i + 1, self.tasks@.len() as int, x);
                    }
                    return Err(e);
                },
            }
            proof {
                assert(strs(visiting@) =~= Seq::<Seq<char>>::empty());
                assert(self.dfs_tasks(i + 1) == Ok::<Seq<Seq<char>>, Seq<char>>(strs(result@)));
            }
            proof {
                assert forall|j: int| 0 <= j < i + 1 implies strs(result@).contains(
                    #[trigger] self.task_ids()[j],
                ) by {
                    if j < i {
                        let m = choose|m: int| 0 <= m < strs(res1).len() && strs(res1)[m] == self.task_ids()[j];
                        assert(strs(result@)[m] == self.task_ids()[j]);
                    }
                }
            }
            i = i + 1;
        }
        proof {
            let order = strs(result@);
            assert forall|x: Seq<char>| #[trigger] order.contains(x) <==> self.task_ids().contains(x) by {
                if self.task_ids().contains(x) && !order.contains(x) {
                    let j = choose|j: int| 0 <= j < self.task_ids().len() && self.task_ids()[j] == x;
                    assert(order.contains(self.task_ids()[j]));
                }
            }
            assert(self.is_execution_order(order));
            lemma_execution_order_acyclic(*self, order);
        }
        Ok(result)
    }
}

/// Once the search of the first tasks fails, it fails the same way for
/// any more tasks.
proof fn lemma_dfs_error_stays(dag: DagDefinition, m: int, n: int, x: Seq<char>)
    requires
        1 <= m <= n,
        dag.dfs_tasks(m) == Err::<Seq<Seq<char>>, Seq<char>>(x),
    ensures
        dag.dfs_tasks(n) == Err::<Seq<Seq<char>>, Seq<char>>(x),
    decreases n - m,
{
    if m < n {
        lemma_dfs_error_stays(dag, m, n - 1, x);
    }
}

/// An id with dependencies is the id of a task.
proof fn lemma_deps_imply_task(dag: DagDefinition, x: Seq<char>, d: Seq<char>)
    requires
        dag.task_deps(x).contains(d),
    ensures
        dag.task_ids().contains(x),
{
    if exists|i: int| dag.is_first_task(x, i) {
        let i = choose|i: int| dag.is_first_task(x, i);
        assert(dag.task_ids()[i] == x);
    }
}

/// A duplicate-free sequence of task ids is no longer than the number of
/// distinct task ids.
proof fn lemma_stack_bounded(dag: DagDefinition, s: Seq<Seq<char>>)
    requires
        s.no_duplicates(),
        forall|x: Seq<char>| #[trigger] s.contains(x) ==> dag.task_ids().contains(x),
    ensures
        s.len() <= dag.id_count(),
{
    broadcast use vstd::seq_lib::seq_to_set_is_finite;

    s.unique_seq_to_set();
    assert forall|x: Seq<char>| s.to_set().contains(x) implies dag.task_ids().to_set().contains(x) by {}
    vstd::set_lib::lemma_len_subset(s.to_set(), dag.task_ids().to_set());
}

/// Following a dependency path through an order whose dependencies precede
/// their dependents moves strictly backwards.
proof fn lemma_path_descends(
    dag: DagDefinition,
    order: Seq<Seq<char>>,
    p: Seq<Seq<char>>,
    j0: int,
    k: int,
)
    requires
        dag.deps_precede(order),
        dag.is_dep_path(p),
        forall|m: int| 0 <= m < p.len() ==> dag.task_ids().contains(#[trigger] p[m]),
        0 <= j0 < order.len(),
        order[j0] == p[0],
        0 <= k < p.len(),
    ensures
        exists|j: int| 0 <= j < order.len() && order[j] == p[k] && j + k <= j0,
    decreases k,
{
    if k > 0 {
        lemma_path_descends(dag, order, p, j0, k - 1);
        let j = choose|j: int| 0 <= j < order.len() && order[j] == p[k - 1] && j + k - 1 <= j0;
        assert(dag.task_deps(p[k - 1]).contains(p[(k - 1) + 1]));
        assert(dag.task_deps(order[j]).contains(p[k]));
        assert(dag.task_ids().contains(p[k]));
        let j2 = choose|j2: int| 0 <= j2 < j && #[trigger] order[j2] == p[k];
        assert(order[j2] == p[k] && j2 + k <= j0);
    } else {
        assert(order[j0] == p[0]);
    }
}

/// A graph that has an execution order has no cycle.
pub proof fn lemma_execution_order_acyclic(dag: DagDefinition, order: Seq<Seq<char>>)
    requires
        dag.is_execution_order(order),
    ensures
        !dag.has_cycle(),
{
    if dag.has_cycle() {
        let x = choose|x: Seq<char>| #[trigger] dag.on_cycle(x);
        let p = choose|p: Seq<Seq<char>>|
            #![trigger dag.is_dep_path(p)]
            p.len() >= 2 && dag.is_dep_path(p) && p[0] == x && p.last() == x;
        assert forall|m: int| 0 <= m < p.len() implies dag.task_ids().contains(#[trigger] p[m]) by {
            if m < p.len() - 1 {
                assert(dag.task_deps(p[m]).contains(p[m + 1]));
                lemma_deps_imply_task(dag, p[m], p[m + 1]);
            } else {
                assert(dag.task_deps(p[0]).contains(p[0int + 1]));
                lemma_deps_imply_task(dag, p[0], p[1]);
            }
        }
        assert(order.contains(p[0]));
        let j0 = choose|j0: int| 0 <= j0 < order.len() && order[j0] == p[0];
        lemma_path_descends(dag, order, p, j0, p.len() - 1);
        let j = choose|j: int| 0 <= j < order.len() && order[j] == p[p.len() - 1] && j + p.len() - 1 <= j0;
        assert(order[j] == order[j0]);
    }
}

/// The first task with a given id is unique.
pub proof fn lemma_first_task_unique(dag: DagDefinition, id: Seq<char>, i: int)
    requires
        dag.is_first_task(id, i),
    ensures
        dag.spec_get_task(id) == Some(dag.tasks@[i]),
        dag.task_deps(id) == dag.tasks@[i].spec_dependencies(),
{
    let k = choose|k: int| dag.is_first_task(id, k);
    assert(k == i) by {
        if k < i {
            assert(dag.tasks@[k].id@ != id);
        } else if i < k {
            assert(dag.tasks@[i].id@ != id);
        }
    }
}

/// Mapping commutes with appending.
pub proof fn lemma_map_push<A, B>(s: Seq<A>, x: A, f: spec_fn(A) -> B)
    ensures
        s.push(x).map_values(f) == s.map_values(f).push(f(x)),
{
    assert(s.push(x).map_values(f) =~= s.map_values(f).push(f(x)));
}

/// One more element of a filtered and mapped prefix.
pub proof fn lemma_filter_map_step(
    tasks: Seq<TaskDefinition>,
    pred: spec_fn(TaskDefinition) -> bool,
    i: int,
)
    requires
        0 <= i < tasks.len(),
    ensures
        tasks.subrange(0, i + 1).filter(pred) == if pred(tasks[i]) {
            tasks.subrange(0, i).filter(pred).push(tasks[i])
        } else {
            tasks.subrange(0, i).filter(pred)
        },
{
    reveal(Seq::filter);
    assert(tasks.subrange(0, i + 1).drop_last() =~= tasks.subrange(0, i));
}

/// The upstream tasks whose results a task receives are exactly its
/// `xcom_inputs`, each in its place; none without them.
pub proof fn lemma_xcom_dependencies_listed(t: TaskDefinition)
    ensures
        match t.xcom_inputs {
            Some(v) => t.spec_xcom_dependencies().len() == v@.len() && forall|i: int|
                0 <= i < v@.len() ==> #[trigger] t.spec_xcom_dependencies()[i] == v@[i]@,
            None => t.spec_xcom_dependencies().len() == 0,
        },
{
}

/// The dependencies of a task are exactly its `depends_on` ids, each in its
/// place; none without them.
pub proof fn lemma_dependencies_listed(t: TaskDefinition)
    ensures
        match t.depends_on {
            Some(v) => t.spec_dependencies().len() == v@.len() && forall|i: int|
                0 <= i < v@.len() ==> #[trigger] t.spec_dependencies()[i] == v@[i]@,
            None => t.spec_dependencies().len() == 0,
        },
{
}

/// Stored names other than the known ones read as the first state
/// (`queued`, `manual`, `pending`).
pub proof fn lemma_unknown_names(name: Seq<char>)
    ensures
        (name != "running"@ && name != "success"@ && name != "failed"@) ==> DagRunStatus::spec_from_name(name)
            == DagRunStatus::Queued,
        name != "schedule"@ ==> TriggerType::spec_from_name(name) == TriggerType::Manual,
        (name != "running"@ && name != "success"@ && name != "failed"@ && name != "retried"@ && name
            != "skipped"@) ==> TaskRunStatus::spec_from_name(name) == TaskRunStatus::Pending,
{
}

} // verus!
