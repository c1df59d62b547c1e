//! Structural checks that a DAG definition must pass before it is loaded.
use vstd::prelude::*;
use vstd::string::*;
use crate::dag::definition::{cycle_message, strs, DagDefinition, TaskDefinition};
use crate::text::{count_fields, field_count};

verus! {

/// Why a DAG definition was rejected.
#[derive(Debug, Clone, PartialEq)]
pub enum ValidationError {
    /// The DAG id is empty.
    EmptyDagId,
    /// The dependencies contain a cycle; the text names a task on it.
    Cycle(String),
    /// Two tasks share this id.
    DuplicateTaskId(String),
    /// `task` depends on `dependency`, which names no task.
    MissingDependency { task: String, dependency: String },
    /// The schedule does not have 5, 6 or 7 fields.
    CronFieldCount,
    /// The schedule is not a valid cron expression.
    InvalidCron(String),
}

impl ValidationError {
    /// The text of the error message.
    pub open spec fn spec_message(self) -> Seq<char> {
        match self {
            ValidationError::EmptyDagId => "DAG ID cannot be empty"@,
            ValidationError::Cycle(m) => "DAG validation failed: "@ + m@,
            ValidationError::DuplicateTaskId(id) => "Duplicate task ID: "@ + id@,
            ValidationError::MissingDependency { task, dependency } => "Task "@ + task@
                + " depends on non-existent task: "@ + dependency@,
            ValidationError::CronFieldCount => "Invalid cron expression length. Expected 5, 6, or 7 fields"@,
            ValidationError::InvalidCron(s) => "Invalid cron expression: '"@ + s@ + "'"@,
        }
    }

    /// The error message.
    pub fn message(&self) -> (r: String)
        ensures
            r@ == self.spec_message(),
    {
        match self {
            ValidationError::EmptyDagId => String::from_str("DAG ID cannot be empty"),
            ValidationError::Cycle(m) => {
                let mut s = String::from_str("DAG validation failed: ");
                s.append(m.as_str());
                s
            },
            ValidationError::DuplicateTaskId(id) => {
                let mut s = String::from_str("Duplicate task ID: ");
                s.append(id.as_str());
                s
            },
            ValidationError::MissingDependency { task, dependency } => {
                let mut s = String::from_str("Task ");
                s.append(task.as_str());
                s.append(" depends on non-existent task: ");
                s.append(dependency.as_str());
                s
            },
            ValidationError::CronFieldCount => String::from_str(
                "Invalid cron expression length. Expected 5, 6, or 7 fields",
            ),
            ValidationError::InvalidCron(sched) => {
                let mut s = String::from_str("Invalid cron expression: '");
                s.append(sched.as_str());
                s.append("'");
                s
            },
        }
    }
}

/// Whether the `cron` crate accepts `expr` as a schedule (seconds through
/// years, seven fields).
pub uninterp spec fn cron_accepts(expr: Seq<char>) -> bool;

/// Parsing `expr` as a `cron::Schedule` (its `FromStr` impl) succeeds.  The parse is a function of
/// the text alone and reports malformed input as an error.
#[verifier::external_body]
fn cron_parses(expr: &str) -> (r: bool)
    ensures
        r == cron_accepts(expr@),
{
    expr.parse::<cron::Schedule>().is_ok()
}

/// The seven-field form that a schedule is checked in: five fields gain a
/// leading seconds field `0` and a trailing year `*`, six fields gain the
/// trailing year.
pub open spec fn cron_expression_for(schedule: Seq<char>) -> Seq<char> {
    if field_count(schedule) == 5 {
        "0 "@ + schedule + " *"@
    } else if field_count(schedule) == 6 {
        schedule + " *"@
    } else {
        schedule
    }
}

/// The schedule has 5, 6 or 7 fields.
pub open spec fn cron_field_count_ok(schedule: Seq<char>) -> bool {
    let n = field_count(schedule);
    n == 5 || n == 6 || n == 7
}

/// The schedule passes validation.
pub open spec fn cron_valid(schedule: Seq<char>) -> bool {
    cron_field_count_ok(schedule) && cron_accepts(cron_expression_for(schedule))
}

/// `r` is what checking `schedule` gives.
pub open spec fn cron_check_result(schedule: Seq<char>, r: Result<(), ValidationError>) -> bool {
    match r {
        Ok(()) => cron_valid(schedule),
        Err(ValidationError::CronFieldCount) => !cron_field_count_ok(schedule),
        Err(ValidationError::InvalidCron(s)) => cron_field_count_ok(schedule) && !cron_valid(schedule)
            && s@ == schedule,
        Err(_) => false,
    }
}

/// Task `i` repeats the id of an earlier task.
pub open spec fn repeats_earlier_id(tasks: Seq<TaskDefinition>, i: int) -> bool {
    0 <= i < tasks.len() && exists|j: int| 0 <= j < i && tasks[j].id@ == #[trigger] tasks[i].id@
}

/// Dependency `k` of task `i` names no task.
pub open spec fn dependency_missing(dag: DagDefinition, i: int, k: int) -> bool {
    &&& 0 <= i < dag.tasks@.len()
    &&& 0 <= k < dag.tasks@[i].spec_dependencies().len()
    &&& !dag.task_ids().contains(dag.tasks@[i].spec_dependencies()[k])
}

/// (`i`, `k`) is the first missing dependency in task order, then in
/// dependency order.
pub open spec fn first_missing(dag: DagDefinition, i: int, k: int) -> bool {
    &&& dependency_missing(dag, i, k)
    &&& forall|i2: int, k2: int|
        (i2 < i || (i2 == i && k2 < k)) ==> !#[trigger] dependency_missing(dag, i2, k2)
}

/// Some task repeats an earlier id.
pub open spec fn has_duplicate_id(dag: DagDefinition) -> bool {
    exists|i: int| #[trigger] repeats_earlier_id(dag.tasks@, i)
}

/// Some dependency names no task.
pub open spec fn has_missing_dependency(dag: DagDefinition) -> bool {
    exists|i: int, k: int| #[trigger] dependency_missing(dag, i, k)
}

/// What validation reports for `dag`, checks taken in order: empty id,
/// cycle, duplicate id, missing dependency, schedule.
pub open spec fn validation_accepts(dag: DagDefinition) -> bool {
    &&& dag.id@.len() > 0
    &&& !dag.has_cycle()
    &&& !has_duplicate_id(dag)
    &&& !has_missing_dependency(dag)
    &&& match dag.schedule {
        Some(s) => cron_valid(s@),
        None => true,
    }
}

/// Checks of DAG definitions.
pub struct DagValidator;

impl DagValidator {
    /// Checks a schedule: it must have 5, 6 or 7 whitespace-separated
    /// fields and, completed to seven fields, be a valid cron expression.
    pub fn validate_cron(schedule: &str) -> (r: Result<(), ValidationError>)
        ensures
            cron_check_result(schedule@, r),
    {
        let n = count_fields(schedule);
        let expr: String = if n == 5 {
            let mut e = String::from_str("0 ");
            e.append(schedule);
            e.append(" *");
            e
        } else if n == 6 {
            let mut e = schedule.to_owned();
            e.append(" *");
            e
        } else if n == 7 {
            schedule.to_owned()
        } else {
            return Err(ValidationError::CronFieldCount);
        };
        if !cron_parses(expr.as_str()) {
            return Err(ValidationError::InvalidCron(schedule.to_owned()));
        }
        Ok(())
    }

    /// Checks, in this order, that the DAG id is not empty, that the
    /// dependencies have no cycle, that task ids are distinct, that every
    /// dependency names a task, and that the schedule, if any, is valid.
    /// The first failing check gives the error.
    pub fn validate(dag: &DagDefinition) -> (r: Result<(), ValidationError>)
        ensures
            r is Ok <==> validation_accepts(*dag),
            r matches Err(ValidationError::EmptyDagId) <==> dag.id@.len() == 0,
            r matches Err(ValidationError::Cycle(m)) <==> (dag.id@.len() > 0 && dag.has_cycle()),
            r matches Err(ValidationError::Cycle(m)) ==> exists|x: Seq<char>|
                #![trigger dag.on_cycle(x)]
                dag.on_cycle(x) && m@ == cycle_message(x) && dag.spec_execution_order() == Err::<
                    Seq<Seq<char>>,
                    Seq<char>,
                >(x),
            r matches Err(ValidationError::DuplicateTaskId(id)) ==> {
                &&& dag.id@.len() > 0
                &&& !dag.has_cycle()
                &&& exists|i: int|
                    #[trigger] repeats_earlier_id(dag.tasks@, i) && dag.tasks@[i].id@ == id@ && forall|
                        i2: int,
                    | 0 <= i2 < i ==> !repeats_earlier_id(dag.tasks@, i2)
            },
            (dag.id@.len() > 0 && !dag.has_cycle() && has_duplicate_id(*dag)) ==> r is Err && r->Err_0 is DuplicateTaskId,
            r matches Err(ValidationError::MissingDependency { task, dependency }) ==> {
                &&& dag.id@.len() > 0
                &&& !dag.has_cycle()
                &&& !has_duplicate_id(*dag)
                &&& exists|i: int, k: int|
                    #[trigger] first_missing(*dag, i, k) && task@ == dag.tasks@[i].id@ && dependency@
                        == dag.tasks@[i].spec_dependencies()[k]
            },
            (dag.id@.len() > 0 && !dag.has_cycle() && !has_duplicate_id(*dag) && has_missing_dependency(*dag))
                ==> r is Err && r->Err_0 is MissingDependency,
            (dag.id@.len() > 0 && !dag.has_cycle() && !has_duplicate_id(*dag) && !has_missing_dependency(
                *dag,
            ) && dag.schedule is Some) ==> cron_check_result(dag.schedule->0@, r),
    {
        if dag.id.as_str().is_empty() {
            return Err(ValidationError::EmptyDagId);
        }
        match dag.task_execution_order() {
            Ok(_) => {},
            Err(e) => {
                return Err(ValidationError::Cycle(e));
            },
        }
        let n = dag.tasks.len();
        let mut i: usize = 0;
        while i < n
            invariant
                n == dag.tasks@.len(),
                i <= n,
                dag.id@.len() > 0,
                !dag.has_cycle(),
                forall|i2: int| 0 <= i2 < i ==> !#[trigger] repeats_earlier_id(dag.tasks@, i2),
            decreases n - i,
        {
            let mut j: usize = 0;
            while j < i
                invariant
                    n == dag.tasks@.len(),
                    i < n,
                    j <= i,
                    dag.id@.len() > 0,
                    !dag.has_cycle(),
                    forall|i2: int| 0 <= i2 < i ==> !#[trigger] repeats_earlier_id(dag.tasks@, i2),
                    forall|j2: int| 0 <= j2 < j ==> dag.tasks@[j2].id@ != dag.tasks@[i as int].id@,
                decreases i - j,
            {
                if dag.tasks[j].id == dag.tasks[i].id {
                    proof {
                        assert(repeats_earlier_id(dag.tasks@, i as int));
                    }
                    return Err(ValidationError::DuplicateTaskId(dag.tasks[i].id.clone()));
                }
                j = j + 1;
            }
            i = i + 1;
        }
        proof {
            assert forall|i2: int| !#[trigger] repeats_earlier_id(dag.tasks@, i2) by {
                if 0 <= i2 < n {
                }
            }
        }
        let mut i: usize = 0;
        while i < n
            invariant
                n == dag.tasks@.len(),
                i <= n,
                dag.id@.len() > 0,
                !dag.has_cycle(),
                !has_duplicate_id(*dag),
                forall|i2: int, k2: int| i2 < i ==> !#[trigger] dependency_missing(*dag, i2, k2),
            decreases n - i,
        {
            let deps = dag.tasks[i].dependencies();
            let mut k: usize = 0;
            while k < deps.len()
                invariant
                    n == dag.tasks@.len(),
                    i < n,
                    k <= deps@.len(),
                    dag.id@.len() > 0,
                    !dag.has_cycle(),
                    !has_duplicate_id(*dag),
                    strs(deps@) == dag.tasks@[i as int].spec_dependencies(),
                    forall|i2: int, k2: int| i2 < i ==> !#[trigger] dependency_missing(*dag, i2, k2),
                    forall|k2: int| k2 < k ==> !#[trigger] dependency_missing(*dag, i as int, k2),
                decreases deps@.len() - k,
            {
                if !dag.has_task_named(&deps[k]) {
                    proof {
                        assert(strs(deps@)[k as int] == deps@[k as int]@);
                        assert(dependency_missing(*dag, i as int, k as int));
                        assert(first_missing(*dag, i as int, k as int));
                    }
                    return Err(
                        ValidationError::MissingDependency {
                            task: dag.tasks[i].id.clone(),
                            dependency: deps[k].clone(),
                        },
                    );
                }
                proof {
                    assert(strs(deps@)[k as int] == deps@[k as int]@);
                }
                k = k + 1;
            }
            i = i + 1;
        }
        match &dag.schedule {
            Some(schedule) => {
                DagValidator::validate_cron(schedule.as_str())
            },
            None => Ok(()),
        }
    }
}

impl DagDefinition {
    /// Whether some task has id `name`.
    pub fn has_task_named(&self, name: &String) -> (r: bool)
        ensures
            r == self.task_ids().contains(name@),
    {
        let mut i: usize = 0;
        while i < self.tasks.len()
            invariant
                i <= self.tasks@.len(),
                forall|j: int| 0 <= j < i ==> self.tasks@[j].id@ != name@,
            decreases self.tasks@.len() - i,
        {
            if self.tasks[i].id == *name {
                proof {
                    assert(self.task_ids()[i as int] == name@);
                }
                return true;
            }
            i = i + 1;
        }
        false
    }
}

/// What checking a schedule gives depends on its number of fields: five
/// fields are checked as a seven-field expression with seconds `0` in front
/// and a year `*` behind, six fields (seconds first) with a year `*` behind,
/// seven as they are; any other count is a field-count error.  A schedule
/// that cron rejects in that form is reported as itself.
pub proof fn lemma_schedule_checked_by_field_count(schedule: Seq<char>, r: Result<(), ValidationError>)
    requires
        cron_check_result(schedule, r),
    ensures
        field_count(schedule) == 5 ==> (r is Ok <==> cron_accepts("0 "@ + schedule + " *"@)),
        field_count(schedule) == 6 ==> (r is Ok <==> cron_accepts(schedule + " *"@)),
        field_count(schedule) == 7 ==> (r is Ok <==> cron_accepts(schedule)),
        !(field_count(schedule) == 5 || field_count(schedule) == 6 || field_count(schedule) == 7) ==> r
            == Err::<(), ValidationError>(ValidationError::CronFieldCount),
        r matches Err(ValidationError::InvalidCron(s)) ==> s@ == schedule,
        r is Err ==> (r->Err_0 is CronFieldCount || r->Err_0 is InvalidCron),
{
}

} // verus!
