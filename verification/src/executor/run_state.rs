//! The bookkeeping of one DAG run: which tasks have completed, failed, or
//! are running, and which task to start next.
use vstd::prelude::*;
use crate::dag::definition::{
    contains_string, ids_of, lemma_first_task_unique, strs, DagDefinition, DagRunStatus, TaskDefinition,
};
use crate::dag::validator::{dependency_missing, has_missing_dependency, validation_accepts};

verus! {

/// `id` may start: it has not completed, failed or started, and every
/// dependency of the task found under `id` has completed.
pub open spec fn ready(
    dag: DagDefinition,
    completed: Seq<Seq<char>>,
    failed: Seq<Seq<char>>,
    running: Seq<Seq<char>>,
    id: Seq<char>,
) -> bool {
    &&& !completed.contains(id)
    &&& !failed.contains(id)
    &&& !running.contains(id)
    &&& dag.spec_dependencies_satisfied(id, completed)
}

/// Removes the first occurrence of `x` from `s`.
pub open spec fn remove_first(s: Seq<Seq<char>>, x: Seq<char>) -> Seq<Seq<char>> {
    if s.contains(x) {
        let i = choose|i: int| 0 <= i < s.len() && s[i] == x && forall|j: int| 0 <= j < i ==> s[j] != x;
        s.remove(i)
    } else {
        s
    }
}

/// Adds `x` to a set kept as a sequence.
pub open spec fn set_insert(s: Seq<Seq<char>>, x: Seq<char>) -> Seq<Seq<char>> {
    if s.contains(x) {
        s
    } else {
        s.push(x)
    }
}

/// Task ids are distinct.
pub open spec fn distinct_task_ids(dag: DagDefinition) -> bool {
    dag.task_ids().no_duplicates()
}

/// The progress of a DAG run.
pub struct RunState {
    completed: Vec<String>,
    failed: Vec<String>,
    running: Vec<String>,
    in_flight: Vec<String>,
}

impl RunState {
    /// Ids of the tasks that succeeded.
    pub closed spec fn completed(self) -> Seq<Seq<char>> {
        strs(self.completed@)
    }

    /// Ids of the tasks that failed.
    pub closed spec fn failed(self) -> Seq<Seq<char>> {
        strs(self.failed@)
    }

    /// Ids of the tasks started and not yet reported.
    pub closed spec fn running(self) -> Seq<Seq<char>> {
        strs(self.running@)
    }

    /// One entry per started task whose result has not been reported.
    pub closed spec fn in_flight(self) -> Seq<Seq<char>> {
        strs(self.in_flight@)
    }

    /// The ids that may start now, in task order (a repeated task id is
    /// listed once per task).
    pub open spec fn runnable(self, dag: DagDefinition) -> Seq<Seq<char>> {
        ids_of(
            dag.tasks@.filter(
                |t: TaskDefinition| ready(dag, self.completed(), self.failed(), self.running(), t.id@),
            ),
        )
    }

    /// The ids that have been started at some point in this run.
    pub open spec fn started(self, x: Seq<char>) -> bool {
        self.completed().contains(x) || self.failed().contains(x) || self.running().contains(x)
    }

    /// The invariant of a run over a DAG with distinct task ids: the three
    /// sets are duplicate-free and disjoint, and a task is running exactly
    /// when it has one unreported start.
    pub open spec fn wf(self, dag: DagDefinition) -> bool {
        &&& self.completed().no_duplicates()
        &&& self.failed().no_duplicates()
        &&& self.running().no_duplicates()
        &&& self.in_flight().no_duplicates()
        &&& forall|x: Seq<char>| #[trigger] self.in_flight().contains(x) <==> self.running().contains(x)
        &&& forall|x: Seq<char>|
            #![trigger self.completed().contains(x)]
            #![trigger self.failed().contains(x)]
            !(self.completed().contains(x) && self.failed().contains(x))
        &&& forall|x: Seq<char>|
            #![trigger self.completed().contains(x)]
            #![trigger self.running().contains(x)]
            !(self.completed().contains(x) && self.running().contains(x))
        &&& forall|x: Seq<char>|
            #![trigger self.failed().contains(x)]
            #![trigger self.running().contains(x)]
            !(self.failed().contains(x) && self.running().contains(x))
        &&& forall|x: Seq<char>| #[trigger] self.started(x) ==> dag.task_ids().contains(x)
    }

    /// The number of steps the run can still take: two per distinct task id
    /// not yet started, one per unreported start.
    pub open spec fn remaining_steps(self, dag: DagDefinition) -> int {
        2 * (dag.task_ids().to_set().len() - self.completed().len() - self.failed().len()
            - self.running().len()) + self.in_flight().len()
    }

    /// A run in which nothing has happened yet.
    pub fn new() -> (r: RunState)
        ensures
            r.completed() == Seq::<Seq<char>>::empty(),
            r.failed() == Seq::<Seq<char>>::empty(),
            r.running() == Seq::<Seq<char>>::empty(),
            r.in_flight() == Seq::<Seq<char>>::empty(),
    {
        let r = RunState {
            completed: Vec::new(),
            failed: Vec::new(),
            running: Vec::new(),
            in_flight: Vec::new(),
        };
        proof {
            assert(r.completed() =~= Seq::empty());
            assert(r.failed() =~= Seq::empty());
            assert(r.running() =~= Seq::empty());
            assert(r.in_flight() =~= Seq::empty());
        }
        r
    }

    /// Whether a start of `task_id` waits to be reported.
    pub fn is_in_flight(&self, task_id: &String) -> (r: bool)
        ensures
            r == self.in_flight().contains(task_id@),
    {
        contains_string(&self.in_flight, task_id)
    }

    /// No started task is waiting to be reported.
    pub fn is_idle(&self) -> (r: bool)
        ensures
            r == (self.in_flight().len() == 0),
    {
        self.in_flight.len() == 0
    }

    /// The status of the run once it is over: success exactly when no task
    /// failed.
    pub fn final_status(&self) -> (r: DagRunStatus)
        ensures
            r == (if self.failed().len() == 0 {
                DagRunStatus::Success
            } else {
                DagRunStatus::Failed
            }),
    {
        if self.failed.len() == 0 {
            DagRunStatus::Success
        } else {
            DagRunStatus::Failed
        }
    }

    /// The ids that may start now.
    pub fn runnable_tasks(&self, dag: &DagDefinition) -> (r: Vec<String>)
        ensures
            strs(r@) == self.runnable(*dag),
    {
        let ghost pred = |t: TaskDefinition|
            ready(*dag, self.completed(), self.failed(), self.running(), t.id@);
        let mut out: Vec<String> = Vec::new();
        let mut i: usize = 0;
        while i < dag.tasks.len()
            invariant
                i <= dag.tasks@.len(),
                pred == (|t: TaskDefinition|
                    ready(*dag, self.completed(), self.failed(), self.running(), t.id@)),
                strs(out@) == dag.tasks@.subrange(0, i as int).filter(pred).map_values(
                    |t: TaskDefinition| t.id@,
                ),
            decreases dag.tasks@.len() - i,
        {
            let id = &dag.tasks[i].id;
            proof {
                crate::dag::definition::lemma_filter_map_step(dag.tasks@, pred, i as int);
            }
            let ghost prev = out@;
            if !contains_string(&self.completed, id) && !contains_string(&self.failed, id)
                && !contains_string(&self.running, id) && dag.dependencies_satisfied(
                id.as_str(),
                &self.completed,
            ) {
                let c = id.clone();
                out.push(c);
                proof {
                    crate::dag::definition::lemma_map_push(prev, c, |x: String| x@);
                    crate::dag::definition::lemma_map_push(
                        dag.tasks@.subrange(0, i as int).filter(pred),
                        dag.tasks@[i as int],
                        |t: TaskDefinition| t.id@,
                    );
                }
            }
            i = i + 1;
        }
        proof {
            assert(dag.tasks@.subrange(0, i as int) =~= dag.tasks@);
        }
        out
    }
}

impl RunState {
    /// Starts every task that may start now and returns their ids.
    pub fn start_runnable(&mut self, dag: &DagDefinition) -> (r: Vec<String>)
        ensures
            strs(r@) == old(self).runnable(*dag),
            forall|x: Seq<char>| #[trigger] strs(r@).contains(x) ==> ready(
                *dag,
                old(self).completed(),
                old(self).failed(),
                old(self).running(),
                x,
            ),
            final(self).completed() == old(self).completed(),
            final(self).failed() == old(self).failed(),
            forall|x: Seq<char>| #[trigger] final(self).running().contains(x) <==> (old(self).running().contains(x)
                || strs(r@).contains(x)),
            final(self).in_flight() == old(self).in_flight() + strs(r@),
            old(self).running().no_duplicates() ==> final(self).running().no_duplicates(),
            old(self).wf(*dag) && distinct_task_ids(*dag) ==> final(self).wf(*dag),
            old(self).wf(*dag) && distinct_task_ids(*dag) ==> final(self).remaining_steps(*dag)
                + r@.len() == old(self).remaining_steps(*dag),
            forall|x: Seq<char>| #[trigger] old(self).started(x) ==> final(self).started(x),
            forall|x: Seq<char>| #[trigger] strs(r@).contains(x) ==> !old(self).started(x) && final(self).started(x),
    {
        let r = self.runnable_tasks(dag);
        let ghost old_running = self.running();
        let ghost old_in_flight = self.in_flight();
        proof {
            lemma_runnable_ready(*self, *dag);
            if self.wf(*dag) && distinct_task_ids(*dag) {
                lemma_runnable_distinct(*self, *dag);
            }
        }
        let mut j: usize = 0;
        while j < r.len()
            invariant
                j <= r@.len(),
                self.completed() == old(self).completed(),
                self.failed() == old(self).failed(),
                strs(r@) == old(self).runnable(*dag),
                old_running == old(self).running(),
                old_in_flight == old(self).in_flight(),
                self.in_flight() == old_in_flight + strs(r@).subrange(0, j as int),
                forall|x: Seq<char>| #[trigger] self.running().contains(x) <==> (old_running.contains(x)
                    || strs(r@).subrange(0, j as int).contains(x)),
                old_running.no_duplicates() ==> self.running().no_duplicates(),
                strs(r@).no_duplicates() && (forall|x: Seq<char>| #[trigger] strs(r@).contains(x) ==> !old_running.contains(x))
                    ==> self.running() == old_running + strs(r@).subrange(0, j as int),
            decreases r@.len() - j,
        {
            let ghost prev_running = self.running@;
            let ghost prev_in_flight = self.in_flight@;
            let ghost prev_r = self.running();
            let id = &r[j];
            proof {
                assert(strs(r@)[j as int] == id@);
                assert(strs(r@).subrange(0, j + 1) =~= strs(r@).subrange(0, j as int).push(id@));
            }
            if !contains_string(&self.running, id) {
                self.running.push(id.clone());
                proof {
                    crate::dag::definition::lemma_map_push(prev_running, self.running@.last(), |x: String| x@);
                    assert(self.running() == prev_r.push(id@));
                }
            }
            proof {
                assert forall|x: Seq<char>| #[trigger] self.running().contains(x) <==> (prev_r.contains(x) || x == id@) by {
                    if self.running() == prev_r.push(id@) {
                        vstd::seq_lib::lemma_seq_contains_after_push(prev_r, id@, x);
                    }
                }
            }
            self.in_flight.push(id.clone());
            proof {
                crate::dag::definition::lemma_map_push(prev_in_flight, self.in_flight@.last(), |x: String| x@);
                assert(self.in_flight() =~= old_in_flight + strs(r@).subrange(0, j + 1));
                assert forall|x: Seq<char>| #[trigger] self.running().contains(x) <==> (old_running.contains(x)
                    || strs(r@).subrange(0, j + 1).contains(x)) by {
                    vstd::seq_lib::lemma_seq_contains_after_push(strs(r@).subrange(0, j as int), id@, x);
                }
                if strs(r@).no_duplicates() && (forall|x: Seq<char>| #[trigger] strs(r@).contains(x) ==> !old_running.contains(x)) {
                    assert(!strs(r@).subrange(0, j as int).contains(id@)) by {
                        if strs(r@).subrange(0, j as int).contains(id@) {
                            let k = choose|k: int| 0 <= k < j && #[trigger] strs(r@).subrange(0, j as int)[k] == id@;
                            assert(strs(r@)[k] == strs(r@)[j as int]);
                        }
                    }
                    assert(strs(r@).contains(id@));
                    assert(!prev_r.contains(id@));
                    assert(self.running() =~= old_running + strs(r@).subrange(0, j + 1));
                }
            }
            j = j + 1;
        }
        proof {
            assert(strs(r@).subrange(0, j as int) =~= strs(r@));
            if old(self).wf(*dag) && distinct_task_ids(*dag) {
                lemma_start_preserves_wf(*old(self), *self, *dag, strs(r@));
            }
        }
        r
    }
}

/// Position of the first occurrence of `s` in `v`.
fn position_of(v: &Vec<String>, s: &String) -> (r: Option<usize>)
    ensures
        match r {
            Some(i) => i < v@.len() && strs(v@)[i as int] == s@ && forall|j: int| 0 <= j < i ==> strs(v@)[j] != s@,
            None => !strs(v@).contains(s@),
        },
{
    let mut i: usize = 0;
    while i < v.len()
        invariant
            i <= v@.len(),
            forall|j: int| 0 <= j < i ==> strs(v@)[j] != s@,
        decreases v@.len() - i,
    {
        if v[i] == *s {
            return Some(i);
        }
        i = i + 1;
    }
    proof {
        if strs(v@).contains(s@) {
            let k = choose|k: int| 0 <= k < strs(v@).len() && strs(v@)[k] == s@;
        }
    }
    None
}

/// Removing the element at `i` commutes with taking characters.
proof fn lemma_strs_remove(v: Seq<String>, i: int)
    requires
        0 <= i < v.len(),
    ensures
        strs(v.remove(i)) == strs(v).remove(i),
{
    assert(strs(v.remove(i)) =~= strs(v).remove(i));
}

/// `remove_first` removes the occurrence at the first position holding `x`.
proof fn lemma_remove_first_at(s: Seq<Seq<char>>, x: Seq<char>, i: int)
    requires
        0 <= i < s.len(),
        s[i] == x,
        forall|j: int| 0 <= j < i ==> s[j] != x,
    ensures
        remove_first(s, x) == s.remove(i),
{
    assert(s.contains(x));
    let k = choose|k: int| 0 <= k < s.len() && s[k] == x && forall|j: int| 0 <= j < k ==> s[j] != x;
    assert(k == i) by {
        if k < i {
            assert(s[k] != x);
        } else if i < k {
            assert(s[i] != x);
        }
    }
}

/// In a duplicate-free sequence, removing the position holding `x` removes
/// exactly `x`.
proof fn lemma_remove_distinct(s: Seq<Seq<char>>, i: int)
    requires
        0 <= i < s.len(),
        s.no_duplicates(),
    ensures
        s.remove(i).no_duplicates(),
        forall|y: Seq<char>| #[trigger] s.remove(i).contains(y) <==> (s.contains(y) && y != s[i]),
{
    let t = s.remove(i);
    assert forall|a: int, b: int| 0 <= a < t.len() && 0 <= b < t.len() && a != b implies t[a] != t[b] by {
        let a2 = if a < i { a } else { a + 1 };
        let b2 = if b < i { b } else { b + 1 };
        assert(t[a] == s[a2] && t[b] == s[b2]);
    }
    assert forall|y: Seq<char>| #[trigger] t.contains(y) <==> (s.contains(y) && y != s[i]) by {
        if t.contains(y) {
            let a = choose|a: int| 0 <= a < t.len() && t[a] == y;
            let a2 = if a < i { a } else { a + 1 };
            assert(s[a2] == y);
        }
        if s.contains(y) && y != s[i] {
            let a = choose|a: int| 0 <= a < s.len() && s[a] == y;
            if a < i {
                assert(t[a] == y);
            } else {
                assert(t[a - 1] == y);
            }
        }
    }
}

impl RunState {
    /// Records that one start of `task_id` finished, successfully or not:
    /// the task stops running and joins the completed or the failed tasks.
    pub fn record_result(&mut self, task_id: &String, succeeded: bool)
        requires
            old(self).in_flight().contains(task_id@),
        ensures
            final(self).in_flight() == remove_first(old(self).in_flight(), task_id@),
            old(self).running().no_duplicates() ==> final(self).running().no_duplicates()
                && forall|x: Seq<char>| #[trigger] final(self).running().contains(x) <==> (old(self).running().contains(x)
                && x != task_id@),
            succeeded ==> final(self).completed() == set_insert(old(self).completed(), task_id@)
                && final(self).failed() == old(self).failed(),
            !succeeded ==> final(self).failed() == set_insert(old(self).failed(), task_id@)
                && final(self).completed() == old(self).completed(),
            final(self).running().len() == old(self).running().len() - (if old(self).running().contains(task_id@) {
                1int
            } else {
                0int
            }),
            forall|dag: DagDefinition| #[trigger] old(self).wf(dag) ==> final(self).wf(dag)
                && final(self).remaining_steps(dag) + 1 == old(self).remaining_steps(dag)
                && forall|x: Seq<char>| #[trigger] final(self).started(x) <==> old(self).started(x),
    {
        let ghost before = *self;
        match position_of(&self.in_flight, task_id) {
            Some(i) => {
                let ghost prev = self.in_flight@;
                self.in_flight.remove(i);
                proof {
                    lemma_strs_remove(prev, i as int);
                    lemma_remove_first_at(strs(prev), task_id@, i as int);
                }
            },
            None => {},
        }
        let ghost prev_running = self.running@;
        match position_of(&self.running, task_id) {
            Some(i) => {
                self.running.remove(i);
                proof {
                    lemma_strs_remove(prev_running, i as int);
                    if strs(prev_running).no_duplicates() {
                        lemma_remove_distinct(strs(prev_running), i as int);
                    }
                }
            },
            None => {},
        }
        if succeeded {
            if !contains_string(&self.completed, task_id) {
                let ghost prev = self.completed@;
                self.completed.push(task_id.clone());
                proof {
                    crate::dag::definition::lemma_map_push(prev, self.completed@.last(), |x: String| x@);
                }
            }
        } else {
            if !contains_string(&self.failed, task_id) {
                let ghost prev = self.failed@;
                self.failed.push(task_id.clone());
                proof {
                    crate::dag::definition::lemma_map_push(prev, self.failed@.last(), |x: String| x@);
                }
            }
        }
        proof {
            assert forall|dag: DagDefinition| #[trigger] before.wf(dag) implies self.wf(dag)
                && self.remaining_steps(dag) + 1 == before.remaining_steps(dag)
                && forall|x: Seq<char>| #[trigger] self.started(x) <==> before.started(x) by {
                lemma_record_preserves_wf(before, *self, dag, task_id@, succeeded);
            }
        }
    }
}

/// Recording a result keeps the invariant and uses up one step.
proof fn lemma_record_preserves_wf(
    before: RunState,
    after: RunState,
    dag: DagDefinition,
    id: Seq<char>,
    succeeded: bool,
)
    requires
        before.wf(dag),
        before.in_flight().contains(id),
        after.in_flight() == remove_first(before.in_flight(), id),
        after.running().no_duplicates(),
        forall|x: Seq<char>| #[trigger] after.running().contains(x) <==> (before.running().contains(x) && x != id),
        after.running().len() == before.running().len() - (if before.running().contains(id) {
            1int
        } else {
            0int
        }),
        succeeded ==> after.completed() == set_insert(before.completed(), id) && after.failed()
            == before.failed(),
        !succeeded ==> after.failed() == set_insert(before.failed(), id) && after.completed()
            == before.completed(),
    ensures
        after.wf(dag),
        after.remaining_steps(dag) + 1 == before.remaining_steps(dag),
        forall|x: Seq<char>| #[trigger] after.started(x) <==> before.started(x),
{
    let inf = before.in_flight();
    let k = choose|k: int| 0 <= k < inf.len() && inf[k] == id && forall|j: int| 0 <= j < k ==> inf[j] != id;
    assert(after.in_flight() == inf.remove(k));
    lemma_remove_distinct(inf, k);
    assert(before.running().contains(id));
    assert(!before.completed().contains(id));
    assert(!before.failed().contains(id));
    if succeeded {
        assert(after.completed() == before.completed().push(id));
        assert forall|x: Seq<char>| #[trigger] after.completed().contains(x) <==> (before.completed().contains(x)
            || x == id) by {
            vstd::seq_lib::lemma_seq_contains_after_push(before.completed(), id, x);
        }
        lemma_concat_distinct(before.completed(), seq![id]);
        assert(before.completed() + seq![id] =~= before.completed().push(id));
    } else {
        assert(after.failed() == before.failed().push(id));
        assert forall|x: Seq<char>| #[trigger] after.failed().contains(x) <==> (before.failed().contains(x)
            || x == id) by {
            vstd::seq_lib::lemma_seq_contains_after_push(before.failed(), id, x);
        }
        lemma_concat_distinct(before.failed(), seq![id]);
        assert(before.failed() + seq![id] =~= before.failed().push(id));
    }
    assert forall|x: Seq<char>| #[trigger] after.started(x) <==> before.started(x) by {
        if succeeded {
            assert(after.completed().contains(x) <==> (before.completed().contains(x) || x == id));
        } else {
            assert(after.failed().contains(x) <==> (before.failed().contains(x) || x == id));
        }
    }
    assert forall|x: Seq<char>| #[trigger] after.started(x) implies dag.task_ids().contains(x) by {
        assert(before.started(x));
    }
}

/// In a run over a DAG with the invariant, the remaining step count is not
/// negative: the run loop, which uses up at least one step per result it
/// waits for, ends.
pub proof fn lemma_remaining_steps_nonnegative(st: RunState, dag: DagDefinition)
    requires
        st.wf(dag),
    ensures
        st.remaining_steps(dag) >= 0,
{
    broadcast use vstd::seq_lib::seq_to_set_is_finite;

    let c = st.completed();
    let f = st.failed();
    let r = st.running();
    lemma_concat_distinct(c, f);
    assert forall|x: Seq<char>| #[trigger] r.contains(x) implies !(c + f).contains(x) by {
        vstd::seq_lib::lemma_seq_concat_contains_all_elements(c, f, x);
    }
    lemma_concat_distinct(c + f, r);
    let all = c + f + r;
    all.unique_seq_to_set();
    assert forall|x: Seq<char>| all.to_set().contains(x) implies dag.task_ids().to_set().contains(x) by {
        vstd::seq_lib::lemma_seq_concat_contains_all_elements(c + f, r, x);
        vstd::seq_lib::lemma_seq_concat_contains_all_elements(c, f, x);
        assert(st.started(x));
    }
    vstd::set_lib::lemma_len_subset(all.to_set(), dag.task_ids().to_set());
}

/// A task with a failed dependency never becomes runnable.
pub proof fn lemma_failed_dependency_blocks(st: RunState, dag: DagDefinition, x: Seq<char>, d: Seq<char>)
    requires
        st.wf(dag),
        dag.task_deps(x).contains(d),
        st.failed().contains(d),
    ensures
        !st.runnable(dag).contains(x),
{
    lemma_runnable_ready(st, dag);
    if st.runnable(dag).contains(x) {
        assert(ready(dag, st.completed(), st.failed(), st.running(), x));
        let t = dag.spec_get_task(x);
        assert(t is Some);
        assert(t->0.spec_dependencies().contains(d));
        assert(st.completed().contains(d));
    }
}

/// When a run is over (nothing waits for a result and nothing can start),
/// every task has completed or failed, or some dependency of it has not
/// completed.
pub proof fn lemma_finished_run_outcome(st: RunState, dag: DagDefinition)
    requires
        st.wf(dag),
        st.in_flight().len() == 0,
        st.runnable(dag).len() == 0,
    ensures
        forall|x: Seq<char>| #[trigger] dag.task_ids().contains(x) ==> st.completed().contains(x)
            || st.failed().contains(x) || !dag.spec_dependencies_satisfied(x, st.completed()),
{
    assert forall|x: Seq<char>| #[trigger] dag.task_ids().contains(x) implies st.completed().contains(x)
        || st.failed().contains(x) || !dag.spec_dependencies_satisfied(x, st.completed()) by {
        assert(!st.running().contains(x)) by {
            if st.running().contains(x) {
                assert(st.in_flight().contains(x));
            }
        }
        if !st.completed().contains(x) && !st.failed().contains(x) && dag.spec_dependencies_satisfied(
            x,
            st.completed(),
        ) {
            let pred = |t: TaskDefinition| ready(dag, st.completed(), st.failed(), st.running(), t.id@);
            let i = choose|i: int| 0 <= i < dag.task_ids().len() && dag.task_ids()[i] == x;
            assert(pred(dag.tasks@[i]));
            dag.tasks@.lemma_filter_contains(pred, i);
            let f = dag.tasks@.filter(pred);
            let k = choose|k: int| 0 <= k < f.len() && f[k] == dag.tasks@[i];
            assert(ids_of(f)[k] == x);
        }
    }
}

/// What `runnable` lists is ready.
pub proof fn lemma_runnable_ready(st: RunState, dag: DagDefinition)
    ensures
        forall|x: Seq<char>| #[trigger] st.runnable(dag).contains(x) ==> ready(
            dag,
            st.completed(),
            st.failed(),
            st.running(),
            x,
        ),
{
    let pred = |t: TaskDefinition| ready(dag, st.completed(), st.failed(), st.running(), t.id@);
    let f = dag.tasks@.filter(pred);
    assert forall|x: Seq<char>| #[trigger] st.runnable(dag).contains(x) implies ready(
        dag,
        st.completed(),
        st.failed(),
        st.running(),
        x,
    ) by {
        let k = choose|k: int| 0 <= k < st.runnable(dag).len() && st.runnable(dag)[k] == x;
        assert(st.runnable(dag)[k] == f[k].id@);
        dag.tasks@.lemma_filter_pred(pred, k);
        assert(f.contains(f[k]));
        assert(pred(f[k]));
    }
}

/// With distinct task ids, `runnable` lists distinct ids not yet started.
pub proof fn lemma_runnable_distinct(st: RunState, dag: DagDefinition)
    requires
        distinct_task_ids(dag),
    ensures
        st.runnable(dag).no_duplicates(),
        forall|x: Seq<char>| #[trigger] st.runnable(dag).contains(x) ==> dag.task_ids().contains(x),
{
    let pred = |t: TaskDefinition| ready(dag, st.completed(), st.failed(), st.running(), t.id@);
    lemma_filter_ids_distinct(dag.tasks@, pred);
}

/// Filtering tasks with distinct ids keeps the ids distinct, and keeps
/// only ids that were there.
pub proof fn lemma_filter_ids_distinct(tasks: Seq<TaskDefinition>, pred: spec_fn(TaskDefinition) -> bool)
    requires
        ids_of(tasks).no_duplicates(),
    ensures
        ids_of(tasks.filter(pred)).no_duplicates(),
        forall|x: Seq<char>| #[trigger] ids_of(tasks.filter(pred)).contains(x) ==> ids_of(tasks).contains(x),
    decreases tasks.len(),
{
    reveal(Seq::filter);
    if tasks.len() > 0 {
        let rest = tasks.drop_last();
        assert(ids_of(rest) =~= ids_of(tasks).drop_last());
        assert(ids_of(rest).no_duplicates()) by {
            assert forall|i: int, j: int| 0 <= i < rest.len() && 0 <= j < rest.len() && i != j implies
                ids_of(rest)[i] != ids_of(rest)[j] by {
                assert(ids_of(tasks)[i] != ids_of(tasks)[j]);
            }
        }
        lemma_filter_ids_distinct(rest, pred);
        let fr = ids_of(rest.filter(pred));
        assert forall|x: Seq<char>| #[trigger] fr.contains(x) implies ids_of(tasks).contains(x) by {
            let k = choose|k: int| 0 <= k < ids_of(rest).len() && ids_of(rest)[k] == x;
            assert(ids_of(tasks)[k] == x);
        }
        if pred(tasks.last()) {
            assert(tasks.filter(pred) == rest.filter(pred).push(tasks.last()));
            crate::dag::definition::lemma_map_push(rest.filter(pred), tasks.last(), |t: TaskDefinition| t.id@);
            let last_id = tasks.last().id@;
            assert(ids_of(tasks.filter(pred)) == fr.push(last_id));
            assert(ids_of(tasks)[tasks.len() - 1] == last_id);
            assert(!fr.contains(last_id)) by {
                if fr.contains(last_id) {
                    let k = choose|k: int| 0 <= k < ids_of(rest).len() && ids_of(rest)[k] == last_id;
                    assert(ids_of(tasks)[k] == ids_of(tasks)[tasks.len() - 1]);
                }
            }
            assert forall|x: Seq<char>| #[trigger] fr.push(last_id).contains(x) implies ids_of(tasks).contains(x) by {
                vstd::seq_lib::lemma_seq_contains_after_push(fr, last_id, x);
                if x == last_id {
                    assert(ids_of(tasks)[tasks.len() - 1] == x);
                } else {
                    assert(fr.contains(x));
                }
            }
        } else {
            assert(tasks.filter(pred) == rest.filter(pred));
        }
    }
}

/// Joining two duplicate-free sequences with no common element gives a
/// duplicate-free sequence.
pub proof fn lemma_concat_distinct(a: Seq<Seq<char>>, b: Seq<Seq<char>>)
    requires
        a.no_duplicates(),
        b.no_duplicates(),
        forall|x: Seq<char>| #[trigger] b.contains(x) ==> !a.contains(x),
    ensures
        (a + b).no_duplicates(),
{
    let c = a + b;
    assert forall|i: int, j: int| 0 <= i < c.len() && 0 <= j < c.len() && i != j implies c[i] != c[j] by {
        if i < a.len() && j >= a.len() {
            assert(b.contains(b[j - a.len()]));
        } else if j < a.len() && i >= a.len() {
            assert(b.contains(b[i - a.len()]));
        }
    }
}

/// Starting the runnable tasks keeps the invariant.
proof fn lemma_start_preserves_wf(before: RunState, after: RunState, dag: DagDefinition, r: Seq<Seq<char>>)
    requires
        before.wf(dag),
        distinct_task_ids(dag),
        r == before.runnable(dag),
        after.completed() == before.completed(),
        after.failed() == before.failed(),
        after.running() == before.running() + r,
        after.in_flight() == before.in_flight() + r,
    ensures
        after.wf(dag),
        after.remaining_steps(dag) + r.len() == before.remaining_steps(dag),
{
    lemma_runnable_ready(before, dag);
    lemma_runnable_distinct(before, dag);
    lemma_concat_distinct(before.running(), r);
    assert forall|x: Seq<char>| #[trigger] r.contains(x) implies !before.in_flight().contains(x) by {}
    lemma_concat_distinct(before.in_flight(), r);
    assert forall|x: Seq<char>| #[trigger] after.in_flight().contains(x) <==> after.running().contains(x) by {
        vstd::seq_lib::lemma_seq_concat_contains_all_elements(before.in_flight(), r, x);
        vstd::seq_lib::lemma_seq_concat_contains_all_elements(before.running(), r, x);
    }
    assert forall|x: Seq<char>| #[trigger] after.started(x) implies dag.task_ids().contains(x) by {
        vstd::seq_lib::lemma_seq_concat_contains_all_elements(before.running(), r, x);
        assert(before.started(x) || r.contains(x));
    }
    assert forall|x: Seq<char>|
        !(after.completed().contains(x) && after.running().contains(x)) by {
        vstd::seq_lib::lemma_seq_concat_contains_all_elements(before.running(), r, x);
    }
    assert forall|x: Seq<char>|
        !(after.failed().contains(x) && after.running().contains(x)) by {
        vstd::seq_lib::lemma_seq_concat_contains_all_elements(before.running(), r, x);
    }
}


/// `x` is a task of `dag` that has not completed.
pub open spec fn open_task(dag: DagDefinition, completed: Seq<Seq<char>>, x: Seq<char>) -> bool {
    dag.task_ids().contains(x) && !completed.contains(x)
}

/// Some dependency of `y` is an open task.
#[verifier::opaque]
pub open spec fn has_open_dependency(dag: DagDefinition, completed: Seq<Seq<char>>, y: Seq<char>) -> bool {
    exists|d: Seq<char>| #[trigger] dag.task_deps(y).contains(d) && open_task(dag, completed, d)
}

/// A task id has a first task carrying it.
proof fn lemma_some_first_task(dag: DagDefinition, x: Seq<char>, k: int)
    requires
        0 <= k < dag.tasks@.len(),
        dag.tasks@[k].id@ == x,
    ensures
        exists|i: int| dag.is_first_task(x, i),
    decreases k,
{
    if exists|j: int| 0 <= j < k && dag.tasks@[j].id@ == x {
        let j = choose|j: int| 0 <= j < k && dag.tasks@[j].id@ == x;
        lemma_some_first_task(dag, x, j);
    } else {
        assert(dag.is_first_task(x, k));
    }
}

/// In a DAG whose dependencies all name tasks, a task whose dependencies
/// have not all completed has a dependency that is an open task.
proof fn lemma_open_dependency(dag: DagDefinition, completed: Seq<Seq<char>>, x: Seq<char>)
    requires
        dag.task_ids().contains(x),
        !dag.spec_dependencies_satisfied(x, completed),
        !has_missing_dependency(dag),
    ensures
        has_open_dependency(dag, completed, x),
{
    reveal(has_open_dependency);
    let k = choose|k: int| 0 <= k < dag.task_ids().len() && dag.task_ids()[k] == x;
    assert(dag.tasks@[k].id@ == x);
    lemma_some_first_task(dag, x, k);
    let i = choose|i: int| dag.is_first_task(x, i);
    lemma_first_task_unique(dag, x, i);
    let deps = dag.tasks@[i].spec_dependencies();
    let d = choose|d: Seq<char>| #[trigger] deps.contains(d) && !completed.contains(d);
    let m = choose|m: int| 0 <= m < deps.len() && deps[m] == d;
    assert(!dependency_missing(dag, i, m));
    assert(dag.task_deps(x).contains(d) && open_task(dag, completed, d));
}

/// A dependency of `y` that is an open task.
proof fn lemma_pick_open_dependency(dag: DagDefinition, completed: Seq<Seq<char>>, y: Seq<char>) -> (d: Seq<char>)
    requires
        has_open_dependency(dag, completed, y),
    ensures
        dag.task_deps(y).contains(d),
        open_task(dag, completed, d),
{
    reveal(has_open_dependency);
    choose|d: Seq<char>| #[trigger] dag.task_deps(y).contains(d) && open_task(dag, completed, d)
}

/// When every open task has a dependency that is an open task, a
/// dependency path of open tasks of any length starts at each open task.
proof fn lemma_open_path(dag: DagDefinition, completed: Seq<Seq<char>>, x: Seq<char>, n: nat) -> (p: Seq<
    Seq<char>,
>)
    requires
        open_task(dag, completed, x),
        forall|y: Seq<char>| #[trigger] open_task(dag, completed, y) ==> has_open_dependency(dag, completed, y),
    ensures
        p.len() == n + 1,
        p[0] == x,
        dag.is_dep_path(p),
        forall|m: int| 0 <= m < p.len() ==> #[trigger] open_task(dag, completed, p[m]),
    decreases n,
{
    if n == 0 {
        let p = seq![x];
        assert(p[0] == x);
        p
    } else {
        let q = lemma_open_path(dag, completed, x, (n - 1) as nat);
        let y = q.last();
        assert(open_task(dag, completed, q[q.len() - 1]));
        let d = lemma_pick_open_dependency(dag, completed, y);
        let p = q.push(d);
        assert forall|k: int| 0 <= k < p.len() - 1 implies #[trigger] dag.task_deps(p[k]).contains(p[k + 1]) by {
            if k < q.len() - 1 {
                assert(dag.task_deps(q[k]).contains(q[k + 1]));
            }
        }
        assert forall|m: int| 0 <= m < p.len() implies #[trigger] open_task(dag, completed, p[m]) by {
            if m < q.len() {
                assert(p[m] == q[m]);
            }
        }
        p
    }
}

/// A finished run over a valid DAG has no failed task exactly when every
/// task completed; so the run succeeds exactly when every task succeeded.
pub proof fn lemma_finished_run_succeeds_iff_all_completed(st: RunState, dag: DagDefinition)
    requires
        st.wf(dag),
        validation_accepts(dag),
        st.in_flight().len() == 0,
        st.runnable(dag).len() == 0,
    ensures
        st.failed().len() == 0 <==> forall|x: Seq<char>| #[trigger]
            dag.task_ids().contains(x) ==> st.completed().contains(x),
{
    broadcast use vstd::seq_lib::seq_to_set_is_finite;

    let c = st.completed();
    if st.failed().len() == 0 {
        lemma_finished_run_outcome(st, dag);
        assert forall|y: Seq<char>| #[trigger] open_task(dag, c, y) implies has_open_dependency(dag, c, y) by {
            assert(dag.task_ids().contains(y));
            assert(!st.failed().contains(y));
            lemma_open_dependency(dag, c, y);
        }
        assert forall|x: Seq<char>| #[trigger] dag.task_ids().contains(x) implies c.contains(x) by {
            if !c.contains(x) {
                let n = dag.task_ids().to_set().len();
                let p = lemma_open_path(dag, c, x, n);
                if p.no_duplicates() {
                    p.unique_seq_to_set();
                    assert forall|y: Seq<char>| p.to_set().contains(y) implies dag.task_ids().to_set().contains(y) by {
                        let m = choose|m: int| 0 <= m < p.len() && p[m] == y;
                        assert(open_task(dag, c, p[m]));
                    }
                    vstd::set_lib::lemma_len_subset(p.to_set(), dag.task_ids().to_set());
                } else {
                    let (i, j) = choose|i: int, j: int| 0 <= i < p.len() && 0 <= j < p.len() && i != j && p[i] == p[j];
                    let lo = if i < j { i } else { j };
                    let hi = if i < j { j } else { i };
                    let q = p.subrange(lo, hi + 1);
                    assert forall|k: int| 0 <= k < q.len() - 1 implies #[trigger] dag.task_deps(q[k]).contains(q[k + 1]) by {
                        assert(dag.task_deps(p[lo + k]).contains(p[lo + k + 1]));
                    }
                    assert(dag.is_dep_path(q));
                    assert(q.len() >= 2 && q[0] == p[lo] && q.last() == p[lo]);
                    assert(dag.on_cycle(p[lo]));
                }
            }
        }
    } else {
        let f = st.failed()[0];
        assert(st.failed().contains(f));
        assert(st.started(f));
        assert(dag.task_ids().contains(f));
        assert(!c.contains(f));
    }
}

} // verus!
