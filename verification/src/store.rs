use vstd::prelude::*;
use vstd::pervasive::VecAdditionalExecFns;

use crate::area::{Area, AreaView};
use crate::project::{Project, ProjectView};
use crate::task::{Task, TaskView};
use crate::text::str_eq;

verus! {

/// Current schema version of the on-disk document.
pub const CURRENT_VERSION: u32 = 2;

/// Index of the first element satisfying `p`, or -1 if none does.
pub open spec fn first_index_where<T>(s: Seq<T>, p: spec_fn(T) -> bool) -> int
    decreases s.len(),
{
    if s.len() == 0 {
        -1
    } else if p(s[0]) {
        0
    } else {
        let r = first_index_where(s.subrange(1, s.len() as int), p);
        if r == -1 {
            -1
        } else {
            r + 1
        }
    }
}

pub proof fn lemma_first_index_none<T>(s: Seq<T>, p: spec_fn(T) -> bool)
    requires
        forall|j: int| 0 <= j < s.len() ==> !p(#[trigger] s[j]),
    ensures
        first_index_where(s, p) == -1,
    decreases s.len(),
{
    if s.len() > 0 {
        let t = s.subrange(1, s.len() as int);
        assert(forall|j: int| 0 <= j < t.len() ==> t[j] == s[j + 1] && !p(#[trigger] t[j]));
        lemma_first_index_none(t, p);
    }
}

pub proof fn lemma_first_index_at<T>(s: Seq<T>, p: spec_fn(T) -> bool, i: int)
    requires
        0 <= i < s.len(),
        p(s[i]),
        forall|j: int| 0 <= j < i ==> !p(#[trigger] s[j]),
    ensures
        first_index_where(s, p) == i,
    decreases s.len(),
{
    if i > 0 {
        let t = s.subrange(1, s.len() as int);
        assert(forall|j: int| 0 <= j < t.len() ==> t[j] == s[j + 1]);
        assert(t[i - 1] == s[i]);
        lemma_first_index_at(t, p, i - 1);
    }
}

/// Replaces the first element satisfying `p` with `x`, or appends `x` if
/// none does.
pub open spec fn upsert_where<T>(s: Seq<T>, x: T, p: spec_fn(T) -> bool) -> Seq<T> {
    let j = first_index_where(s, p);
    if j >= 0 {
        s.update(j, x)
    } else {
        s.push(x)
    }
}

/// Shows what `filter` does when one element is appended to a prefix.
pub proof fn lemma_filter_push<T>(s: Seq<T>, p: spec_fn(T) -> bool, i: int)
    requires
        0 <= i < s.len(),
    ensures
        s.subrange(0, i + 1).filter(p) == if p(s[i]) {
            s.subrange(0, i).filter(p).push(s[i])
        } else {
            s.subrange(0, i).filter(p)
        },
{
    reveal(Seq::filter);
    let q = s.subrange(0, i + 1);
    assert(q.drop_last() =~= s.subrange(0, i));
    assert(q.last() == s[i]);
}

/// The in-memory working set: every task, project and area, keyed by
/// identity, plus the monotonic task-number counter.
#[derive(Debug)]
pub struct Store {
    /// Schema version the store was loaded at.
    pub version: u32,
    /// The next user-facing task number to assign; never decremented.
    pub next_task_number: u64,
    /// All tasks, active and deleted.
    pub tasks: Vec<Task>,
    /// All projects, active and deleted.
    pub projects: Vec<Project>,
    /// All areas, active and deleted.
    pub areas: Vec<Area>,
}

/// Mathematical model of a [`Store`].
#[verifier::ext_equal]
pub struct StoreView {
    pub version: u32,
    pub next_task_number: u64,
    pub tasks: Seq<TaskView>,
    pub projects: Seq<ProjectView>,
    pub areas: Seq<AreaView>,
}

impl View for Store {
    type V = StoreView;

    open spec fn view(&self) -> StoreView {
        StoreView {
            version: self.version,
            next_task_number: self.next_task_number,
            tasks: self.tasks.deep_view(),
            projects: self.projects.deep_view(),
            areas: self.areas.deep_view(),
        }
    }
}

/// Relates a store before and after one `add_task` call: the task takes
/// the counter value as its number, the counter advances by one, and
/// nothing else changes.
pub open spec fn add_task_post(pre: StoreView, task: TaskView, post: StoreView) -> bool {
    let numbered = TaskView { task_number: pre.next_task_number, ..task };
    &&& post.next_task_number == pre.next_task_number + 1
    &&& post.tasks == upsert_where(pre.tasks, numbered, |t: TaskView| t.id == numbered.id)
    &&& post.projects == pre.projects
    &&& post.areas == pre.areas
    &&& post.version == pre.version
}


/// One step of a store's history: either one `add_task` call (carrying
/// the task it was given), or any other operation — none of which
/// touches the task-number counter.
pub open spec fn history_step(pre: StoreView, step: Option<TaskView>, post: StoreView) -> bool {
    match step {
        Some(t) => add_task_post(pre, t, post),
        None => post.next_task_number == pre.next_task_number,
    }
}

/// How many of the first `k` steps were `add_task` calls.
pub open spec fn adds_before(steps: Seq<Option<TaskView>>, k: int) -> int
    decreases k,
{
    if k <= 0 {
        0
    } else {
        adds_before(steps, k - 1) + if steps[k - 1] is Some {
            1int
        } else {
            0int
        }
    }
}

proof fn lemma_counter_evolution(
    states: Seq<StoreView>,
    steps: Seq<Option<TaskView>>,
    k: int,
)
    requires
        states.len() == steps.len() + 1,
        forall|x: int|
            0 <= x < steps.len() ==> #[trigger] history_step(states[x], steps[x], states[x + 1]),
        0 <= k <= steps.len(),
    ensures
        states[k].next_task_number == states[0].next_task_number + adds_before(steps, k),
    decreases k,
{
    if k > 0 {
        lemma_counter_evolution(states, steps, k - 1);
        let x = k - 1;
        assert(history_step(states[x], steps[x], states[x + 1]));
        assert(states[x + 1] == states[k]);
    }
}

proof fn lemma_adds_before_monotonic(steps: Seq<Option<TaskView>>, k1: int, k2: int)
    requires
        0 <= k1 < k2 <= steps.len(),
        steps[k1] is Some,
    ensures
        adds_before(steps, k2) >= adds_before(steps, k1) + 1,
    decreases k2,
{
    if k2 == k1 + 1 {
    } else {
        lemma_adds_before_monotonic(steps, k1, k2 - 1);
    }
}

/// Law: over any sequence of operations, the task numbers that
/// `add_task` assigns are strictly increasing, with no gaps and no
/// reuse, however the adds are interleaved with other operations (which
/// never touch the counter). The number assigned by an add at step `k`
/// is the starting counter plus the count of adds before it; from a
/// fresh store, whose counter starts at 1, the successive adds are
/// numbered exactly 1, 2, 3, and so on.
pub proof fn lemma_task_numbers_strictly_increase(
    states: Seq<StoreView>,
    steps: Seq<Option<TaskView>>,
)
    requires
        states.len() == steps.len() + 1,
        forall|x: int|
            0 <= x < steps.len() ==> #[trigger] history_step(states[x], steps[x], states[x + 1]),
    ensures
        forall|k: int|
            0 <= k < steps.len() ==> #[trigger] states[k].next_task_number as int == states[0].next_task_number
                + adds_before(steps, k),
        forall|k1: int, k2: int|
            (0 <= k1 < k2 < steps.len() && steps[k1] is Some && #[trigger] steps[k2] is Some)
                ==> #[trigger] states[k1].next_task_number < states[k2].next_task_number,
        states[0].next_task_number == 1 ==> forall|k: int|
            (0 <= k < steps.len() && #[trigger] steps[k] is Some) ==> states[k].next_task_number
                as int == 1 + adds_before(steps, k),
{
    assert forall|k: int| 0 <= k < steps.len() implies #[trigger] states[k].next_task_number
        as int == states[0].next_task_number + adds_before(steps, k) by {
        lemma_counter_evolution(states, steps, k);
    }
    assert forall|k1: int, k2: int|
        (0 <= k1 < k2 < steps.len() && steps[k1] is Some && #[trigger] steps[k2] is Some)
        implies #[trigger] states[k1].next_task_number < states[k2].next_task_number by {
        lemma_counter_evolution(states, steps, k1);
        lemma_counter_evolution(states, steps, k2);
        lemma_adds_before_monotonic(steps, k1, k2);
    }
}

impl Default for Store {
    /// A fresh, empty store at the current schema version, with task
    /// numbering starting at 1.
    fn default() -> (r: Self)
        ensures
            r@.version == CURRENT_VERSION,
            r@.next_task_number == 1,
            r@.tasks == Seq::<TaskView>::empty(),
            r@.projects == Seq::<ProjectView>::empty(),
            r@.areas == Seq::<AreaView>::empty(),
    {
        let r = Store {
            version: CURRENT_VERSION,
            next_task_number: 1,
            tasks: Vec::new(),
            projects: Vec::new(),
            areas: Vec::new(),
        };
        proof {
            assert(r@.tasks =~= Seq::<TaskView>::empty());
            assert(r@.projects =~= Seq::<ProjectView>::empty());
            assert(r@.areas =~= Seq::<AreaView>::empty());
        }
        r
    }
}

impl Store {
    /// Adds `task` to the store, assigning it the next task number and
    /// advancing the counter; a task with the same id is replaced, as an
    /// insert keyed by identity.
    pub fn add_task(&mut self, task: Task)
        requires
            old(self).next_task_number < u64::MAX,
        ensures
            add_task_post(old(self)@, task@, final(self)@),
    {
        let ghost pre_view = task@;
        let mut numbered = task;
        numbered.task_number = self.next_task_number;
        proof {
            assert(numbered@ =~= TaskView {
                task_number: old(self)@.next_task_number,
                ..pre_view
            });
        }
        self.next_task_number = self.next_task_number + 1;
        self.upsert_task(numbered);
    }

    /// Adds `project` to the store; a project with the same id is replaced.
    pub fn add_project(&mut self, project: Project)
        ensures
            final(self)@.projects == upsert_where(
                old(self)@.projects,
                project@,
                |p: ProjectView| p.id == project@.id,
            ),
            final(self)@.tasks == old(self)@.tasks,
            final(self)@.areas == old(self)@.areas,
            final(self)@.version == old(self)@.version,
            final(self)@.next_task_number == old(self)@.next_task_number,
    {
        let mut i: usize = 0;
        let n = self.projects.len();
        while i < n
            invariant
                i <= n,
                n == self.projects.len(),
                *self == *old(self),
                forall|j: int| 0 <= j < i ==> old(self)@.projects[j].id != project@.id,
            decreases n - i,
        {
            if str_eq(self.projects[i].id.as_str(), project.id.as_str()) {
                proof {
                    lemma_first_index_at(self@.projects, |p: ProjectView| p.id == project@.id, i as int);
                }
                self.projects.set(i, project);
                proof {
                    assert(self@.projects =~= old(self)@.projects.update(i as int, project@));
                }
                return ;
            }
            i += 1;
        }
        proof {
            lemma_first_index_none(self@.projects, |p: ProjectView| p.id == project@.id);
        }
        self.projects.push(project);
        proof {
            assert(self@.projects =~= old(self)@.projects.push(project@));
        }
    }

    /// Adds `area` to the store; an area with the same id is replaced.
    pub fn add_area(&mut self, area: Area)
        ensures
            final(self)@.areas == upsert_where(
                old(self)@.areas,
                area@,
                |a: AreaView| a.id == area@.id,
            ),
            final(self)@.tasks == old(self)@.tasks,
            final(self)@.projects == old(self)@.projects,
            final(self)@.version == old(self)@.version,
            final(self)@.next_task_number == old(self)@.next_task_number,
    {
        let mut i: usize = 0;
        let n = self.areas.len();
        while i < n
            invariant
                i <= n,
                n == self.areas.len(),
                *self == *old(self),
                forall|j: int| 0 <= j < i ==> old(self)@.areas[j].id != area@.id,
            decreases n - i,
        {
            if str_eq(self.areas[i].id.as_str(), area.id.as_str()) {
                proof {
                    lemma_first_index_at(self@.areas, |a: AreaView| a.id == area@.id, i as int);
                }
                self.areas.set(i, area);
                proof {
                    assert(self@.areas =~= old(self)@.areas.update(i as int, area@));
                }
                return ;
            }
            i += 1;
        }
        proof {
            lemma_first_index_none(self@.areas, |a: AreaView| a.id == area@.id);
        }
        self.areas.push(area);
        proof {
            assert(self@.areas =~= old(self)@.areas.push(area@));
        }
    }

    /// Replaces the task with the same id, or appends the task if the id is
    /// new; the counter is not touched.
    pub fn put_task(&mut self, task: Task)
        ensures
            final(self)@.tasks == upsert_where(
                old(self)@.tasks,
                task@,
                |t: TaskView| t.id == task@.id,
            ),
            final(self)@.projects == old(self)@.projects,
            final(self)@.areas == old(self)@.areas,
            final(self)@.version == old(self)@.version,
            final(self)@.next_task_number == old(self)@.next_task_number,
    {
        self.upsert_task(task);
    }

    fn upsert_task(&mut self, task: Task)
        ensures
            final(self)@.tasks == upsert_where(
                old(self)@.tasks,
                task@,
                |t: TaskView| t.id == task@.id,
            ),
            final(self)@.projects == old(self)@.projects,
            final(self)@.areas == old(self)@.areas,
            final(self)@.version == old(self)@.version,
            final(self)@.next_task_number == old(self)@.next_task_number,
    {
        let mut i: usize = 0;
        let n = self.tasks.len();
        while i < n
            invariant
                i <= n,
                n == self.tasks.len(),
                *self == *old(self),
                forall|j: int| 0 <= j < i ==> old(self)@.tasks[j].id != task@.id,
            decreases n - i,
        {
            if str_eq(self.tasks[i].id.as_str(), task.id.as_str()) {
                proof {
                    lemma_first_index_at(self@.tasks, |t: TaskView| t.id == task@.id, i as int);
                }
                self.tasks.set(i, task);
                proof {
                    assert(self@.tasks =~= old(self)@.tasks.update(i as int, task@));
                }
                return ;
            }
            i += 1;
        }
        proof {
            lemma_first_index_none(self@.tasks, |t: TaskView| t.id == task@.id);
        }
        self.tasks.push(task);
        proof {
            assert(self@.tasks =~= old(self)@.tasks.push(task@));
        }
    }

    /// The task with the given id, if any.
    pub fn get_task(&self, id: &str) -> (r: Option<&Task>)
        ensures
            ({
                let j = first_index_where(self@.tasks, |t: TaskView| t.id == id@);
                &&& (r is Some <==> j >= 0)
                &&& (r matches Some(t) ==> t@ == self@.tasks[j])
            }),
    {
        let mut i: usize = 0;
        let n = self.tasks.len();
        while i < n
            invariant
                i <= n,
                n == self.tasks.len(),
                forall|j: int| 0 <= j < i ==> self@.tasks[j].id != id@,
            decreases n - i,
        {
            if str_eq(self.tasks[i].id.as_str(), id) {
                proof {
                    lemma_first_index_at(self@.tasks, |t: TaskView| t.id == id@, i as int);
                }
                return Some(&self.tasks[i]);
            }
            i += 1;
        }
        proof {
            lemma_first_index_none(self@.tasks, |t: TaskView| t.id == id@);
        }
        None
    }

    /// The task carrying the given user-facing number, if any; deleted
    /// tasks remain addressable by number.
    pub fn get_task_by_number(&self, number: u64) -> (r: Option<&Task>)
        ensures
            ({
                let j = first_index_where(self@.tasks, |t: TaskView| t.task_number == number);
                &&& (r is Some <==> j >= 0)
                &&& (r matches Some(t) ==> t@ == self@.tasks[j])
            }),
    {
        let mut i: usize = 0;
        let n = self.tasks.len();
        while i < n
            invariant
                i <= n,
                n == self.tasks.len(),
                forall|j: int| 0 <= j < i ==> self@.tasks[j].task_number != number,
            decreases n - i,
        {
            if self.tasks[i].task_number == number {
                proof {
                    lemma_first_index_at(
                        self@.tasks,
                        |t: TaskView| t.task_number == number,
                        i as int,
                    );
                }
                return Some(&self.tasks[i]);
            }
            i += 1;
        }
        proof {
            lemma_first_index_none(self@.tasks, |t: TaskView| t.task_number == number);
        }
        None
    }

    /// The project with the given id, if any.
    pub fn get_project(&self, id: &str) -> (r: Option<&Project>)
        ensures
            ({
                let j = first_index_where(self@.projects, |p: ProjectView| p.id == id@);
                &&& (r is Some <==> j >= 0)
                &&& (r matches Some(p) ==> p@ == self@.projects[j])
            }),
    {
        let mut i: usize = 0;
        let n = self.projects.len();
        while i < n
            invariant
                i <= n,
                n == self.projects.len(),
                forall|j: int| 0 <= j < i ==> self@.projects[j].id != id@,
            decreases n - i,
        {
            if str_eq(self.projects[i].id.as_str(), id) {
                proof {
                    lemma_first_index_at(self@.projects, |p: ProjectView| p.id == id@, i as int);
                }
                return Some(&self.projects[i]);
            }
            i += 1;
        }
        proof {
            lemma_first_index_none(self@.projects, |p: ProjectView| p.id == id@);
        }
        None
    }

    /// The area with the given id, if any.
    pub fn get_area(&self, id: &str) -> (r: Option<&Area>)
        ensures
            ({
                let j = first_index_where(self@.areas, |a: AreaView| a.id == id@);
                &&& (r is Some <==> j >= 0)
                &&& (r matches Some(a) ==> a@ == self@.areas[j])
            }),
    {
        let mut i: usize = 0;
        let n = self.areas.len();
        while i < n
            invariant
                i <= n,
                n == self.areas.len(),
                forall|j: int| 0 <= j < i ==> self@.areas[j].id != id@,
            decreases n - i,
        {
            if str_eq(self.areas[i].id.as_str(), id) {
                proof {
                    lemma_first_index_at(self@.areas, |a: AreaView| a.id == id@, i as int);
                }
                return Some(&self.areas[i]);
            }
            i += 1;
        }
        proof {
            lemma_first_index_none(self@.areas, |a: AreaView| a.id == id@);
        }
        None
    }

    /// All active (non-deleted) tasks.
    pub fn get_active_tasks(&self) -> (v: Vec<Task>)
        ensures
            v.deep_view() == self@.tasks.filter(|t: TaskView| t.deleted_at is None),
    {
        filter_tasks(&self.tasks, true)
    }

    /// All deleted tasks (the trash view).
    pub fn get_deleted_tasks(&self) -> (v: Vec<Task>)
        ensures
            v.deep_view() == self@.tasks.filter(|t: TaskView| t.deleted_at is Some),
    {
        filter_tasks(&self.tasks, false)
    }

    /// All active (non-deleted) projects.
    pub fn get_active_projects(&self) -> (v: Vec<Project>)
        ensures
            v.deep_view() == self@.projects.filter(|p: ProjectView| p.deleted_at is None),
    {
        filter_projects(&self.projects, true)
    }

    /// All deleted projects (the trash view).
    pub fn get_deleted_projects(&self) -> (v: Vec<Project>)
        ensures
            v.deep_view() == self@.projects.filter(|p: ProjectView| p.deleted_at is Some),
    {
        filter_projects(&self.projects, false)
    }

    /// All active (non-deleted) areas.
    pub fn get_active_areas(&self) -> (v: Vec<Area>)
        ensures
            v.deep_view() == self@.areas.filter(|a: AreaView| a.deleted_at is None),
    {
        filter_areas(&self.areas, true)
    }

    /// All deleted areas (the trash view).
    pub fn get_deleted_areas(&self) -> (v: Vec<Area>)
        ensures
            v.deep_view() == self@.areas.filter(|a: AreaView| a.deleted_at is Some),
    {
        filter_areas(&self.areas, false)
    }

    /// The tasks belonging to the given project, whatever their delete or
    /// completion state.
    pub fn get_tasks_for_project(&self, project_id: &str) -> (v: Vec<Task>)
        ensures
            v.deep_view() == self@.tasks.filter(|t: TaskView| t.project_id == Some(project_id@)),
    {
        let mut v: Vec<Task> = Vec::new();
        let n = self.tasks.len();
        let mut i: usize = 0;
        while i < n
            invariant
                i <= n,
                n == self.tasks.len(),
                v.deep_view() == self@.tasks.subrange(0, i as int).filter(
                    |t: TaskView| t.project_id == Some(project_id@),
                ),
            decreases n - i,
        {
            proof {
                lemma_filter_push(
                    self@.tasks,
                    |t: TaskView| t.project_id == Some(project_id@),
                    i as int,
                );
            }
            let keep = match &self.tasks[i].project_id {
                Some(p) => str_eq(p.as_str(), project_id),
                None => false,
            };
            if keep {
                let ghost prev = v.deep_view();
                v.push(self.tasks[i].clone());
                proof {
                    assert(v.deep_view() =~= prev.push(self@.tasks[i as int]));
                }
            }
            i += 1;
        }
        proof {
            assert(self@.tasks.subrange(0, n as int) =~= self@.tasks);
        }
        v
    }

    /// The projects belonging to the given area, whatever their state.
    pub fn get_projects_for_area(&self, area_id: &str) -> (v: Vec<Project>)
        ensures
            v.deep_view() == self@.projects.filter(|p: ProjectView| p.area_id == Some(area_id@)),
    {
        let mut v: Vec<Project> = Vec::new();
        let n = self.projects.len();
        let mut i: usize = 0;
        while i < n
            invariant
                i <= n,
                n == self.projects.len(),
                v.deep_view() == self@.projects.subrange(0, i as int).filter(
                    |p: ProjectView| p.area_id == Some(area_id@),
                ),
            decreases n - i,
        {
            proof {
                lemma_filter_push(
                    self@.projects,
                    |p: ProjectView| p.area_id == Some(area_id@),
                    i as int,
                );
            }
            let keep = match &self.projects[i].area_id {
                Some(a) => str_eq(a.as_str(), area_id),
                None => false,
            };
            if keep {
                let ghost prev = v.deep_view();
                v.push(self.projects[i].clone());
                proof {
                    assert(v.deep_view() =~= prev.push(self@.projects[i as int]));
                }
            }
            i += 1;
        }
        proof {
            assert(self@.projects.subrange(0, n as int) =~= self@.projects);
        }
        v
    }

    /// The tasks directly under the given area: those with no project.
    pub fn get_tasks_for_area(&self, area_id: &str) -> (v: Vec<Task>)
        ensures
            v.deep_view() == self@.tasks.filter(
                |t: TaskView| t.area_id == Some(area_id@) && t.project_id is None,
            ),
    {
        let mut v: Vec<Task> = Vec::new();
        let n = self.tasks.len();
        let mut i: usize = 0;
        while i < n
            invariant
                i <= n,
                n == self.tasks.len(),
                v.deep_view() == self@.tasks.subrange(0, i as int).filter(
                    |t: TaskView| t.area_id == Some(area_id@) && t.project_id is None,
                ),
            decreases n - i,
        {
            proof {
                lemma_filter_push(
                    self@.tasks,
                    |t: TaskView| t.area_id == Some(area_id@) && t.project_id is None,
                    i as int,
                );
            }
            let keep = match &self.tasks[i].area_id {
                Some(a) => str_eq(a.as_str(), area_id) && self.tasks[i].project_id.is_none(),
                None => false,
            };
            if keep {
                let ghost prev = v.deep_view();
                v.push(self.tasks[i].clone());
                proof {
                    assert(v.deep_view() =~= prev.push(self@.tasks[i as int]));
                }
            }
            i += 1;
        }
        proof {
            assert(self@.tasks.subrange(0, n as int) =~= self@.tasks);
        }
        v
    }
}

fn filter_tasks(tasks: &Vec<Task>, active: bool) -> (v: Vec<Task>)
    ensures
        active ==> v.deep_view() == tasks.deep_view().filter(|t: TaskView| t.deleted_at is None),
        !active ==> v.deep_view() == tasks.deep_view().filter(|t: TaskView| t.deleted_at is Some),
{
    let mut v: Vec<Task> = Vec::new();
    let n = tasks.len();
    let mut i: usize = 0;
    while i < n
        invariant
            i <= n,
            n == tasks.len(),
            active ==> v.deep_view() == tasks.deep_view().subrange(0, i as int).filter(
                |t: TaskView| t.deleted_at is None,
            ),
            !active ==> v.deep_view() == tasks.deep_view().subrange(0, i as int).filter(
                |t: TaskView| t.deleted_at is Some,
            ),
        decreases n - i,
    {
        proof {
            lemma_filter_push(tasks.deep_view(), |t: TaskView| t.deleted_at is None, i as int);
            lemma_filter_push(tasks.deep_view(), |t: TaskView| t.deleted_at is Some, i as int);
        }
        if tasks[i].deleted_at.is_none() == active {
            let ghost prev = v.deep_view();
            v.push(tasks[i].clone());
            proof {
                assert(v.deep_view() =~= prev.push(tasks.deep_view()[i as int]));
            }
        }
        i += 1;
    }
    proof {
        assert(tasks.deep_view().subrange(0, n as int) =~= tasks.deep_view());
    }
    v
}

fn filter_projects(projects: &Vec<Project>, active: bool) -> (v: Vec<Project>)
    ensures
        active ==> v.deep_view() == projects.deep_view().filter(
            |p: ProjectView| p.deleted_at is None,
        ),
        !active ==> v.deep_view() == projects.deep_view().filter(
            |p: ProjectView| p.deleted_at is Some,
        ),
{
    let mut v: Vec<Project> = Vec::new();
    let n = projects.len();
    let mut i: usize = 0;
    while i < n
        invariant
            i <= n,
            n == projects.len(),
            active ==> v.deep_view() == projects.deep_view().subrange(0, i as int).filter(
                |p: ProjectView| p.deleted_at is None,
            ),
            !active ==> v.deep_view() == projects.deep_view().subrange(0, i as int).filter(
                |p: ProjectView| p.deleted_at is Some,
            ),
        decreases n - i,
    {
        proof {
            lemma_filter_push(
                projects.deep_view(),
                |p: ProjectView| p.deleted_at is None,
                i as int,
            );
            lemma_filter_push(
                projects.deep_view(),
                |p: ProjectView| p.deleted_at is Some,
                i as int,
            );
        }
        if projects[i].deleted_at.is_none() == active {
            let ghost prev = v.deep_view();
            v.push(projects[i].clone());
            proof {
                assert(v.deep_view() =~= prev.push(projects.deep_view()[i as int]));
            }
        }
        i += 1;
    }
    proof {
        assert(projects.deep_view().subrange(0, n as int) =~= projects.deep_view());
    }
    v
}

fn filter_areas(areas: &Vec<Area>, active: bool) -> (v: Vec<Area>)
    ensures
        active ==> v.deep_view() == areas.deep_view().filter(|a: AreaView| a.deleted_at is None),
        !active ==> v.deep_view() == areas.deep_view().filter(|a: AreaView| a.deleted_at is Some),
{
    let mut v: Vec<Area> = Vec::new();
    let n = areas.len();
    let mut i: usize = 0;
    while i < n
        invariant
            i <= n,
            n == areas.len(),
            active ==> v.deep_view() == areas.deep_view().subrange(0, i as int).filter(
                |a: AreaView| a.deleted_at is None,
            ),
            !active ==> v.deep_view() == areas.deep_view().subrange(0, i as int).filter(
                |a: AreaView| a.deleted_at is Some,
            ),
        decreases n - i,
    {
        proof {
            lemma_filter_push(areas.deep_view(), |a: AreaView| a.deleted_at is None, i as int);
            lemma_filter_push(areas.deep_view(), |a: AreaView| a.deleted_at is Some, i as int);
        }
        if areas[i].deleted_at.is_none() == active {
            let ghost prev = v.deep_view();
            v.push(areas[i].clone());
            proof {
                assert(v.deep_view() =~= prev.push(areas.deep_view()[i as int]));
            }
        }
        i += 1;
    }
    proof {
        assert(areas.deep_view().subrange(0, n as int) =~= areas.deep_view());
    }
    v
}

} // verus!
