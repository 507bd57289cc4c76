use vstd::prelude::*;

use crate::area::{Area, AreaView};
use crate::ext;
use crate::project::{Project, ProjectView};
use crate::store::{lemma_filter_push, Store};
use crate::task::{Task, TaskView};
use crate::text::seq_contains_sub;

verus! {

/// The fuzzy matching rule: the query occurs, case-insensitively, as a
/// substring of the candidate name.
pub open spec fn name_matches(query: Seq<char>, name: Seq<char>) -> bool {
    seq_contains_sub(ext::lower_of(name), ext::lower_of(query))
}

/// An active project whose name fuzzily matches the query.
pub open spec fn project_match(p: ProjectView, query: Seq<char>) -> bool {
    p.deleted_at is None && name_matches(query, p.name)
}

/// A deleted project whose name fuzzily matches the query.
pub open spec fn deleted_project_match(p: ProjectView, query: Seq<char>) -> bool {
    p.deleted_at is Some && name_matches(query, p.name)
}

/// An active area whose name fuzzily matches the query.
pub open spec fn area_match(a: AreaView, query: Seq<char>) -> bool {
    a.deleted_at is None && name_matches(query, a.name)
}

/// A deleted area whose name fuzzily matches the query.
pub open spec fn deleted_area_match(a: AreaView, query: Seq<char>) -> bool {
    a.deleted_at is Some && name_matches(query, a.name)
}

/// An active task whose title fuzzily matches the query.
pub open spec fn task_match(t: TaskView, query: Seq<char>) -> bool {
    t.deleted_at is None && name_matches(query, t.title)
}

/// An active, not yet completed task whose title fuzzily matches the query.
pub open spec fn incomplete_task_match(t: TaskView, query: Seq<char>) -> bool {
    t.deleted_at is None && t.completed_at is None && name_matches(query, t.title)
}

/// The active projects of the store whose names fuzzily match the query,
/// in store order.
pub open spec fn matching_projects_spec(s: Seq<ProjectView>, query: Seq<char>) -> Seq<
    ProjectView,
> {
    s.filter(|p: ProjectView| project_match(p, query))
}

/// The deleted projects of the store whose names fuzzily match the query.
pub open spec fn matching_deleted_projects_spec(s: Seq<ProjectView>, query: Seq<char>) -> Seq<
    ProjectView,
> {
    s.filter(|p: ProjectView| deleted_project_match(p, query))
}

/// The active areas of the store whose names fuzzily match the query.
pub open spec fn matching_areas_spec(s: Seq<AreaView>, query: Seq<char>) -> Seq<AreaView> {
    s.filter(|a: AreaView| area_match(a, query))
}

/// The deleted areas of the store whose names fuzzily match the query.
pub open spec fn matching_deleted_areas_spec(s: Seq<AreaView>, query: Seq<char>) -> Seq<
    AreaView,
> {
    s.filter(|a: AreaView| deleted_area_match(a, query))
}

/// The active tasks of the store whose titles fuzzily match the query.
pub open spec fn matching_tasks_spec(s: Seq<TaskView>, query: Seq<char>) -> Seq<TaskView> {
    s.filter(|t: TaskView| task_match(t, query))
}

/// The active, not yet completed tasks whose titles fuzzily match the query.
pub open spec fn matching_incomplete_tasks_spec(s: Seq<TaskView>, query: Seq<char>) -> Seq<
    TaskView,
> {
    s.filter(|t: TaskView| incomplete_task_match(t, query))
}

/// Whether the query occurs case-insensitively in the candidate name.
pub fn fuzzy_match(query: &str, name: &str) -> (r: bool)
    ensures
        r == name_matches(query@, name@),
{
    let lq = ext::lowercase(query);
    let ln = ext::lowercase(name);
    ext::str_contains(ln.as_str(), lq.as_str())
}

/// The active projects whose names fuzzily match the query, in store order.
pub fn matching_active_projects(store: &Store, query: &str) -> (v: Vec<Project>)
    ensures
        v.deep_view() == matching_projects_spec(store@.projects, query@),
{
    let mut v: Vec<Project> = Vec::new();
    let n = store.projects.len();
    let mut i: usize = 0;
    while i < n
        invariant
            i <= n,
            n == store.projects.len(),
            v.deep_view() == matching_projects_spec(
                store@.projects.subrange(0, i as int),
                query@,
            ),
        decreases n - i,
    {
        proof {
            lemma_filter_push(
                store@.projects,
                |p: ProjectView| project_match(p, query@),
                i as int,
            );
        }
        if store.projects[i].deleted_at.is_none() && fuzzy_match(
            query,
            store.projects[i].name.as_str(),
        ) {
            let ghost prev = v.deep_view();
            v.push(store.projects[i].clone());
            proof {
                assert(v.deep_view() =~= prev.push(store@.projects[i as int]));
            }
        }
        i += 1;
    }
    proof {
        assert(store@.projects.subrange(0, n as int) =~= store@.projects);
    }
    v
}

/// The deleted projects whose names fuzzily match the query.
pub fn matching_deleted_projects(store: &Store, query: &str) -> (v: Vec<Project>)
    ensures
        v.deep_view() == matching_deleted_projects_spec(store@.projects, query@),
{
    let mut v: Vec<Project> = Vec::new();
    let n = store.projects.len();
    let mut i: usize = 0;
    while i < n
        invariant
            i <= n,
            n == store.projects.len(),
            v.deep_view() == matching_deleted_projects_spec(
                store@.projects.subrange(0, i as int),
                query@,
            ),
        decreases n - i,
    {
        proof {
            lemma_filter_push(
                store@.projects,
                |p: ProjectView| deleted_project_match(p, query@),
                i as int,
            );
        }
        if store.projects[i].deleted_at.is_some() && fuzzy_match(
            query,
            store.projects[i].name.as_str(),
        ) {
            let ghost prev = v.deep_view();
            v.push(store.projects[i].clone());
            proof {
                assert(v.deep_view() =~= prev.push(store@.projects[i as int]));
            }
        }
        i += 1;
    }
    proof {
        assert(store@.projects.subrange(0, n as int) =~= store@.projects);
    }
    v
}

/// The active areas whose names fuzzily match the query, in store order.
pub fn matching_active_areas(store: &Store, query: &str) -> (v: Vec<Area>)
    ensures
        v.deep_view() == matching_areas_spec(store@.areas, query@),
{
    let mut v: Vec<Area> = Vec::new();
    let n = store.areas.len();
    let mut i: usize = 0;
    while i < n
        invariant
            i <= n,
            n == store.areas.len(),
            v.deep_view() == matching_areas_spec(store@.areas.subrange(0, i as int), query@),
        decreases n - i,
    {
        proof {
            lemma_filter_push(store@.areas, |a: AreaView| area_match(a, query@), i as int);
        }
        if store.areas[i].deleted_at.is_none() && fuzzy_match(
            query,
            store.areas[i].name.as_str(),
        ) {
            let ghost prev = v.deep_view();
            v.push(store.areas[i].clone());
            proof {
                assert(v.deep_view() =~= prev.push(store@.areas[i as int]));
            }
        }
        i += 1;
    }
    proof {
        assert(store@.areas.subrange(0, n as int) =~= store@.areas);
    }
    v
}

/// The deleted areas whose names fuzzily match the query.
pub fn matching_deleted_areas(store: &Store, query: &str) -> (v: Vec<Area>)
    ensures
        v.deep_view() == matching_deleted_areas_spec(store@.areas, query@),
{
    let mut v: Vec<Area> = Vec::new();
    let n = store.areas.len();
    let mut i: usize = 0;
    while i < n
        invariant
            i <= n,
            n == store.areas.len(),
            v.deep_view() == matching_deleted_areas_spec(
                store@.areas.subrange(0, i as int),
                query@,
            ),
        decreases n - i,
    {
        proof {
            lemma_filter_push(
                store@.areas,
                |a: AreaView| deleted_area_match(a, query@),
                i as int,
            );
        }
        if store.areas[i].deleted_at.is_some() && fuzzy_match(
            query,
            store.areas[i].name.as_str(),
        ) {
            let ghost prev = v.deep_view();
            v.push(store.areas[i].clone());
            proof {
                assert(v.deep_view() =~= prev.push(store@.areas[i as int]));
            }
        }
        i += 1;
    }
    proof {
        assert(store@.areas.subrange(0, n as int) =~= store@.areas);
    }
    v
}

/// The active tasks whose titles fuzzily match the query, in store order.
pub fn matching_active_tasks(store: &Store, query: &str) -> (v: Vec<Task>)
    ensures
        v.deep_view() == matching_tasks_spec(store@.tasks, query@),
{
    let mut v: Vec<Task> = Vec::new();
    let n = store.tasks.len();
    let mut i: usize = 0;
    while i < n
        invariant
            i <= n,
            n == store.tasks.len(),
            v.deep_view() == matching_tasks_spec(store@.tasks.subrange(0, i as int), query@),
        decreases n - i,
    {
        proof {
            lemma_filter_push(store@.tasks, |t: TaskView| task_match(t, query@), i as int);
        }
        if store.tasks[i].deleted_at.is_none() && fuzzy_match(
            query,
            store.tasks[i].title.as_str(),
        ) {
            let ghost prev = v.deep_view();
            v.push(store.tasks[i].clone());
            proof {
                assert(v.deep_view() =~= prev.push(store@.tasks[i as int]));
            }
        }
        i += 1;
    }
    proof {
        assert(store@.tasks.subrange(0, n as int) =~= store@.tasks);
    }
    v
}

/// The active, not yet completed tasks whose titles fuzzily match the
/// query, in store order.
pub fn matching_incomplete_tasks(store: &Store, query: &str) -> (v: Vec<Task>)
    ensures
        v.deep_view() == matching_incomplete_tasks_spec(store@.tasks, query@),
{
    let mut v: Vec<Task> = Vec::new();
    let n = store.tasks.len();
    let mut i: usize = 0;
    while i < n
        invariant
            i <= n,
            n == store.tasks.len(),
            v.deep_view() == matching_incomplete_tasks_spec(
                store@.tasks.subrange(0, i as int),
                query@,
            ),
        decreases n - i,
    {
        proof {
            lemma_filter_push(
                store@.tasks,
                |t: TaskView| incomplete_task_match(t, query@),
                i as int,
            );
        }
        if store.tasks[i].deleted_at.is_none() && store.tasks[i].completed_at.is_none()
            && fuzzy_match(query, store.tasks[i].title.as_str()) {
            let ghost prev = v.deep_view();
            v.push(store.tasks[i].clone());
            proof {
                assert(v.deep_view() =~= prev.push(store@.tasks[i as int]));
            }
        }
        i += 1;
    }
    proof {
        assert(store@.tasks.subrange(0, n as int) =~= store@.tasks);
    }
    v
}

/// The names of the given projects, in order.
pub fn project_names(v: &Vec<Project>) -> (names: Vec<String>)
    ensures
        names.deep_view() == v.deep_view().map_values(|p: ProjectView| p.name),
{
    let mut names: Vec<String> = Vec::new();
    let n = v.len();
    let mut i: usize = 0;
    while i < n
        invariant
            i <= n,
            n == v.len(),
            names.deep_view() == v.deep_view().subrange(0, i as int).map_values(
                |p: ProjectView| p.name,
            ),
        decreases n - i,
    {
        let ghost prev = names.deep_view();
        names.push(v[i].name.clone());
        proof {
            assert(names.deep_view() =~= prev.push(v.deep_view()[i as int].name));
            assert(v.deep_view().subrange(0, i + 1).map_values(|p: ProjectView| p.name)
                =~= v.deep_view().subrange(0, i as int).map_values(|p: ProjectView| p.name).push(
                v.deep_view()[i as int].name,
            ));
        }
        i += 1;
    }
    proof {
        assert(v.deep_view().subrange(0, n as int) =~= v.deep_view());
    }
    names
}

/// The names of the given areas, in order.
pub fn area_names(v: &Vec<Area>) -> (names: Vec<String>)
    ensures
        names.deep_view() == v.deep_view().map_values(|a: AreaView| a.name),
{
    let mut names: Vec<String> = Vec::new();
    let n = v.len();
    let mut i: usize = 0;
    while i < n
        invariant
            i <= n,
            n == v.len(),
            names.deep_view() == v.deep_view().subrange(0, i as int).map_values(
                |a: AreaView| a.name,
            ),
        decreases n - i,
    {
        let ghost prev = names.deep_view();
        names.push(v[i].name.clone());
        proof {
            assert(names.deep_view() =~= prev.push(v.deep_view()[i as int].name));
            assert(v.deep_view().subrange(0, i + 1).map_values(|a: AreaView| a.name)
                =~= v.deep_view().subrange(0, i as int).map_values(|a: AreaView| a.name).push(
                v.deep_view()[i as int].name,
            ));
        }
        i += 1;
    }
    proof {
        assert(v.deep_view().subrange(0, n as int) =~= v.deep_view());
    }
    names
}

/// The titles of the given tasks, in order.
pub fn task_titles(v: &Vec<Task>) -> (titles: Vec<String>)
    ensures
        titles.deep_view() == v.deep_view().map_values(|t: TaskView| t.title),
{
    let mut titles: Vec<String> = Vec::new();
    let n = v.len();
    let mut i: usize = 0;
    while i < n
        invariant
            i <= n,
            n == v.len(),
            titles.deep_view() == v.deep_view().subrange(0, i as int).map_values(
                |t: TaskView| t.title,
            ),
        decreases n - i,
    {
        let ghost prev = titles.deep_view();
        titles.push(v[i].title.clone());
        proof {
            assert(titles.deep_view() =~= prev.push(v.deep_view()[i as int].title));
            assert(v.deep_view().subrange(0, i + 1).map_values(|t: TaskView| t.title)
                =~= v.deep_view().subrange(0, i as int).map_values(|t: TaskView| t.title).push(
                v.deep_view()[i as int].title,
            ));
        }
        i += 1;
    }
    proof {
        assert(v.deep_view().subrange(0, n as int) =~= v.deep_view());
    }
    titles
}

} // verus!
