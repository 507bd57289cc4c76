use vstd::prelude::*;

use crate::area::AreaView;
use crate::dates::Date;
use crate::ext;
use crate::project::ProjectView;
use crate::resolve::{
    matching_active_projects, matching_active_areas, matching_active_tasks,
    matching_areas_spec, matching_incomplete_tasks, matching_incomplete_tasks_spec,
    matching_projects_spec, matching_tasks_spec, area_names, project_names, task_titles,
};
use crate::storage::{Storage, StorageError};
use crate::store::{add_task_post, first_index_where, upsert_where, Store, StoreView};
use crate::task::{Task, TaskView, When};
use crate::text::{dec_str_of, parse_u64, u64_parse_of, u64_to_string};

verus! {

/// Failure of the add-task operation.
#[derive(Debug)]
pub enum AddTaskError {
    /// No active project matched the given name.
    ProjectNotFound(String),
    /// Two or more active projects matched; carries their names.
    AmbiguousProjectName(Vec<String>),
    /// No active area matched the given name.
    AreaNotFound(String),
    /// Two or more active areas matched; carries their names.
    AmbiguousAreaName(Vec<String>),
    /// The deadline string is not a usable calendar date; carries the
    /// string and the reason.
    InvalidDeadline(String, String),
    /// Persisting the store failed after the task was added in memory.
    Storage(StorageError),
}

/// What the user asked to add.
pub struct AddTaskParameters {
    pub title: String,
    pub notes: Option<String>,
    pub when: When,
    pub deadline: Option<String>,
    pub project: Option<String>,
    pub area: Option<String>,
    pub tags: Vec<String>,
}

/// The task that `add_task` hands to the store, before numbering: fresh
/// id and creation instant, no completion, deletion, checklist or defer
/// date.
pub open spec fn built_task_view(
    params: AddTaskParameters,
    project_id: Option<Seq<char>>,
    area_id: Option<Seq<char>>,
    deadline: Option<Date>,
    id: Seq<char>,
    created_at: Seq<char>,
) -> TaskView {
    TaskView {
        id: id,
        task_number: 0,
        title: params.title@,
        notes: params.notes.deep_view(),
        project_id: project_id,
        area_id: area_id,
        tags: params.tags.deep_view(),
        when: params.when,
        deadline: deadline,
        defer_until: None,
        checklist: Seq::empty(),
        completed_at: None,
        deleted_at: None,
        created_at: created_at,
    }
}

/// Whether the optional deadline string parses as a calendar date the
/// store can hold.
pub open spec fn deadline_ok(qd: Option<Seq<char>>) -> bool {
    qd is None || (ext::date_parse_of(qd->0) matches Ok(d) && (Date {
        year: d.0,
        month: d.1,
        day: d.2,
    }).wf())
}

/// The date denoted by an optional deadline string that satisfies
/// [`deadline_ok`].
pub open spec fn deadline_date(qd: Option<Seq<char>>) -> Option<Date> {
    if qd is None {
        None
    } else {
        let d = ext::date_parse_of(qd->0)->Ok_0;
        Some(Date { year: d.0, month: d.1, day: d.2 })
    }
}

/// Adds a task: resolves the optional project and area names among the
/// active pool, parses the optional deadline, then hands the task to the
/// store (which assigns its number) and persists.
///
/// Resolution and validation failures leave the store untouched; a
/// storage failure is reported after the in-memory mutation, as the
/// caller-visible state of the operation.
#[verifier::rlimit(60)]
pub fn add_task<S: Storage>(
    store: &mut Store,
    storage: &S,
    parameters: AddTaskParameters,
) -> (r: Result<Task, AddTaskError>)
    requires
        old(store).next_task_number < u64::MAX,
    ensures
        ({
            let pre = old(store)@;
            let post = final(store)@;
            let qp = parameters.project.deep_view();
            let qa = parameters.area.deep_view();
            let qd = parameters.deadline.deep_view();
            let pm = matching_projects_spec(pre.projects, qp->0);
            let am = matching_areas_spec(pre.areas, qa->0);
            if qp is Some && pm.len() == 0 {
                &&& (r matches Err(AddTaskError::ProjectNotFound(n)) && n@ == qp->0)
                &&& post == pre
            } else if qp is Some && pm.len() >= 2 {
                &&& (r matches Err(AddTaskError::AmbiguousProjectName(ns)) && ns.deep_view()
                    == pm.map_values(|p: ProjectView| p.name))
                &&& post == pre
            } else if qa is Some && am.len() == 0 {
                &&& (r matches Err(AddTaskError::AreaNotFound(n)) && n@ == qa->0)
                &&& post == pre
            } else if qa is Some && am.len() >= 2 {
                &&& (r matches Err(AddTaskError::AmbiguousAreaName(ns)) && ns.deep_view()
                    == am.map_values(|a: AreaView| a.name))
                &&& post == pre
            } else if !deadline_ok(qd) {
                &&& (r matches Err(AddTaskError::InvalidDeadline(s, _)) && s@ == qd->0)
                &&& post == pre
            } else {
                let pid = if qp is Some {
                    Some(pm[0].id)
                } else {
                    None
                };
                let aid = if qa is Some {
                    Some(am[0].id)
                } else {
                    None
                };
                &&& exists|t: TaskView|
                    #![trigger add_task_post(pre, t, post)]
                    {
                        &&& add_task_post(pre, t, post)
                        &&& t == built_task_view(
                            parameters,
                            pid,
                            aid,
                            deadline_date(qd),
                            t.id,
                            t.created_at,
                        )
                    }
                &&& (r is Ok || r matches Err(AddTaskError::Storage(_)))
                &&& (r matches Ok(t) ==> t@ == TaskView {
                    task_number: pre.next_task_number,
                    ..built_task_view(
                        parameters,
                        pid,
                        aid,
                        deadline_date(qd),
                        t@.id,
                        t@.created_at,
                    )
                } && add_task_post(
                    pre,
                    built_task_view(parameters, pid, aid, deadline_date(qd), t@.id, t@.created_at),
                    post,
                ))
            }
        }),
{
    let ghost params0 = parameters;
    let AddTaskParameters { title, notes, when, deadline, project, area, tags } = parameters;

    let project_id: Option<String> = match project {
        Some(project_name) => {
            let ms = matching_active_projects(&*store, project_name.as_str());
            if ms.len() == 0 {
                return Err(AddTaskError::ProjectNotFound(project_name));
            }
            if ms.len() > 1 {
                let names = project_names(&ms);
                return Err(AddTaskError::AmbiguousProjectName(names));
            }
            Some(ms[0].id.clone())
        },
        None => None,
    };

    let area_id: Option<String> = match area {
        Some(area_name) => {
            let ms = matching_active_areas(&*store, area_name.as_str());
            if ms.len() == 0 {
                return Err(AddTaskError::AreaNotFound(area_name));
            }
            if ms.len() > 1 {
                let names = area_names(&ms);
                return Err(AddTaskError::AmbiguousAreaName(names));
            }
            Some(ms[0].id.clone())
        },
        None => None,
    };

    let deadline_parsed: Option<Date> = match deadline {
        Some(deadline_str) => {
            match ext::parse_civil_date(deadline_str.as_str()) {
                Ok((year, month, day)) => {
                    if crate::dates::date_is_wf(year, month, day) {
                        Some(Date { year, month, day })
                    } else {
                        return Err(AddTaskError::InvalidDeadline(
                            deadline_str,
                            "the year is outside the storable range".to_owned(),
                        ));
                    }
                },
                Err(reason) => {
                    return Err(AddTaskError::InvalidDeadline(deadline_str, reason));
                },
            }
        },
        None => None,
    };

    let id = ext::fresh_id();
    let now = ext::now_timestamp();
    let task = Task {
        id,
        task_number: 0,
        title,
        notes,
        project_id,
        area_id,
        tags,
        when,
        deadline: deadline_parsed,
        defer_until: None,
        checklist: Vec::new(),
        completed_at: None,
        deleted_at: None,
        created_at: now,
    };

    let mut created = task.clone();
    let assigned = store.next_task_number;
    let ghost tview = task@;
    let ghost qp = params0.project.deep_view();
    let ghost qa = params0.area.deep_view();
    let ghost qd = params0.deadline.deep_view();
    let ghost pm = matching_projects_spec(old(store)@.projects, qp->0);
    let ghost am = matching_areas_spec(old(store)@.areas, qa->0);
    let ghost pid = if qp is Some {
        Some(pm[0].id)
    } else {
        None
    };
    let ghost aid = if qa is Some {
        Some(am[0].id)
    } else {
        None
    };
    proof {
        assert(tview =~= built_task_view(params0, pid, aid, deadline_date(qd), tview.id, tview.created_at));
    }
    store.add_task(task);
    created.task_number = assigned;
    proof {
        assert(created@ =~= TaskView { task_number: assigned, ..tview });
        assert(add_task_post(
            old(store)@,
            built_task_view(params0, pid, aid, deadline_date(qd), tview.id, tview.created_at),
            store@,
        ));

    }

    match storage.save(&*store) {
        Ok(_) => Ok(created),
        Err(e) => Err(AddTaskError::Storage(e)),
    }
}

/// Failure of the complete-task operation.
#[derive(Debug)]
pub enum CompleteTaskError {
    /// No task matched the identifier.
    TaskNotFound(String),
    /// Two or more incomplete active tasks matched; carries their titles.
    AmbiguousTaskName(Vec<String>),
    /// Persisting the store failed after the task was completed in memory.
    Storage(StorageError),
}

/// What the user asked to complete.
pub struct CompleteTaskParameters {
    pub task_number_or_fuzzy_name: String,
}

/// Relates a store before and after replacing one task by identity,
/// leaving everything else alone.
pub open spec fn task_replaced(pre: StoreView, updated: TaskView, post: StoreView) -> bool {
    &&& post.tasks == upsert_where(pre.tasks, updated, |t: TaskView| t.id == updated.id)
    &&& post.projects == pre.projects
    &&& post.areas == pre.areas
    &&& post.version == pre.version
    &&& post.next_task_number == pre.next_task_number
}

/// The outcome of completing `target`: it is stamped with some completion
/// instant and written back; the result is the stamped task, or a storage
/// error once the store is already updated.
pub open spec fn complete_outcome(
    pre: StoreView,
    target: TaskView,
    post: StoreView,
    r: Result<Task, CompleteTaskError>,
) -> bool {
    exists|now: Seq<char>|
        #![trigger task_replaced(pre, TaskView { completed_at: Some(now), ..target }, post)]
        {
            let updated = TaskView { completed_at: Some(now), ..target };
            &&& task_replaced(pre, updated, post)
            &&& (r matches Ok(t) ==> t@ == updated)
            &&& (r is Ok || r matches Err(CompleteTaskError::Storage(_)))
        }
}

/// Completes a task. A numeric identifier is looked up by task number,
/// reaching any task; otherwise the identifier fuzzily matches the titles
/// of active, not yet completed tasks, and must match exactly one.
pub fn complete_task<S: Storage>(
    store: &mut Store,
    storage: &S,
    parameters: CompleteTaskParameters,
) -> (r: Result<Task, CompleteTaskError>)
    ensures
        ({
            let pre = old(store)@;
            let post = final(store)@;
            let input = parameters.task_number_or_fuzzy_name@;
            let parsed = u64_parse_of(input);
            &&& (parsed matches Some(nb) ==> {
                let j = first_index_where(pre.tasks, |t: TaskView| t.task_number == nb);
                &&& (j < 0 ==> (r matches Err(CompleteTaskError::TaskNotFound(s)) && s@ == input
                    && post == pre))
                &&& (j >= 0 ==> complete_outcome(pre, pre.tasks[j], post, r))
            })
            &&& (parsed is None ==> {
                let m = matching_incomplete_tasks_spec(pre.tasks, input);
                &&& (m.len() == 0 ==> (r matches Err(CompleteTaskError::TaskNotFound(s)) && s@
                    == input && post == pre))
                &&& (m.len() >= 2 ==> (r matches Err(CompleteTaskError::AmbiguousTaskName(ts))
                    && ts.deep_view() == m.map_values(|t: TaskView| t.title) && post == pre))
                &&& (m.len() == 1 ==> complete_outcome(pre, m[0], post, r))
            })
        }),
{
    let input = parameters.task_number_or_fuzzy_name;

    let target: Task = match parse_u64(input.as_str()) {
        Some(task_number) => {
            match store.get_task_by_number(task_number) {
                Some(t) => t.clone(),
                None => {
                    return Err(CompleteTaskError::TaskNotFound(input));
                },
            }
        },
        None => {
            let ms = matching_incomplete_tasks(&*store, input.as_str());
            if ms.len() == 0 {
                return Err(CompleteTaskError::TaskNotFound(input));
            }
            if ms.len() > 1 {
                let titles = task_titles(&ms);
                return Err(CompleteTaskError::AmbiguousTaskName(titles));
            }
            ms[0].clone()
        },
    };

    let ghost target_view = target@;
    let mut updated = target;
    updated.completed_at = Some(ext::now_timestamp());
    proof {
        assert(updated@ =~= TaskView {
            completed_at: Some(updated@.completed_at->0),
            ..target_view
        });
    }
    store.put_task(updated.clone());
    proof {
        assert(task_replaced(
            old(store)@,
            TaskView { completed_at: Some(updated@.completed_at->0), ..target_view },
            store@,
        ));
    }

    match storage.save(&*store) {
        Ok(_) => Ok(updated),
        Err(e) => Err(CompleteTaskError::Storage(e)),
    }
}

/// Failure of the delete-task operation.
#[derive(Debug)]
pub enum DeleteTaskError {
    /// No task matched the identifier.
    TaskNotFound(String),
    /// The task is already in the trash; carries its title.
    TaskAlreadyDeleted(String),
    /// Two or more active tasks matched; carries their titles.
    AmbiguousTaskName(Vec<String>),
    /// Persisting the store failed after the task was deleted in memory.
    Storage(StorageError),
}

/// What the user asked to delete.
pub struct DeleteTaskParameters {
    pub task_number_or_fuzzy_name: String,
}

/// The outcome of soft-deleting `target`: it is stamped with some deletion
/// instant and written back; the result is the stamped task, or a storage
/// error once the store is already updated.
pub open spec fn delete_outcome(
    pre: StoreView,
    target: TaskView,
    post: StoreView,
    r: Result<Task, DeleteTaskError>,
) -> bool {
    exists|now: Seq<char>|
        #![trigger task_replaced(pre, TaskView { deleted_at: Some(now), ..target }, post)]
        {
            let updated = TaskView { deleted_at: Some(now), ..target };
            &&& task_replaced(pre, updated, post)
            &&& (r matches Ok(t) ==> t@ == updated)
            &&& (r is Ok || r matches Err(DeleteTaskError::Storage(_)))
        }
}

/// Soft-deletes a task. A numeric identifier reaches any task but is
/// rejected if that task is already deleted; otherwise the identifier
/// fuzzily matches active task titles and must match exactly one.
pub fn delete_task<S: Storage>(
    store: &mut Store,
    storage: &S,
    parameters: DeleteTaskParameters,
) -> (r: Result<Task, DeleteTaskError>)
    ensures
        ({
            let pre = old(store)@;
            let post = final(store)@;
            let input = parameters.task_number_or_fuzzy_name@;
            let parsed = u64_parse_of(input);
            &&& (parsed matches Some(nb) ==> {
                let j = first_index_where(pre.tasks, |t: TaskView| t.task_number == nb);
                &&& (j < 0 ==> (r matches Err(DeleteTaskError::TaskNotFound(s)) && s@ == input
                    && post == pre))
                &&& ((j >= 0 && pre.tasks[j].deleted_at is Some) ==> (r matches Err(
                    DeleteTaskError::TaskAlreadyDeleted(s),
                ) && s@ == pre.tasks[j].title && post == pre))
                &&& ((j >= 0 && pre.tasks[j].deleted_at is None) ==> delete_outcome(
                    pre,
                    pre.tasks[j],
                    post,
                    r,
                ))
            })
            &&& (parsed is None ==> {
                let m = matching_tasks_spec(pre.tasks, input);
                &&& (m.len() == 0 ==> (r matches Err(DeleteTaskError::TaskNotFound(s)) && s@
                    == input && post == pre))
                &&& (m.len() >= 2 ==> (r matches Err(DeleteTaskError::AmbiguousTaskName(ts))
                    && ts.deep_view() == m.map_values(|t: TaskView| t.title) && post == pre))
                &&& (m.len() == 1 ==> delete_outcome(pre, m[0], post, r))
            })
        }),
{
    let input = parameters.task_number_or_fuzzy_name;

    let target: Task = match parse_u64(input.as_str()) {
        Some(task_number) => {
            match store.get_task_by_number(task_number) {
                Some(t) => t.clone(),
                None => {
                    return Err(DeleteTaskError::TaskNotFound(input));
                },
            }
        },
        None => {
            let ms = matching_active_tasks(&*store, input.as_str());
            if ms.len() == 0 {
                return Err(DeleteTaskError::TaskNotFound(input));
            }
            if ms.len() > 1 {
                let titles = task_titles(&ms);
                return Err(DeleteTaskError::AmbiguousTaskName(titles));
            }
            ms[0].clone()
        },
    };

    if target.deleted_at.is_some() {
        return Err(DeleteTaskError::TaskAlreadyDeleted(target.title));
    }

    let ghost target_view = target@;
    let mut updated = target;
    updated.deleted_at = Some(ext::now_timestamp());
    proof {
        assert(updated@ =~= TaskView { deleted_at: Some(updated@.deleted_at->0), ..target_view });
    }
    store.put_task(updated.clone());
    proof {
        assert(task_replaced(
            old(store)@,
            TaskView { deleted_at: Some(updated@.deleted_at->0), ..target_view },
            store@,
        ));
    }

    match storage.save(&*store) {
        Ok(_) => Ok(updated),
        Err(e) => Err(DeleteTaskError::Storage(e)),
    }
}

/// Failure of the restore-task operation.
#[derive(Debug)]
pub enum RestoreTaskError {
    /// No task carries the given number.
    TaskNotFound(String),
    /// The task is not in the trash; carries its title.
    TaskNotDeleted(String),
    /// Persisting the store failed after the task was restored in memory.
    Storage(StorageError),
}

/// What the user asked to restore.
pub struct RestoreTaskParameters {
    pub task_number: u64,
}

/// Restores a soft-deleted task, addressed strictly by number. Only its
/// own tombstone is cleared; nothing cascades.
pub fn restore_task<S: Storage>(
    store: &mut Store,
    storage: &S,
    parameters: RestoreTaskParameters,
) -> (r: Result<Task, RestoreTaskError>)
    ensures
        ({
            let pre = old(store)@;
            let post = final(store)@;
            let nb = parameters.task_number;
            let j = first_index_where(pre.tasks, |t: TaskView| t.task_number == nb);
            &&& (j < 0 ==> (r matches Err(RestoreTaskError::TaskNotFound(s)) && s@ == dec_str_of(
                nb as int,
            ) && post == pre))
            &&& ((j >= 0 && pre.tasks[j].deleted_at is None) ==> (r matches Err(
                RestoreTaskError::TaskNotDeleted(s),
            ) && s@ == pre.tasks[j].title && post == pre))
            &&& ((j >= 0 && pre.tasks[j].deleted_at is Some) ==> {
                let updated = TaskView { deleted_at: None, ..pre.tasks[j] };
                &&& task_replaced(pre, updated, post)
                &&& (r matches Ok(t) ==> t@ == updated)
                &&& (r is Ok || r matches Err(RestoreTaskError::Storage(_)))
            })
        }),
{
    let target: Task = match store.get_task_by_number(parameters.task_number) {
        Some(t) => t.clone(),
        None => {
            return Err(RestoreTaskError::TaskNotFound(u64_to_string(parameters.task_number)));
        },
    };

    if target.deleted_at.is_none() {
        return Err(RestoreTaskError::TaskNotDeleted(target.title));
    }

    let ghost target_view = target@;
    let mut updated = target;
    updated.deleted_at = None;
    proof {
        assert(updated@ =~= TaskView { deleted_at: None, ..target_view });
    }
    store.put_task(updated.clone());
    proof {
        assert(task_replaced(old(store)@, TaskView { deleted_at: None, ..target_view }, store@));
    }

    match storage.save(&*store) {
        Ok(_) => Ok(updated),
        Err(e) => Err(RestoreTaskError::Storage(e)),
    }
}

} // verus!
