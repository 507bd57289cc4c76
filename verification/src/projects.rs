use vstd::prelude::*;
use vstd::pervasive::VecAdditionalExecFns;

use crate::ext;
use crate::project::{Project, ProjectView};
use crate::resolve::{
    matching_active_projects, matching_deleted_projects, matching_deleted_projects_spec,
    matching_projects_spec, project_names,
};
use crate::storage::{Storage, StorageError};
use crate::store::{lemma_filter_push, upsert_where, Store, StoreView};
use crate::task::TaskView;

verus! {

/// Failure of the create-project operation.
#[derive(Debug)]
pub enum CreateProjectError {
    /// Reserved for a name-collision policy; creation is currently
    /// permissive and never reports it.
    ProjectAlreadyExists(String),
    /// Persisting the store failed after the project was added in memory.
    Storage(StorageError),
}

/// What the user asked to create.
pub struct CreateProjectParameters {
    pub name: String,
}

/// The project that `create_project` builds: fresh id and creation
/// instant, the slug derived from the name, and no other fields set.
pub open spec fn built_project_view(
    params: CreateProjectParameters,
    id: Seq<char>,
    created_at: Seq<char>,
) -> ProjectView {
    ProjectView {
        id: id,
        name: params.name@,
        slug: ext::slug_of(params.name@),
        area_id: None,
        notes: None,
        deadline: None,
        completed_at: None,
        deleted_at: None,
        created_at: created_at,
    }
}

/// Relates a store before and after inserting one project by identity,
/// leaving everything else alone.
pub open spec fn project_put(pre: StoreView, p: ProjectView, post: StoreView) -> bool {
    &&& post.projects == upsert_where(pre.projects, p, |q: ProjectView| q.id == p.id)
    &&& post.tasks == pre.tasks
    &&& post.areas == pre.areas
    &&& post.version == pre.version
    &&& post.next_task_number == pre.next_task_number
}

/// Creates a project: derives the slug from the name, assigns a fresh
/// identity and creation instant, inserts it and persists.
pub fn create_project<S: Storage>(
    store: &mut Store,
    storage: &S,
    parameters: CreateProjectParameters,
) -> (r: Result<Project, CreateProjectError>)
    ensures
        ({
            let pre = old(store)@;
            let post = final(store)@;
            &&& exists|p: ProjectView|
                #![trigger project_put(pre, p, post)]
                {
                    &&& project_put(pre, p, post)
                    &&& p == built_project_view(parameters, p.id, p.created_at)
                }
            &&& (r is Ok || r matches Err(CreateProjectError::Storage(_)))
            &&& (r matches Ok(p) ==> p@ == built_project_view(parameters, p@.id, p@.created_at)
                && project_put(pre, p@, post))
        }),
{
    let slug = ext::slugify(parameters.name.as_str());
    let project = Project {
        id: ext::fresh_id(),
        name: parameters.name,
        slug,
        area_id: None,
        notes: None,
        deadline: None,
        completed_at: None,
        deleted_at: None,
        created_at: ext::now_timestamp(),
    };
    let created = project.clone();
    let ghost pview = project@;
    proof {
        assert(pview =~= built_project_view(parameters, pview.id, pview.created_at));
    }
    store.add_project(project);
    proof {
        assert(project_put(old(store)@, pview, store@));
    }
    match storage.save(&*store) {
        Ok(_) => Ok(created),
        Err(e) => Err(CreateProjectError::Storage(e)),
    }
}

/// Failure of the delete-project operation.
#[derive(Debug)]
pub enum DeleteProjectError {
    /// No active project matched the given name.
    ProjectNotFound(String),
    /// Reserved; the active pool never offers an already deleted project.
    ProjectAlreadyDeleted(String),
    /// Two or more active projects matched; carries their names.
    AmbiguousProjectName(Vec<String>),
    /// Persisting the store failed after the cascade in memory.
    Storage(StorageError),
}

/// What the user asked to delete.
pub struct DeleteProjectParameters {
    pub name: String,
}

/// What a project deletion did: the deleted project and how many of its
/// tasks were cascaded into the trash with it.
pub struct DeleteProjectResult {
    pub project: Project,
    pub cascaded_tasks_count: usize,
}

/// An active task of the given project: cascaded by the project's
/// deletion.
pub open spec fn project_cascade_target(t: TaskView, pid: Seq<char>) -> bool {
    t.deleted_at is None && t.project_id == Some(pid)
}

/// One task after a project deletion: stamped if it is cascaded,
/// untouched otherwise.
pub open spec fn project_cascaded_task(t: TaskView, pid: Seq<char>, now: Seq<char>) -> TaskView {
    if project_cascade_target(t, pid) {
        TaskView { deleted_at: Some(now), ..t }
    } else {
        t
    }
}

/// Relates a store before and after deleting `target` with the shared
/// instant `now`: the project and all of its active tasks carry the same
/// tombstone, and nothing else changes.
pub open spec fn project_delete_post(
    pre: StoreView,
    target: ProjectView,
    now: Seq<char>,
    post: StoreView,
) -> bool {
    let dp = ProjectView { deleted_at: Some(now), ..target };
    &&& post.tasks == pre.tasks.map_values(
        |t: TaskView| project_cascaded_task(t, target.id, now),
    )
    &&& post.projects == upsert_where(pre.projects, dp, |p: ProjectView| p.id == dp.id)
    &&& post.areas == pre.areas
    &&& post.version == pre.version
    &&& post.next_task_number == pre.next_task_number
}

/// Soft-deletes a project resolved by fuzzy name among the active pool,
/// cascading all of its active tasks under one shared deletion instant,
/// and reports how many tasks were cascaded.
pub fn delete_project<S: Storage>(
    store: &mut Store,
    storage: &S,
    parameters: DeleteProjectParameters,
) -> (r: Result<DeleteProjectResult, DeleteProjectError>)
    ensures
        ({
            let pre = old(store)@;
            let post = final(store)@;
            let q = parameters.name@;
            let m = matching_projects_spec(pre.projects, q);
            if m.len() == 0 {
                &&& (r matches Err(DeleteProjectError::ProjectNotFound(n)) && n@ == q)
                &&& post == pre
            } else if m.len() >= 2 {
                &&& (r matches Err(DeleteProjectError::AmbiguousProjectName(ns)) && ns.deep_view()
                    == m.map_values(|p: ProjectView| p.name))
                &&& post == pre
            } else {
                let target = m[0];
                &&& exists|now: Seq<char>|
                    #![trigger project_delete_post(pre, target, now, post)]
                    {
                        &&& project_delete_post(pre, target, now, post)
                        &&& (r matches Ok(res) ==> res.project@ == ProjectView {
                            deleted_at: Some(now),
                            ..target
                        } && res.cascaded_tasks_count as int == pre.tasks.filter(
                            |t: TaskView| project_cascade_target(t, target.id),
                        ).len())
                        &&& (r is Ok || r matches Err(DeleteProjectError::Storage(_)))
                    }
            }
        }),
{
    let ms = matching_active_projects(&*store, parameters.name.as_str());
    if ms.len() == 0 {
        return Err(DeleteProjectError::ProjectNotFound(parameters.name));
    }
    if ms.len() > 1 {
        let names = project_names(&ms);
        return Err(DeleteProjectError::AmbiguousProjectName(names));
    }
    let target = ms[0].clone();
    let ghost target_view = target@;
    let now = ext::now_timestamp();
    let ghost nw = now@;
    let ghost pre = old(store)@;

    let n = store.tasks.len();
    let mut i: usize = 0;
    let mut count: usize = 0;
    while i < n
        invariant
            i <= n,
            n == store.tasks.len(),
            n == pre.tasks.len(),
            pre == old(store)@,
            nw == now@,
            target_view == target@,
            count <= i,
            store@.projects == pre.projects,
            store@.areas == pre.areas,
            store@.version == pre.version,
            store@.next_task_number == pre.next_task_number,
            forall|k: int|
                0 <= k < i ==> store@.tasks[k] == project_cascaded_task(
                    #[trigger] pre.tasks[k],
                    target_view.id,
                    nw,
                ),
            forall|k: int| i <= k < n ==> #[trigger] store@.tasks[k] == pre.tasks[k],
            count as int == pre.tasks.subrange(0, i as int).filter(
                |t: TaskView| project_cascade_target(t, target_view.id),
            ).len(),
        decreases n - i,
    {
        proof {
            lemma_filter_push(
                pre.tasks,
                |t: TaskView| project_cascade_target(t, target_view.id),
                i as int,
            );
        }
        let in_project = match &store.tasks[i].project_id {
            Some(p) => crate::text::str_eq(p.as_str(), target.id.as_str()),
            None => false,
        };
        proof {
            assert(store@.tasks[i as int] == pre.tasks[i as int]);
        }
        if in_project && store.tasks[i].deleted_at.is_none() {
            let mut t = store.tasks[i].clone();
            t.deleted_at = Some(now.clone());
            proof {
                assert(t@ =~= TaskView { deleted_at: Some(nw), ..pre.tasks[i as int] });
            }
            let ghost prev = store@.tasks;
            store.tasks.set(i, t);
            proof {
                assert(store@.tasks =~= prev.update(i as int, t@));
            }
            count = count + 1;
        }
        i += 1;
    }

    let mut dp = target;
    dp.deleted_at = Some(now);
    let deleted = dp.clone();
    let ghost dp_view = dp@;
    proof {
        assert(dp_view =~= ProjectView { deleted_at: Some(nw), ..target_view });
        assert(store@.tasks =~= pre.tasks.map_values(
            |t: TaskView| project_cascaded_task(t, target_view.id, nw),
        ));
        assert(pre.tasks.subrange(0, n as int) =~= pre.tasks);
    }
    store.add_project(dp);
    proof {
        assert(store@.tasks =~= pre.tasks.map_values(
            |t: TaskView| project_cascaded_task(t, target_view.id, nw),
        ));
        assert(project_delete_post(pre, target_view, nw, store@));
    }

    match storage.save(&*store) {
        Ok(_) => Ok(DeleteProjectResult { project: deleted, cascaded_tasks_count: count }),
        Err(e) => Err(DeleteProjectError::Storage(e)),
    }
}

/// Failure of the restore-project operation.
#[derive(Debug)]
pub enum RestoreProjectError {
    /// No deleted project matched the given name, or several did.
    ProjectNotFound(String),
    /// Reserved; the deleted pool never offers a live project.
    ProjectNotDeleted(String),
    /// Persisting the store failed after the project was restored in
    /// memory.
    Storage(StorageError),
}

/// What the user asked to restore.
pub struct RestoreProjectParameters {
    pub name: String,
}

/// Restores a soft-deleted project resolved by fuzzy name among the
/// deleted pool. Only the project's own tombstone is cleared: its tasks
/// stay deleted.
pub fn restore_project<S: Storage>(
    store: &mut Store,
    storage: &S,
    parameters: RestoreProjectParameters,
) -> (r: Result<Project, RestoreProjectError>)
    ensures
        ({
            let pre = old(store)@;
            let post = final(store)@;
            let q = parameters.name@;
            let m = matching_deleted_projects_spec(pre.projects, q);
            if m.len() != 1 {
                &&& (r matches Err(RestoreProjectError::ProjectNotFound(n)) && n@ == q)
                &&& post == pre
            } else {
                let restored = ProjectView { deleted_at: None, ..m[0] };
                &&& project_put(pre, restored, post)
                &&& (r matches Ok(p) ==> p@ == restored)
                &&& (r is Ok || r matches Err(RestoreProjectError::Storage(_)))
            }
        }),
{
    let ms = matching_deleted_projects(&*store, parameters.name.as_str());
    if ms.len() != 1 {
        return Err(RestoreProjectError::ProjectNotFound(parameters.name));
    }
    let ghost target_view = ms.deep_view()[0];
    let mut restored = ms[0].clone();
    restored.deleted_at = None;
    proof {
        assert(restored@ =~= ProjectView { deleted_at: None, ..target_view });
    }
    let result = restored.clone();
    store.add_project(restored);
    proof {
        assert(project_put(old(store)@, ProjectView { deleted_at: None, ..target_view }, store@));
    }
    match storage.save(&*store) {
        Ok(_) => Ok(result),
        Err(e) => Err(RestoreProjectError::Storage(e)),
    }
}

} // verus!
