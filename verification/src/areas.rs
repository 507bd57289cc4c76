use vstd::prelude::*;
use vstd::pervasive::VecAdditionalExecFns;

use crate::area::{Area, AreaView};
use crate::ext;
use crate::project::ProjectView;
use crate::resolve::{
    matching_active_areas, matching_areas_spec, matching_deleted_areas,
    matching_deleted_areas_spec,
};
use crate::storage::{Storage, StorageError};
use crate::store::{lemma_filter_push, upsert_where, Store, StoreView};
use crate::task::TaskView;
use crate::text::{contains_str, str_eq};

verus! {

/// Failure of the create-area operation.
#[derive(Debug)]
pub enum CreateAreaError {
    /// Reserved for a name-collision policy; creation is currently
    /// permissive and never reports it.
    AreaAlreadyExists(String),
    /// Persisting the store failed after the area was added in memory.
    Storage(StorageError),
}

/// What the user asked to create.
pub struct CreateAreaParameters {
    pub name: String,
}

/// The area that `create_area` builds: fresh id, the slug derived from
/// the name, not deleted.
pub open spec fn built_area_view(params: CreateAreaParameters, id: Seq<char>) -> AreaView {
    AreaView { id: id, name: params.name@, slug: ext::slug_of(params.name@), deleted_at: None }
}

/// Relates a store before and after inserting one area by identity,
/// leaving everything else alone.
pub open spec fn area_put(pre: StoreView, a: AreaView, post: StoreView) -> bool {
    &&& post.areas == upsert_where(pre.areas, a, |b: AreaView| b.id == a.id)
    &&& post.tasks == pre.tasks
    &&& post.projects == pre.projects
    &&& post.version == pre.version
    &&& post.next_task_number == pre.next_task_number
}

/// Creates an area: derives the slug from the name, assigns a fresh
/// identity, inserts it and persists.
pub fn create_area<S: Storage>(
    store: &mut Store,
    storage: &S,
    parameters: CreateAreaParameters,
) -> (r: Result<Area, CreateAreaError>)
    ensures
        ({
            let pre = old(store)@;
            let post = final(store)@;
            &&& exists|a: AreaView|
                #![trigger area_put(pre, a, post)]
                {
                    &&& area_put(pre, a, post)
                    &&& a == built_area_view(parameters, a.id)
                }
            &&& (r is Ok || r matches Err(CreateAreaError::Storage(_)))
            &&& (r matches Ok(a) ==> a@ == built_area_view(parameters, a@.id) && area_put(
                pre,
                a@,
                post,
            ))
        }),
{
    let slug = ext::slugify(parameters.name.as_str());
    let area = Area { id: ext::fresh_id(), name: parameters.name, slug, deleted_at: None };
    let created = area.clone();
    let ghost aview = area@;
    proof {
        assert(aview =~= built_area_view(parameters, aview.id));
    }
    store.add_area(area);
    proof {
        assert(area_put(old(store)@, aview, store@));
    }
    match storage.save(&*store) {
        Ok(_) => Ok(created),
        Err(e) => Err(CreateAreaError::Storage(e)),
    }
}

/// Failure of the delete-area operation.
#[derive(Debug)]
pub enum DeleteAreaError {
    /// No active area matched the given name, or several did.
    AreaNotFound(String),
    /// Persisting the store failed after the cascade in memory.
    Storage(StorageError),
}

/// What the user asked to delete.
pub struct DeleteAreaParameters {
    pub name: String,
}

/// What an area deletion did: the deleted area and how many projects and
/// tasks were cascaded into the trash with it.
pub struct DeleteAreaResult {
    pub area: Area,
    pub cascaded_projects_count: usize,
    pub cascaded_tasks_count: usize,
}

/// An active project of the given area: cascaded by the area's deletion.
pub open spec fn area_project_cascade_target(p: ProjectView, aid: Seq<char>) -> bool {
    p.deleted_at is None && p.area_id == Some(aid)
}

/// The ids of the projects that deleting the area cascades over.
pub open spec fn cascade_project_ids(projects: Seq<ProjectView>, aid: Seq<char>) -> Seq<
    Seq<char>,
> {
    projects.filter(|p: ProjectView| area_project_cascade_target(p, aid)).map_values(
        |p: ProjectView| p.id,
    )
}

/// An active task swept up by the area's deletion: it belongs to one of
/// the area's cascaded projects, or it sits directly under the area with
/// no project.
pub open spec fn area_task_cascade_target(
    t: TaskView,
    projects: Seq<ProjectView>,
    aid: Seq<char>,
) -> bool {
    &&& t.deleted_at is None
    &&& match t.project_id {
        Some(p) => cascade_project_ids(projects, aid).contains(p),
        None => t.area_id == Some(aid),
    }
}

/// One task after an area deletion: stamped if cascaded, untouched
/// otherwise.
pub open spec fn area_cascaded_task(
    t: TaskView,
    projects: Seq<ProjectView>,
    aid: Seq<char>,
    now: Seq<char>,
) -> TaskView {
    if area_task_cascade_target(t, projects, aid) {
        TaskView { deleted_at: Some(now), ..t }
    } else {
        t
    }
}

/// One project after an area deletion: stamped if cascaded, untouched
/// otherwise.
pub open spec fn area_cascaded_project(p: ProjectView, aid: Seq<char>, now: Seq<char>) -> ProjectView {
    if area_project_cascade_target(p, aid) {
        ProjectView { deleted_at: Some(now), ..p }
    } else {
        p
    }
}

/// Relates a store before and after deleting `target` with the shared
/// instant `now`: the area, its active projects, the active tasks of
/// those projects and the active tasks directly under the area all carry
/// the same tombstone, and nothing else changes.
pub open spec fn area_delete_post(
    pre: StoreView,
    target: AreaView,
    now: Seq<char>,
    post: StoreView,
) -> bool {
    let da = AreaView { deleted_at: Some(now), ..target };
    &&& post.tasks == pre.tasks.map_values(
        |t: TaskView| area_cascaded_task(t, pre.projects, target.id, now),
    )
    &&& post.projects == pre.projects.map_values(
        |p: ProjectView| area_cascaded_project(p, target.id, now),
    )
    &&& post.areas == upsert_where(pre.areas, da, |a: AreaView| a.id == da.id)
    &&& post.version == pre.version
    &&& post.next_task_number == pre.next_task_number
}

/// Soft-deletes an area resolved by fuzzy name among the active pool; an
/// ambiguous name is reported as not found. The area's active projects,
/// their active tasks, and the active tasks directly under the area are
/// cascaded under one shared deletion instant, and both cascade counts
/// are reported.
pub fn delete_area<S: Storage>(
    store: &mut Store,
    storage: &S,
    parameters: DeleteAreaParameters,
) -> (r: Result<DeleteAreaResult, DeleteAreaError>)
    ensures
        ({
            let pre = old(store)@;
            let post = final(store)@;
            let q = parameters.name@;
            let m = matching_areas_spec(pre.areas, q);
            if m.len() != 1 {
                &&& (r matches Err(DeleteAreaError::AreaNotFound(n)) && n@ == q)
                &&& post == pre
            } else {
                let target = m[0];
                &&& exists|now: Seq<char>|
                    #![trigger area_delete_post(pre, target, now, post)]
                    {
                        &&& area_delete_post(pre, target, now, post)
                        &&& (r matches Ok(res) ==> res.area@ == AreaView {
                            deleted_at: Some(now),
                            ..target
                        } && res.cascaded_projects_count as int == pre.projects.filter(
                            |p: ProjectView| area_project_cascade_target(p, target.id),
                        ).len() && res.cascaded_tasks_count as int == pre.tasks.filter(
                            |t: TaskView| area_task_cascade_target(t, pre.projects, target.id),
                        ).len())
                        &&& (r is Ok || r matches Err(DeleteAreaError::Storage(_)))
                    }
            }
        }),
{
    let ms = matching_active_areas(&*store, parameters.name.as_str());
    if ms.len() != 1 {
        return Err(DeleteAreaError::AreaNotFound(parameters.name));
    }
    let target = ms[0].clone();
    let ghost target_view = target@;
    let now = ext::now_timestamp();
    let ghost nw = now@;
    let ghost pre = old(store)@;

    // The ids of the active projects in the area: the project cascade set.
    let mut pids: Vec<String> = Vec::new();
    let np = store.projects.len();
    let mut i: usize = 0;
    while i < np
        invariant
            i <= np,
            np == store.projects.len(),
            pre == old(store)@,
            *store == *old(store),
            target_view == target@,
            pids.deep_view() == pre.projects.subrange(0, i as int).filter(
                |p: ProjectView| area_project_cascade_target(p, target_view.id),
            ).map_values(|p: ProjectView| p.id),
        decreases np - i,
    {
        proof {
            lemma_filter_push(
                pre.projects,
                |p: ProjectView| area_project_cascade_target(p, target_view.id),
                i as int,
            );
        }
        let in_area = match &store.projects[i].area_id {
            Some(a) => str_eq(a.as_str(), target.id.as_str()),
            None => false,
        };
        if in_area && store.projects[i].deleted_at.is_none() {
            let ghost prev = pids.deep_view();
            pids.push(store.projects[i].id.clone());
            proof {
                assert(pids.deep_view() =~= prev.push(pre.projects[i as int].id));
                assert(pre.projects.subrange(0, i + 1).filter(
                    |p: ProjectView| area_project_cascade_target(p, target_view.id),
                ).map_values(|p: ProjectView| p.id) =~= prev.push(pre.projects[i as int].id));
            }
        } else {
            proof {
                assert(pre.projects.subrange(0, i + 1).filter(
                    |p: ProjectView| area_project_cascade_target(p, target_view.id),
                ).map_values(|p: ProjectView| p.id) =~= pids.deep_view());
            }
        }
        i += 1;
    }
    let cascaded_projects_count = pids.len();
    proof {
        assert(pre.projects.subrange(0, np as int) =~= pre.projects);
        assert(cascaded_projects_count as int == pre.projects.filter(
            |p: ProjectView| area_project_cascade_target(p, target_view.id),
        ).len()) by {
            assert(pids.deep_view().len() == pre.projects.filter(
                |p: ProjectView| area_project_cascade_target(p, target_view.id),
            ).map_values(|p: ProjectView| p.id).len());
        }
    }

    // Cascade the tasks: those of the cascaded projects, and those
    // directly under the area.
    let nt = store.tasks.len();
    let mut j: usize = 0;
    let mut cascaded_tasks_count: usize = 0;
    while j < nt
        invariant
            j <= nt,
            nt == store.tasks.len(),
            nt == pre.tasks.len(),
            pre == old(store)@,
            nw == now@,
            target_view == target@,
            cascaded_tasks_count <= j,
            store@.projects == pre.projects,
            store@.areas == pre.areas,
            store@.version == pre.version,
            store@.next_task_number == pre.next_task_number,
            pids.deep_view() == cascade_project_ids(pre.projects, target_view.id),
            forall|k: int|
                0 <= k < j ==> store@.tasks[k] == area_cascaded_task(
                    #[trigger] pre.tasks[k],
                    pre.projects,
                    target_view.id,
                    nw,
                ),
            forall|k: int| j <= k < nt ==> #[trigger] store@.tasks[k] == pre.tasks[k],
            cascaded_tasks_count as int == pre.tasks.subrange(0, j as int).filter(
                |t: TaskView| area_task_cascade_target(t, pre.projects, target_view.id),
            ).len(),
        decreases nt - j,
    {
        proof {
            lemma_filter_push(
                pre.tasks,
                |t: TaskView| area_task_cascade_target(t, pre.projects, target_view.id),
                j as int,
            );
            assert(store@.tasks[j as int] == pre.tasks[j as int]);
        }
        let swept = match &store.tasks[j].project_id {
            Some(p) => contains_str(&pids, p.as_str()),
            None => {
                match &store.tasks[j].area_id {
                    Some(a) => str_eq(a.as_str(), target.id.as_str()),
                    None => false,
                }
            },
        };
        if swept && store.tasks[j].deleted_at.is_none() {
            let mut t = store.tasks[j].clone();
            t.deleted_at = Some(now.clone());
            proof {
                assert(t@ =~= TaskView { deleted_at: Some(nw), ..pre.tasks[j as int] });
            }
            let ghost prev = store@.tasks;
            store.tasks.set(j, t);
            proof {
                assert(store@.tasks =~= prev.update(j as int, t@));
            }
            cascaded_tasks_count = cascaded_tasks_count + 1;
        }
        j += 1;
    }
    proof {
        assert(pre.tasks.subrange(0, nt as int) =~= pre.tasks);
    }

    // Cascade the projects themselves.
    let mut k: usize = 0;
    while k < np
        invariant
            k <= np,
            np == store.projects.len(),
            np == pre.projects.len(),
            nt == pre.tasks.len(),
            pre == old(store)@,
            nw == now@,
            target_view == target@,
            store@.areas == pre.areas,
            store@.version == pre.version,
            store@.next_task_number == pre.next_task_number,
            store@.tasks == pre.tasks.map_values(
                |t: TaskView| area_cascaded_task(t, pre.projects, target_view.id, nw),
            ),
            forall|x: int|
                0 <= x < k ==> store@.projects[x] == area_cascaded_project(
                    #[trigger] pre.projects[x],
                    target_view.id,
                    nw,
                ),
            forall|x: int| k <= x < np ==> #[trigger] store@.projects[x] == pre.projects[x],
        decreases np - k,
    {
        proof {
            assert(store@.projects[k as int] == pre.projects[k as int]);
        }
        let in_area = match &store.projects[k].area_id {
            Some(a) => str_eq(a.as_str(), target.id.as_str()),
            None => false,
        };
        if in_area && store.projects[k].deleted_at.is_none() {
            let mut p = store.projects[k].clone();
            p.deleted_at = Some(now.clone());
            proof {
                assert(p@ =~= ProjectView { deleted_at: Some(nw), ..pre.projects[k as int] });
            }
            let ghost prev = store@.projects;
            store.projects.set(k, p);
            proof {
                assert(store@.projects =~= prev.update(k as int, p@));
            }
        }
        k += 1;
    }

    // Finally the area itself.
    let mut da = target;
    da.deleted_at = Some(now);
    let deleted = da.clone();
    proof {
        assert(da@ =~= AreaView { deleted_at: Some(nw), ..target_view });
        assert(store@.projects =~= pre.projects.map_values(
            |p: ProjectView| area_cascaded_project(p, target_view.id, nw),
        ));
    }
    store.add_area(da);
    proof {
        assert(store@.tasks =~= pre.tasks.map_values(
            |t: TaskView| area_cascaded_task(t, pre.projects, target_view.id, nw),
        ));
        assert(store@.projects =~= pre.projects.map_values(
            |p: ProjectView| area_cascaded_project(p, target_view.id, nw),
        ));
        assert(area_delete_post(pre, target_view, nw, store@));
    }

    match storage.save(&*store) {
        Ok(_) => Ok(
            DeleteAreaResult {
                area: deleted,
                cascaded_projects_count,
                cascaded_tasks_count,
            },
        ),
        Err(e) => Err(DeleteAreaError::Storage(e)),
    }
}

/// Failure of the restore-area operation.
#[derive(Debug)]
pub enum RestoreAreaError {
    /// No deleted area matched the given name, or several did.
    AreaNotFound(String),
    /// Reserved; the deleted pool never offers a live area.
    AreaNotDeleted(String),
    /// Persisting the store failed after the area was restored in memory.
    Storage(StorageError),
}

/// What the user asked to restore.
pub struct RestoreAreaParameters {
    pub name: String,
}

/// Restores a soft-deleted area resolved by fuzzy name among the deleted
/// pool. Only the area's own tombstone is cleared: its projects and
/// tasks stay deleted.
pub fn restore_area<S: Storage>(
    store: &mut Store,
    storage: &S,
    parameters: RestoreAreaParameters,
) -> (r: Result<Area, RestoreAreaError>)
    ensures
        ({
            let pre = old(store)@;
            let post = final(store)@;
            let q = parameters.name@;
            let m = matching_deleted_areas_spec(pre.areas, q);
            if m.len() != 1 {
                &&& (r matches Err(RestoreAreaError::AreaNotFound(n)) && n@ == q)
                &&& post == pre
            } else {
                let restored = AreaView { deleted_at: None, ..m[0] };
                &&& area_put(pre, restored, post)
                &&& (r matches Ok(a) ==> a@ == restored)
                &&& (r is Ok || r matches Err(RestoreAreaError::Storage(_)))
            }
        }),
{
    let ms = matching_deleted_areas(&*store, parameters.name.as_str());
    if ms.len() != 1 {
        return Err(RestoreAreaError::AreaNotFound(parameters.name));
    }
    let ghost target_view = ms.deep_view()[0];
    let mut restored = ms[0].clone();
    restored.deleted_at = None;
    proof {
        assert(restored@ =~= AreaView { deleted_at: None, ..target_view });
    }
    let result = restored.clone();
    store.add_area(restored);
    proof {
        assert(area_put(old(store)@, AreaView { deleted_at: None, ..target_view }, store@));
    }
    match storage.save(&*store) {
        Ok(_) => Ok(result),
        Err(e) => Err(RestoreAreaError::Storage(e)),
    }
}

} // verus!
