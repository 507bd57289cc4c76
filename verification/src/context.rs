use vstd::prelude::*;
use vstd::string::StringExecFns;

use crate::area::AreaView;
use crate::dates::Date;
use crate::project::ProjectView;
use crate::store::{first_index_where, Store, StoreView};
use crate::task::{Task, TaskView, When};

verus! {

/// The project a store holds under the given id, if any: the first one,
/// as the store's lookup finds it.
pub open spec fn found_project(s: StoreView, id: Seq<char>) -> Option<ProjectView> {
    let j = first_index_where(s.projects, |p: ProjectView| p.id == id);
    if j >= 0 {
        Some(s.projects[j])
    } else {
        None
    }
}

/// The area a store holds under the given id, if any.
pub open spec fn found_area(s: StoreView, id: Seq<char>) -> Option<AreaView> {
    let j = first_index_where(s.areas, |a: AreaView| a.id == id);
    if j >= 0 {
        Some(s.areas[j])
    } else {
        None
    }
}

/// The display context of a task: "Area / Project" when its project sits
/// in a known area, the project name alone when not, the area name for a
/// task directly under an area, and nothing otherwise. A dangling
/// reference falls back to the next rule rather than failing.
pub open spec fn task_context_spec(s: StoreView, t: TaskView) -> Option<Seq<char>> {
    if t.project_id is Some && found_project(s, t.project_id->0) is Some {
        let p = found_project(s, t.project_id->0)->0;
        if p.area_id is Some && found_area(s, p.area_id->0) is Some {
            Some(found_area(s, p.area_id->0)->0.name + " / "@ + p.name)
        } else {
            Some(p.name)
        }
    } else if t.area_id is Some && found_area(s, t.area_id->0) is Some {
        Some(found_area(s, t.area_id->0)->0.name)
    } else {
        None
    }
}

/// Builds the context string for a task: the area / project hierarchy it
/// sits under, or nothing when it has no live associations.
pub fn get_task_context(task: &Task, store: &Store) -> (r: Option<String>)
    ensures
        ({
            let c = task_context_spec(store@, task@);
            &&& (r is Some <==> c is Some)
            &&& (r matches Some(s) ==> s@ == c->0)
        }),
{
    if let Some(project_id) = &task.project_id {
        if let Some(project) = store.get_project(project_id.as_str()) {
            if let Some(area_id) = &project.area_id {
                if let Some(area) = store.get_area(area_id.as_str()) {
                    let mut ctx = area.name.clone();
                    ctx.append(" / ");
                    ctx.append(project.name.as_str());
                    return Some(ctx);
                }
            }
            return Some(project.name.clone());
        }
    }
    if let Some(area_id) = &task.area_id {
        if let Some(area) = store.get_area(area_id.as_str()) {
            return Some(area.name.clone());
        }
    }
    None
}

/// Whether a task counts as overdue on the given day: it is scheduled
/// for a day strictly before it, and neither completed nor deleted.
pub open spec fn is_overdue_spec(t: TaskView, today: Date) -> bool {
    &&& t.completed_at is None
    &&& t.deleted_at is None
    &&& t.when matches When::Scheduled { date } && date.spec_before(today)
}

/// Checks whether the task is overdue as of the given day.
pub fn is_overdue_on(task: &Task, today: Date) -> (r: bool)
    ensures
        r == is_overdue_spec(task@, today),
{
    if task.completed_at.is_some() || task.deleted_at.is_some() {
        return false;
    }
    match &task.when {
        When::Scheduled { date } => date.before(&today),
        _ => false,
    }
}

} // verus!
