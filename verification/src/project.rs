use vstd::prelude::*;

use crate::dates::Date;

verus! {

/// A project: a named container of tasks, optionally owned by an area.
#[derive(Debug)]
pub struct Project {
    /// Unique id of the project.
    pub id: String,
    /// Name of the project.
    pub name: String,
    /// URL-safe slug derived from the name.
    pub slug: String,
    /// Owning area of the project, if any.
    pub area_id: Option<String>,
    /// Notes of the project.
    pub notes: Option<String>,
    /// Deadline of the project.
    pub deadline: Option<Date>,
    /// When the project was completed.
    pub completed_at: Option<String>,
    /// When the project was deleted.
    pub deleted_at: Option<String>,
    /// When the project was created.
    pub created_at: String,
}

/// Mathematical model of a [`Project`].
#[verifier::ext_equal]
pub struct ProjectView {
    pub id: Seq<char>,
    pub name: Seq<char>,
    pub slug: Seq<char>,
    pub area_id: Option<Seq<char>>,
    pub notes: Option<Seq<char>>,
    pub deadline: Option<Date>,
    pub completed_at: Option<Seq<char>>,
    pub deleted_at: Option<Seq<char>>,
    pub created_at: Seq<char>,
}

impl View for Project {
    type V = ProjectView;

    open spec fn view(&self) -> ProjectView {
        ProjectView {
            id: self.id@,
            name: self.name@,
            slug: self.slug@,
            area_id: self.area_id.deep_view(),
            notes: self.notes.deep_view(),
            deadline: self.deadline,
            completed_at: self.completed_at.deep_view(),
            deleted_at: self.deleted_at.deep_view(),
            created_at: self.created_at@,
        }
    }
}

impl DeepView for Project {
    type V = ProjectView;

    open spec fn deep_view(&self) -> ProjectView {
        self@
    }
}

impl Default for Project {
    /// A blank project with empty identity, name and slug.
    fn default() -> (r: Self)
        ensures
            r@ == (ProjectView {
                id: Seq::empty(),
                name: Seq::empty(),
                slug: Seq::empty(),
                area_id: None,
                notes: None,
                deadline: None,
                completed_at: None,
                deleted_at: None,
                created_at: Seq::empty(),
            }),
    {
        Project {
            id: String::new(),
            name: String::new(),
            slug: String::new(),
            area_id: None,
            notes: None,
            deadline: None,
            completed_at: None,
            deleted_at: None,
            created_at: String::new(),
        }
    }
}

impl Clone for Project {
    fn clone(&self) -> (r: Self)
        ensures
            r@ == self@,
    {
        Project {
            id: self.id.clone(),
            name: self.name.clone(),
            slug: self.slug.clone(),
            area_id: self.area_id.clone(),
            notes: self.notes.clone(),
            deadline: self.deadline,
            completed_at: self.completed_at.clone(),
            deleted_at: self.deleted_at.clone(),
            created_at: self.created_at.clone(),
        }
    }
}

} // verus!
