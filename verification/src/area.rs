use vstd::prelude::*;

verus! {

/// An area: a named top-level grouping of projects and tasks.
#[derive(Debug)]
pub struct Area {
    /// Unique id of the area.
    pub id: String,
    /// Name of the area.
    pub name: String,
    /// URL-safe slug derived from the name.
    pub slug: String,
    /// When the area was deleted.
    pub deleted_at: Option<String>,
}

/// Mathematical model of an [`Area`].
#[verifier::ext_equal]
pub struct AreaView {
    pub id: Seq<char>,
    pub name: Seq<char>,
    pub slug: Seq<char>,
    pub deleted_at: Option<Seq<char>>,
}

impl View for Area {
    type V = AreaView;

    open spec fn view(&self) -> AreaView {
        AreaView {
            id: self.id@,
            name: self.name@,
            slug: self.slug@,
            deleted_at: self.deleted_at.deep_view(),
        }
    }
}

impl DeepView for Area {
    type V = AreaView;

    open spec fn deep_view(&self) -> AreaView {
        self@
    }
}

impl Default for Area {
    /// A blank area with empty identity, name and slug.
    fn default() -> (r: Self)
        ensures
            r@ == (AreaView {
                id: Seq::empty(),
                name: Seq::empty(),
                slug: Seq::empty(),
                deleted_at: None,
            }),
    {
        Area { id: String::new(), name: String::new(), slug: String::new(), deleted_at: None }
    }
}

impl Clone for Area {
    fn clone(&self) -> (r: Self)
        ensures
            r@ == self@,
    {
        Area {
            id: self.id.clone(),
            name: self.name.clone(),
            slug: self.slug.clone(),
            deleted_at: self.deleted_at.clone(),
        }
    }
}

} // verus!
