use vstd::prelude::*;

use crate::dates::Date;
use crate::ext;

verus! {

/// Scheduling state of a task: exactly one variant is active at a time.
#[derive(Clone, Copy, PartialEq, Eq, Structural, Debug, Default)]
pub enum When {
    #[default]
    Inbox,
    Today { evening: bool },
    Someday,
    Anytime,
    Scheduled { date: Date },
}

/// A lightweight sub-task of a task.
#[derive(Debug)]
pub struct ChecklistItem {
    pub id: String,
    pub title: String,
    pub completed: bool,
}

/// Mathematical model of a [`ChecklistItem`].
#[verifier::ext_equal]
pub struct ChecklistItemView {
    pub id: Seq<char>,
    pub title: Seq<char>,
    pub completed: bool,
}

impl View for ChecklistItem {
    type V = ChecklistItemView;

    open spec fn view(&self) -> ChecklistItemView {
        ChecklistItemView { id: self.id@, title: self.title@, completed: self.completed }
    }
}

impl DeepView for ChecklistItem {
    type V = ChecklistItemView;

    open spec fn deep_view(&self) -> ChecklistItemView {
        self@
    }
}

impl Clone for ChecklistItem {
    fn clone(&self) -> (r: Self)
        ensures
            r@ == self@,
    {
        ChecklistItem { id: self.id.clone(), title: self.title.clone(), completed: self.completed }
    }
}

/// A task. Timestamps are kept as the instant-with-offset strings that the
/// on-disk document uses; dates are plain [`Date`] values.
#[derive(Debug)]
pub struct Task {
    /// Unique id of the task.
    pub id: String,
    /// User-facing sequential task number, assigned by the store.
    pub task_number: u64,
    /// Title of the task.
    pub title: String,
    /// Notes of the task.
    pub notes: Option<String>,
    /// The owning project, if the task belongs to one.
    pub project_id: Option<String>,
    /// The owning area, for a task directly under an area (no project).
    pub area_id: Option<String>,
    /// Tags of the task.
    pub tags: Vec<String>,
    /// When the user wants to do the work.
    pub when: When,
    /// The task's hard deadline.
    pub deadline: Option<Date>,
    /// Deferred date when the task surfaces again.
    pub defer_until: Option<Date>,
    /// Sub-tasks of the main task.
    pub checklist: Vec<ChecklistItem>,
    /// When the task was completed.
    pub completed_at: Option<String>,
    /// When the task was deleted.
    pub deleted_at: Option<String>,
    /// When the task was created.
    pub created_at: String,
}

/// Mathematical model of a [`Task`].
#[verifier::ext_equal]
pub struct TaskView {
    pub id: Seq<char>,
    pub task_number: u64,
    pub title: Seq<char>,
    pub notes: Option<Seq<char>>,
    pub project_id: Option<Seq<char>>,
    pub area_id: Option<Seq<char>>,
    pub tags: Seq<Seq<char>>,
    pub when: When,
    pub deadline: Option<Date>,
    pub defer_until: Option<Date>,
    pub checklist: Seq<ChecklistItemView>,
    pub completed_at: Option<Seq<char>>,
    pub deleted_at: Option<Seq<char>>,
    pub created_at: Seq<char>,
}

impl View for Task {
    type V = TaskView;

    open spec fn view(&self) -> TaskView {
        TaskView {
            id: self.id@,
            task_number: self.task_number,
            title: self.title@,
            notes: self.notes.deep_view(),
            project_id: self.project_id.deep_view(),
            area_id: self.area_id.deep_view(),
            tags: self.tags.deep_view(),
            when: self.when,
            deadline: self.deadline,
            defer_until: self.defer_until,
            checklist: self.checklist.deep_view(),
            completed_at: self.completed_at.deep_view(),
            deleted_at: self.deleted_at.deep_view(),
            created_at: self.created_at@,
        }
    }
}

impl DeepView for Task {
    type V = TaskView;

    open spec fn deep_view(&self) -> TaskView {
        self@
    }
}

impl Clone for Task {
    fn clone(&self) -> (r: Self)
        ensures
            r@ == self@,
    {
        let tags = self.tags.clone();
        let checklist = self.checklist.clone();
        proof {
            assert(tags.deep_view() =~= self.tags.deep_view());
            assert(checklist.deep_view() =~= self.checklist.deep_view());
        }
        let r = Task {
            id: self.id.clone(),
            task_number: self.task_number,
            title: self.title.clone(),
            notes: self.notes.clone(),
            project_id: self.project_id.clone(),
            area_id: self.area_id.clone(),
            tags,
            when: self.when,
            deadline: self.deadline,
            defer_until: self.defer_until,
            checklist,
            completed_at: self.completed_at.clone(),
            deleted_at: self.deleted_at.clone(),
            created_at: self.created_at.clone(),
        };
        proof {
            assert(r@ =~= self@);
        }
        r
    }
}

impl Default for Task {
    /// An empty inbox task with blank identity and creation instant.
    fn default() -> (r: Self)
        ensures
            r@ == (TaskView {
                id: Seq::empty(),
                task_number: 0,
                title: Seq::empty(),
                notes: None,
                project_id: None,
                area_id: None,
                tags: Seq::empty(),
                when: When::Inbox,
                deadline: None,
                defer_until: None,
                checklist: Seq::empty(),
                completed_at: None,
                deleted_at: None,
                created_at: Seq::empty(),
            }),
    {
        let r = Task {
            id: String::new(),
            task_number: 0,
            title: String::new(),
            notes: None,
            project_id: None,
            area_id: None,
            tags: Vec::new(),
            when: When::Inbox,
            deadline: None,
            defer_until: None,
            checklist: Vec::new(),
            completed_at: None,
            deleted_at: None,
            created_at: String::new(),
        };
        proof {
            assert(r@.tags =~= Seq::<Seq<char>>::empty());
            assert(r@.checklist =~= Seq::<ChecklistItemView>::empty());
        }
        r
    }
}

/// Failure to build a [`When`] value from command flags.
#[derive(Debug)]
pub enum WhenInstantiationError {
    /// The schedule date string could not be parsed; carries the string.
    ScheduleAtIncorrect(String),
    /// Two or more scheduling flags were given; carries their names.
    ConflictingFlags(Vec<String>),
    /// The evening flag was given without the today flag.
    EveningWithoutToday,
}

impl When {
    /// The scheduling flags that `from_command_flags` treats as mutually
    /// exclusive, in the order they are reported on a conflict.
    pub open spec fn provided_flags_spec(
        today: bool,
        someday: bool,
        anytime: bool,
        schedule_at: Option<Seq<char>>,
    ) -> Seq<Seq<char>> {
        let a: Seq<Seq<char>> = if today {
            seq!["--today"@]
        } else {
            Seq::empty()
        };
        let b: Seq<Seq<char>> = if someday {
            seq!["--someday"@]
        } else {
            Seq::empty()
        };
        let c: Seq<Seq<char>> = if anytime {
            seq!["--anytime"@]
        } else {
            Seq::empty()
        };
        let d: Seq<Seq<char>> = if schedule_at is Some {
            seq!["--when"@]
        } else {
            Seq::empty()
        };
        a + b + c + d
    }

    /// Builds the scheduling state requested by the command flags.
    ///
    /// Exactly one of the scheduling flags may be used; the evening flag
    /// needs the today flag; a schedule date must parse as a calendar date
    /// with a year the store can represent.
    pub fn from_command_flags(
        today: bool,
        evening: bool,
        someday: bool,
        anytime: bool,
        schedule_at: Option<String>,
    ) -> (r: Result<When, WhenInstantiationError>)
        ensures
            ({
                let flags = Self::provided_flags_spec(
                    today,
                    someday,
                    anytime,
                    schedule_at.deep_view(),
                );
                &&& (r matches Err(WhenInstantiationError::ConflictingFlags(v)) ==> flags.len()
                    > 1 && v.deep_view() == flags)
                &&& (flags.len() > 1 ==> r matches Err(
                    WhenInstantiationError::ConflictingFlags(_),
                ))
                &&& (r matches Err(WhenInstantiationError::EveningWithoutToday) <==> flags.len()
                    <= 1 && evening && !today)
                &&& (flags.len() <= 1 && !(evening && !today) ==> {
                    &&& today ==> r == Ok::<When, WhenInstantiationError>(
                        When::Today { evening },
                    )
                    &&& !today && someday ==> r == Ok::<When, WhenInstantiationError>(
                        When::Someday,
                    )
                    &&& !today && !someday && anytime ==> r == Ok::<When, WhenInstantiationError>(
                        When::Anytime,
                    )
                    &&& !today && !someday && !anytime && schedule_at is None ==> r == Ok::<
                        When,
                        WhenInstantiationError,
                    >(When::Inbox)
                    &&& (!today && !someday && !anytime && schedule_at is Some) ==> {
                        let s = schedule_at.deep_view()->0;
                        let pd = ext::date_parse_of(s);
                        let ok = pd matches Ok(d) && (Date {
                            year: d.0,
                            month: d.1,
                            day: d.2,
                        }).wf();
                        &&& (ok ==> r == Ok::<When, WhenInstantiationError>(
                            When::Scheduled {
                                date: Date {
                                    year: pd->Ok_0.0,
                                    month: pd->Ok_0.1,
                                    day: pd->Ok_0.2,
                                },
                            },
                        ))
                        &&& (!ok ==> (r matches Err(
                            WhenInstantiationError::ScheduleAtIncorrect(t),
                        ) && t@ == s))
                    }
                })
            }),
    {
        let mut provided_flags: Vec<String> = Vec::new();
        if today {
            provided_flags.push("--today".to_owned());
        }
        if someday {
            provided_flags.push("--someday".to_owned());
        }
        if anytime {
            provided_flags.push("--anytime".to_owned());
        }
        if schedule_at.is_some() {
            provided_flags.push("--when".to_owned());
        }
        proof {
            assert(provided_flags.deep_view() =~= Self::provided_flags_spec(
                today,
                someday,
                anytime,
                schedule_at.deep_view(),
            ));
        }

        if provided_flags.len() > 1 {
            return Err(WhenInstantiationError::ConflictingFlags(provided_flags));
        }

        if evening && !today {
            return Err(WhenInstantiationError::EveningWithoutToday);
        }

        if today {
            Ok(When::Today { evening })
        } else if someday {
            Ok(When::Someday)
        } else if anytime {
            Ok(When::Anytime)
        } else if let Some(string_date) = schedule_at {
            match ext::parse_civil_date(string_date.as_str()) {
                Ok((year, month, day)) => {
                    if crate::dates::date_is_wf(year, month, day) {
                        Ok(When::Scheduled { date: Date { year, month, day } })
                    } else {
                        Err(WhenInstantiationError::ScheduleAtIncorrect(string_date))
                    }
                },
                Err(_) => Err(WhenInstantiationError::ScheduleAtIncorrect(string_date)),
            }
        } else {
            Ok(When::Inbox)
        }
    }
}

} // verus!
