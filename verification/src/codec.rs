use vstd::prelude::*;
use vstd::string::StringExecFns;

use crate::dates::{date_is_wf, Date};
use crate::json::{arr_view, fields_view, json_view, obj_get, JsonValue, JsonView};
use crate::area::{Area, AreaView};
use crate::project::{Project, ProjectView};
use crate::store::{Store, StoreView};
use crate::task::{ChecklistItem, ChecklistItemView, Task, TaskView, When};
use crate::text::{digit_char, digit_val, is_digit};

verus! {

broadcast use vstd::std_specs::vec::group_vec_axioms;

// --- calendar dates as the strict `YYYY-MM-DD` strings of the store file ---

/// The `YYYY-MM-DD` rendering of a date, zero-padded.
pub open spec fn date_str_of(d: Date) -> Seq<char> {
    seq![
        digit_char(d.year as int / 1000 % 10),
        digit_char(d.year as int / 100 % 10),
        digit_char(d.year as int / 10 % 10),
        digit_char(d.year as int % 10),
        '-',
        digit_char(d.month as int / 10 % 10),
        digit_char(d.month as int % 10),
        '-',
        digit_char(d.day as int / 10 % 10),
        digit_char(d.day as int % 10),
    ]
}

/// The date a strict `YYYY-MM-DD` string denotes, when it is one and the
/// date is well formed.
pub open spec fn date_of_str(s: Seq<char>) -> Option<Date> {
    if s.len() == 10 && s[4] == '-' && s[7] == '-' && is_digit(s[0]) && is_digit(s[1]) && is_digit(
        s[2],
    ) && is_digit(s[3]) && is_digit(s[5]) && is_digit(s[6]) && is_digit(s[8]) && is_digit(s[9]) {
        let y = digit_val(s[0]) * 1000 + digit_val(s[1]) * 100 + digit_val(s[2]) * 10 + digit_val(
            s[3],
        );
        let m = digit_val(s[5]) * 10 + digit_val(s[6]);
        let dd = digit_val(s[8]) * 10 + digit_val(s[9]);
        let d = Date { year: y as i16, month: m as i8, day: dd as i8 };
        if d.wf() {
            Some(d)
        } else {
            None
        }
    } else {
        None
    }
}


/// Pins down the characters of every field name and tag the store
/// document uses.
pub proof fn lemma_key_literals()
    ensures
        "id"@ == seq!['i', 'd'],
        "task_number"@ == seq!['t', 'a', 's', 'k', '_', 'n', 'u', 'm', 'b', 'e', 'r'],
        "title"@ == seq!['t', 'i', 't', 'l', 'e'],
        "notes"@ == seq!['n', 'o', 't', 'e', 's'],
        "project_id"@ == seq!['p', 'r', 'o', 'j', 'e', 'c', 't', '_', 'i', 'd'],
        "area_id"@ == seq!['a', 'r', 'e', 'a', '_', 'i', 'd'],
        "tags"@ == seq!['t', 'a', 'g', 's'],
        "when"@ == seq!['w', 'h', 'e', 'n'],
        "deadline"@ == seq!['d', 'e', 'a', 'd', 'l', 'i', 'n', 'e'],
        "defer_until"@ == seq!['d', 'e', 'f', 'e', 'r', '_', 'u', 'n', 't', 'i', 'l'],
        "checklist"@ == seq!['c', 'h', 'e', 'c', 'k', 'l', 'i', 's', 't'],
        "completed_at"@ == seq!['c', 'o', 'm', 'p', 'l', 'e', 't', 'e', 'd', '_', 'a', 't'],
        "deleted_at"@ == seq!['d', 'e', 'l', 'e', 't', 'e', 'd', '_', 'a', 't'],
        "created_at"@ == seq!['c', 'r', 'e', 'a', 't', 'e', 'd', '_', 'a', 't'],
        "name"@ == seq!['n', 'a', 'm', 'e'],
        "slug"@ == seq!['s', 'l', 'u', 'g'],
        "completed"@ == seq!['c', 'o', 'm', 'p', 'l', 'e', 't', 'e', 'd'],
        "type"@ == seq!['t', 'y', 'p', 'e'],
        "evening"@ == seq!['e', 'v', 'e', 'n', 'i', 'n', 'g'],
        "date"@ == seq!['d', 'a', 't', 'e'],
        "version"@ == seq!['v', 'e', 'r', 's', 'i', 'o', 'n'],
        "next_task_number"@ == seq!['n', 'e', 'x', 't', '_', 't', 'a', 's', 'k', '_', 'n', 'u', 'm', 'b', 'e', 'r'],
        "tasks"@ == seq!['t', 'a', 's', 'k', 's'],
        "projects"@ == seq!['p', 'r', 'o', 'j', 'e', 'c', 't', 's'],
        "areas"@ == seq!['a', 'r', 'e', 'a', 's'],
        "Inbox"@ == seq!['I', 'n', 'b', 'o', 'x'],
        "Today"@ == seq!['T', 'o', 'd', 'a', 'y'],
        "Someday"@ == seq!['S', 'o', 'm', 'e', 'd', 'a', 'y'],
        "Anytime"@ == seq!['A', 'n', 'y', 't', 'i', 'm', 'e'],
        "Scheduled"@ == seq!['S', 'c', 'h', 'e', 'd', 'u', 'l', 'e', 'd'],
{
    assert("id"@ =~= seq!['i', 'd']) by {
        reveal_strlit("id");
    }
    assert("task_number"@ =~= seq!['t', 'a', 's', 'k', '_', 'n', 'u', 'm', 'b', 'e', 'r']) by {
        reveal_strlit("task_number");
    }
    assert("title"@ =~= seq!['t', 'i', 't', 'l', 'e']) by {
        reveal_strlit("title");
    }
    assert("notes"@ =~= seq!['n', 'o', 't', 'e', 's']) by {
        reveal_strlit("notes");
    }
    assert("project_id"@ =~= seq!['p', 'r', 'o', 'j', 'e', 'c', 't', '_', 'i', 'd']) by {
        reveal_strlit("project_id");
    }
    assert("area_id"@ =~= seq!['a', 'r', 'e', 'a', '_', 'i', 'd']) by {
        reveal_strlit("area_id");
    }
    assert("tags"@ =~= seq!['t', 'a', 'g', 's']) by {
        reveal_strlit("tags");
    }
    assert("when"@ =~= seq!['w', 'h', 'e', 'n']) by {
        reveal_strlit("when");
    }
    assert("deadline"@ =~= seq!['d', 'e', 'a', 'd', 'l', 'i', 'n', 'e']) by {
        reveal_strlit("deadline");
    }
    assert("defer_until"@ =~= seq!['d', 'e', 'f', 'e', 'r', '_', 'u', 'n', 't', 'i', 'l']) by {
        reveal_strlit("defer_until");
    }
    assert("checklist"@ =~= seq!['c', 'h', 'e', 'c', 'k', 'l', 'i', 's', 't']) by {
        reveal_strlit("checklist");
    }
    assert("completed_at"@ =~= seq!['c', 'o', 'm', 'p', 'l', 'e', 't', 'e', 'd', '_', 'a', 't']) by {
        reveal_strlit("completed_at");
    }
    assert("deleted_at"@ =~= seq!['d', 'e', 'l', 'e', 't', 'e', 'd', '_', 'a', 't']) by {
        reveal_strlit("deleted_at");
    }
    assert("created_at"@ =~= seq!['c', 'r', 'e', 'a', 't', 'e', 'd', '_', 'a', 't']) by {
        reveal_strlit("created_at");
    }
    assert("name"@ =~= seq!['n', 'a', 'm', 'e']) by {
        reveal_strlit("name");
    }
    assert("slug"@ =~= seq!['s', 'l', 'u', 'g']) by {
        reveal_strlit("slug");
    }
    assert("completed"@ =~= seq!['c', 'o', 'm', 'p', 'l', 'e', 't', 'e', 'd']) by {
        reveal_strlit("completed");
    }
    assert("type"@ =~= seq!['t', 'y', 'p', 'e']) by {
        reveal_strlit("type");
    }
    assert("evening"@ =~= seq!['e', 'v', 'e', 'n', 'i', 'n', 'g']) by {
        reveal_strlit("evening");
    }
    assert("date"@ =~= seq!['d', 'a', 't', 'e']) by {
        reveal_strlit("date");
    }
    assert("version"@ =~= seq!['v', 'e', 'r', 's', 'i', 'o', 'n']) by {
        reveal_strlit("version");
    }
    assert("next_task_number"@ =~= seq!['n', 'e', 'x', 't', '_', 't', 'a', 's', 'k', '_', 'n', 'u', 'm', 'b', 'e', 'r']) by {
        reveal_strlit("next_task_number");
    }
    assert("tasks"@ =~= seq!['t', 'a', 's', 'k', 's']) by {
        reveal_strlit("tasks");
    }
    assert("projects"@ =~= seq!['p', 'r', 'o', 'j', 'e', 'c', 't', 's']) by {
        reveal_strlit("projects");
    }
    assert("areas"@ =~= seq!['a', 'r', 'e', 'a', 's']) by {
        reveal_strlit("areas");
    }
    assert("Inbox"@ =~= seq!['I', 'n', 'b', 'o', 'x']) by {
        reveal_strlit("Inbox");
    }
    assert("Today"@ =~= seq!['T', 'o', 'd', 'a', 'y']) by {
        reveal_strlit("Today");
    }
    assert("Someday"@ =~= seq!['S', 'o', 'm', 'e', 'd', 'a', 'y']) by {
        reveal_strlit("Someday");
    }
    assert("Anytime"@ =~= seq!['A', 'n', 'y', 't', 'i', 'm', 'e']) by {
        reveal_strlit("Anytime");
    }
    assert("Scheduled"@ =~= seq!['S', 'c', 'h', 'e', 'd', 'u', 'l', 'e', 'd']) by {
        reveal_strlit("Scheduled");
    }
}

/// Every digit value maps to its digit character and back.
proof fn lemma_digit_char_val(x: int)
    requires
        0 <= x <= 9,
    ensures
        is_digit(digit_char(x)),
        digit_val(digit_char(x)) == x,
{
}

/// Writing a well-formed date and reading it back yields the same date.
#[verifier::rlimit(100)]
pub proof fn lemma_date_roundtrip(d: Date)
    requires
        d.wf(),
    ensures
        date_of_str(date_str_of(d)) == Some(d),
{
    let s = date_str_of(d);
    assert(s.len() == 10);
    assert(s[0] == digit_char(d.year as int / 1000 % 10));
    assert(s[1] == digit_char(d.year as int / 100 % 10));
    assert(s[2] == digit_char(d.year as int / 10 % 10));
    assert(s[3] == digit_char(d.year as int % 10));
    assert(s[4] == '-');
    assert(s[5] == digit_char(d.month as int / 10 % 10));
    assert(s[6] == digit_char(d.month as int % 10));
    assert(s[7] == '-');
    assert(s[8] == digit_char(d.day as int / 10 % 10));
    assert(s[9] == digit_char(d.day as int % 10));
    let y = d.year as int;
    let m = d.month as int;
    let dd = d.day as int;
    lemma_digit_char_val(y / 1000 % 10);
    lemma_digit_char_val(y / 100 % 10);
    lemma_digit_char_val(y / 10 % 10);
    lemma_digit_char_val(y % 10);
    lemma_digit_char_val(m / 10 % 10);
    lemma_digit_char_val(m % 10);
    lemma_digit_char_val(dd / 10 % 10);
    lemma_digit_char_val(dd % 10);
    assert(y / 1000 % 10 * 1000 + y / 100 % 10 * 100 + y / 10 % 10 * 10 + y % 10 == y);
    assert(m / 10 % 10 * 10 + m % 10 == m);
    assert(dd / 10 % 10 * 10 + dd % 10 == dd);
}

/// Renders a date in the strict `YYYY-MM-DD` form.
pub fn date_to_string(d: &Date) -> (r: String)
    requires
        d.wf(),
    ensures
        r@ == date_str_of(*d),
{
    let y = d.year as u64;
    let m = d.month as u64;
    let dd = d.day as u64;
    let mut s = String::new();
    s.append(digit_str_at(y / 1000 % 10));
    s.append(digit_str_at(y / 100 % 10));
    s.append(digit_str_at(y / 10 % 10));
    s.append(digit_str_at(y % 10));
    s.append("-");
    s.append(digit_str_at(m / 10 % 10));
    s.append(digit_str_at(m % 10));
    s.append("-");
    s.append(digit_str_at(dd / 10 % 10));
    s.append(digit_str_at(dd % 10));
    proof {
        reveal_strlit("-");
        assert(s@ =~= date_str_of(*d));
    }
    s
}

fn digit_str_at(d: u64) -> (r: &'static str)
    requires
        d < 10,
    ensures
        r@ == seq![digit_char(d as int)],
{
    proof {
        reveal_strlit("0");
        reveal_strlit("1");
        reveal_strlit("2");
        reveal_strlit("3");
        reveal_strlit("4");
        reveal_strlit("5");
        reveal_strlit("6");
        reveal_strlit("7");
        reveal_strlit("8");
        reveal_strlit("9");
    }
    let r: &'static str = if d == 0 {
        "0"
    } else if d == 1 {
        "1"
    } else if d == 2 {
        "2"
    } else if d == 3 {
        "3"
    } else if d == 4 {
        "4"
    } else if d == 5 {
        "5"
    } else if d == 6 {
        "6"
    } else if d == 7 {
        "7"
    } else if d == 8 {
        "8"
    } else {
        "9"
    };
    proof {
        assert(r@ =~= seq![digit_char(d as int)]);
    }
    r
}

/// Parses a strict `YYYY-MM-DD` string.
pub fn date_from_str(s: &str) -> (r: Option<Date>)
    ensures
        r == date_of_str(s@),
{
    if s.unicode_len() != 10 {
        return None;
    }
    let c0 = s.get_char(0);
    let c1 = s.get_char(1);
    let c2 = s.get_char(2);
    let c3 = s.get_char(3);
    let c4 = s.get_char(4);
    let c5 = s.get_char(5);
    let c6 = s.get_char(6);
    let c7 = s.get_char(7);
    let c8 = s.get_char(8);
    let c9 = s.get_char(9);
    if c4 != '-' || c7 != '-' {
        return None;
    }
    if !char_is_digit(c0) || !char_is_digit(c1) || !char_is_digit(c2) || !char_is_digit(c3)
        || !char_is_digit(c5) || !char_is_digit(c6) || !char_is_digit(c8) || !char_is_digit(c9) {
        return None;
    }
    let y: u32 = char_digit(c0) * 1000 + char_digit(c1) * 100 + char_digit(c2) * 10 + char_digit(
        c3,
    );
    let m: u32 = char_digit(c5) * 10 + char_digit(c6);
    let dd: u32 = char_digit(c8) * 10 + char_digit(c9);
    let d = Date { year: y as i16, month: m as i8, day: dd as i8 };
    if date_is_wf(d.year, d.month, d.day) {
        Some(d)
    } else {
        None
    }
}

fn char_is_digit(c: char) -> (r: bool)
    ensures
        r == is_digit(c),
{
    c >= '0' && c <= '9'
}

fn char_digit(c: char) -> (r: u32)
    requires
        is_digit(c),
    ensures
        r as int == digit_val(c),
        r <= 9,
{
    c as u32 - '0' as u32
}

// --- scalar readers over looked-up fields ---

/// A string field's characters, when the field is present and a string.
pub open spec fn str_of_json(o: Option<JsonView>) -> Option<Seq<char>> {
    match o {
        Some(JsonView::Str(s)) => Some(s),
        _ => None,
    }
}

/// A number field's value, when present and a number.
pub open spec fn u64_of_json(o: Option<JsonView>) -> Option<u64> {
    match o {
        Some(JsonView::Int(n)) => Some(n),
        _ => None,
    }
}

/// A bool field's value, when present and a bool.
pub open spec fn bool_of_json(o: Option<JsonView>) -> Option<bool> {
    match o {
        Some(JsonView::Bool(b)) => Some(b),
        _ => None,
    }
}

/// An optional string field: null stands for nothing.
pub open spec fn opt_str_of_json(o: Option<JsonView>) -> Option<Option<Seq<char>>> {
    match o {
        Some(JsonView::Null) => Some(None),
        Some(JsonView::Str(s)) => Some(Some(s)),
        _ => None,
    }
}

/// The tree an optional string writes: the string, or null.
pub open spec fn opt_str_json(o: Option<Seq<char>>) -> JsonView {
    match o {
        Some(s) => JsonView::Str(s),
        None => JsonView::Null,
    }
}

/// An optional date field: null, or a strict date string.
pub open spec fn opt_date_of_json(o: Option<JsonView>) -> Option<Option<Date>> {
    match o {
        Some(JsonView::Null) => Some(None),
        Some(JsonView::Str(s)) => match date_of_str(s) {
            Some(d) => Some(Some(d)),
            None => None,
        },
        _ => None,
    }
}

/// The tree an optional date writes: its strict string, or null.
pub open spec fn opt_date_json(o: Option<Date>) -> JsonView {
    match o {
        Some(d) => JsonView::Str(date_str_of(d)),
        None => JsonView::Null,
    }
}

// --- string arrays (tags) ---

/// The tree a list of strings writes.
pub open spec fn strs_json(tags: Seq<Seq<char>>) -> Seq<JsonView> {
    tags.map_values(|t: Seq<char>| JsonView::Str(t))
}

/// The strings a tree array holds, when every item is a string.
pub open spec fn strs_of_json(items: Seq<JsonView>) -> Option<Seq<Seq<char>>>
    decreases items.len(),
{
    if items.len() == 0 {
        Some(Seq::empty())
    } else {
        match items[0] {
            JsonView::Str(s) => match strs_of_json(items.subrange(1, items.len() as int)) {
                Some(rest) => Some(seq![s] + rest),
                None => None,
            },
            _ => None,
        }
    }
}

/// Writing a list of strings and reading it back yields the same list.
pub proof fn lemma_strs_roundtrip(tags: Seq<Seq<char>>)
    ensures
        strs_of_json(strs_json(tags)) == Some(tags),
    decreases tags.len(),
{
    let items = strs_json(tags);
    if tags.len() == 0 {
        assert(Seq::<Seq<char>>::empty() =~= tags);
    } else {
        let t = tags.subrange(1, tags.len() as int);
        lemma_strs_roundtrip(t);
        assert(items.subrange(1, items.len() as int) =~= strs_json(t));
        assert(seq![tags[0]] + t =~= tags);
    }
}

// --- the scheduling state ---

/// The tree a scheduling state writes: a tagged object.
pub open spec fn when_json(w: When) -> JsonView {
    match w {
        When::Inbox => JsonView::Obj(seq![("type"@, JsonView::Str("Inbox"@))]),
        When::Today { evening } => JsonView::Obj(
            seq![("type"@, JsonView::Str("Today"@)), ("evening"@, JsonView::Bool(evening))],
        ),
        When::Someday => JsonView::Obj(seq![("type"@, JsonView::Str("Someday"@))]),
        When::Anytime => JsonView::Obj(seq![("type"@, JsonView::Str("Anytime"@))]),
        When::Scheduled { date } => JsonView::Obj(
            seq![
                ("type"@, JsonView::Str("Scheduled"@)),
                ("date"@, JsonView::Str(date_str_of(date))),
            ],
        ),
    }
}

/// The scheduling state a tree denotes, when it is a well-formed tagged
/// object.
pub open spec fn when_of_json(o: Option<JsonView>) -> Option<When> {
    match o {
        Some(JsonView::Obj(fields)) => {
            match str_of_json(obj_get(fields, "type"@)) {
                Some(tag) => {
                    if tag == "Inbox"@ {
                        Some(When::Inbox)
                    } else if tag == "Today"@ {
                        match bool_of_json(obj_get(fields, "evening"@)) {
                            Some(evening) => Some(When::Today { evening }),
                            None => None,
                        }
                    } else if tag == "Someday"@ {
                        Some(When::Someday)
                    } else if tag == "Anytime"@ {
                        Some(When::Anytime)
                    } else if tag == "Scheduled"@ {
                        match str_of_json(obj_get(fields, "date"@)) {
                            Some(ds) => match date_of_str(ds) {
                                Some(d) => Some(When::Scheduled { date: d }),
                                None => None,
                            },
                            None => None,
                        }
                    } else {
                        None
                    }
                },
                None => None,
            }
        },
        _ => None,
    }
}

/// Whether a scheduling state only holds a representable date.
pub open spec fn when_wf(w: When) -> bool {
    w matches When::Scheduled { date } ==> date.wf()
}

/// Writing a scheduling state and reading it back yields the same state.
pub proof fn lemma_when_roundtrip(w: When)
    requires
        when_wf(w),
    ensures
        when_of_json(Some(when_json(w))) == Some(w),
{
    lemma_key_literals();
    match w {
        When::Inbox => {
            let fields = seq![("type"@, JsonView::Str("Inbox"@))];
            crate::json::lemma_obj_get_at(fields, 0);
        },
        When::Today { evening } => {
            let fields = seq![
                ("type"@, JsonView::Str("Today"@)),
                ("evening"@, JsonView::Bool(evening)),
            ];
            crate::json::lemma_obj_get_at(fields, 0);
            crate::json::lemma_obj_get_at(fields, 1);
        },
        When::Someday => {
            let fields = seq![("type"@, JsonView::Str("Someday"@))];
            crate::json::lemma_obj_get_at(fields, 0);
        },
        When::Anytime => {
            let fields = seq![("type"@, JsonView::Str("Anytime"@))];
            crate::json::lemma_obj_get_at(fields, 0);
        },
        When::Scheduled { date } => {
            let fields = seq![
                ("type"@, JsonView::Str("Scheduled"@)),
                ("date"@, JsonView::Str(date_str_of(date))),
            ];
            crate::json::lemma_obj_get_at(fields, 0);
            crate::json::lemma_obj_get_at(fields, 1);
            lemma_date_roundtrip(date);
        },
    }
}

// --- checklist items ---

/// The tree a checklist item writes.
pub open spec fn checklist_item_json(c: ChecklistItemView) -> JsonView {
    JsonView::Obj(
        seq![
            ("id"@, JsonView::Str(c.id)),
            ("title"@, JsonView::Str(c.title)),
            ("completed"@, JsonView::Bool(c.completed)),
        ],
    )
}

/// The checklist item a tree denotes.
pub open spec fn checklist_item_of_json(v: JsonView) -> Option<ChecklistItemView> {
    match v {
        JsonView::Obj(fields) => {
            let id = str_of_json(obj_get(fields, "id"@));
            let title = str_of_json(obj_get(fields, "title"@));
            let completed = bool_of_json(obj_get(fields, "completed"@));
            if id is Some && title is Some && completed is Some {
                Some(ChecklistItemView { id: id->0, title: title->0, completed: completed->0 })
            } else {
                None
            }
        },
        _ => None,
    }
}

/// The trees a checklist writes.
pub open spec fn checklist_json(cs: Seq<ChecklistItemView>) -> Seq<JsonView> {
    cs.map_values(|c: ChecklistItemView| checklist_item_json(c))
}

/// The checklist a tree array denotes, when every item does.
pub open spec fn checklist_of_json(items: Seq<JsonView>) -> Option<Seq<ChecklistItemView>>
    decreases items.len(),
{
    if items.len() == 0 {
        Some(Seq::empty())
    } else {
        match checklist_item_of_json(items[0]) {
            Some(c) => match checklist_of_json(items.subrange(1, items.len() as int)) {
                Some(rest) => Some(seq![c] + rest),
                None => None,
            },
            None => None,
        }
    }
}

/// Writing one checklist item and reading it back yields the same item.
pub proof fn lemma_checklist_item_roundtrip(c: ChecklistItemView)
    ensures
        checklist_item_of_json(checklist_item_json(c)) == Some(c),
{
    lemma_key_literals();
    let fields = seq![
        ("id"@, JsonView::Str(c.id)),
        ("title"@, JsonView::Str(c.title)),
        ("completed"@, JsonView::Bool(c.completed)),
    ];
    crate::json::lemma_obj_get_at(fields, 0);
    crate::json::lemma_obj_get_at(fields, 1);
    crate::json::lemma_obj_get_at(fields, 2);
}

/// Writing a checklist and reading it back yields the same checklist.
pub proof fn lemma_checklist_roundtrip(cs: Seq<ChecklistItemView>)
    ensures
        checklist_of_json(checklist_json(cs)) == Some(cs),
    decreases cs.len(),
{
    let items = checklist_json(cs);
    if cs.len() == 0 {
        assert(Seq::<ChecklistItemView>::empty() =~= cs);
    } else {
        let t = cs.subrange(1, cs.len() as int);
        lemma_checklist_item_roundtrip(cs[0]);
        lemma_checklist_roundtrip(t);
        assert(items.subrange(1, items.len() as int) =~= checklist_json(t));
        assert(seq![cs[0]] + t =~= cs);
    }
}

// --- tasks ---

/// The field list a task writes.
pub open spec fn task_fields(t: TaskView) -> Seq<(Seq<char>, JsonView)> {
    seq![
        ("id"@, JsonView::Str(t.id)),
        ("task_number"@, JsonView::Int(t.task_number)),
        ("title"@, JsonView::Str(t.title)),
        ("notes"@, opt_str_json(t.notes)),
        ("project_id"@, opt_str_json(t.project_id)),
        ("area_id"@, opt_str_json(t.area_id)),
        ("tags"@, JsonView::Arr(strs_json(t.tags))),
        ("when"@, when_json(t.when)),
        ("deadline"@, opt_date_json(t.deadline)),
        ("defer_until"@, opt_date_json(t.defer_until)),
        ("checklist"@, JsonView::Arr(checklist_json(t.checklist))),
        ("completed_at"@, opt_str_json(t.completed_at)),
        ("deleted_at"@, opt_str_json(t.deleted_at)),
        ("created_at"@, JsonView::Str(t.created_at)),
    ]
}

/// The tree a task writes.
pub open spec fn task_json(t: TaskView) -> JsonView {
    JsonView::Obj(task_fields(t))
}

/// The task a tree denotes, when every field is present and well formed.
pub open spec fn task_of_json(v: JsonView) -> Option<TaskView> {
    match v {
        JsonView::Obj(fields) => {
            let id = str_of_json(obj_get(fields, "id"@));
            let task_number = u64_of_json(obj_get(fields, "task_number"@));
            let title = str_of_json(obj_get(fields, "title"@));
            let notes = opt_str_of_json(obj_get(fields, "notes"@));
            let project_id = opt_str_of_json(obj_get(fields, "project_id"@));
            let area_id = opt_str_of_json(obj_get(fields, "area_id"@));
            let tags = match obj_get(fields, "tags"@) {
                Some(JsonView::Arr(items)) => strs_of_json(items),
                _ => None,
            };
            let when = when_of_json(obj_get(fields, "when"@));
            let deadline = opt_date_of_json(obj_get(fields, "deadline"@));
            let defer_until = opt_date_of_json(obj_get(fields, "defer_until"@));
            let checklist = match obj_get(fields, "checklist"@) {
                Some(JsonView::Arr(items)) => checklist_of_json(items),
                _ => None,
            };
            let completed_at = opt_str_of_json(obj_get(fields, "completed_at"@));
            let deleted_at = opt_str_of_json(obj_get(fields, "deleted_at"@));
            let created_at = str_of_json(obj_get(fields, "created_at"@));
            if id is Some && task_number is Some && title is Some && notes is Some && project_id
                is Some && area_id is Some && tags is Some && when is Some && deadline is Some
                && defer_until is Some && checklist is Some && completed_at is Some && deleted_at
                is Some && created_at is Some {
                Some(
                    TaskView {
                        id: id->0,
                        task_number: task_number->0,
                        title: title->0,
                        notes: notes->0,
                        project_id: project_id->0,
                        area_id: area_id->0,
                        tags: tags->0,
                        when: when->0,
                        deadline: deadline->0,
                        defer_until: defer_until->0,
                        checklist: checklist->0,
                        completed_at: completed_at->0,
                        deleted_at: deleted_at->0,
                        created_at: created_at->0,
                    },
                )
            } else {
                None
            }
        },
        _ => None,
    }
}

/// A task whose dates the document form can carry.
pub open spec fn task_view_wf(t: TaskView) -> bool {
    &&& when_wf(t.when)
    &&& (t.deadline matches Some(d) ==> d.wf())
    &&& (t.defer_until matches Some(d) ==> d.wf())
}

/// Writing a task and reading it back yields the same task.
pub proof fn lemma_task_roundtrip(t: TaskView)
    requires
        task_view_wf(t),
    ensures
        task_of_json(task_json(t)) == Some(t),
{
    lemma_key_literals();
    let fields = task_fields(t);
    crate::json::lemma_obj_get_at(fields, 0);
    crate::json::lemma_obj_get_at(fields, 1);
    crate::json::lemma_obj_get_at(fields, 2);
    crate::json::lemma_obj_get_at(fields, 3);
    crate::json::lemma_obj_get_at(fields, 4);
    crate::json::lemma_obj_get_at(fields, 5);
    crate::json::lemma_obj_get_at(fields, 6);
    crate::json::lemma_obj_get_at(fields, 7);
    crate::json::lemma_obj_get_at(fields, 8);
    crate::json::lemma_obj_get_at(fields, 9);
    crate::json::lemma_obj_get_at(fields, 10);
    crate::json::lemma_obj_get_at(fields, 11);
    crate::json::lemma_obj_get_at(fields, 12);
    crate::json::lemma_obj_get_at(fields, 13);
    lemma_strs_roundtrip(t.tags);
    lemma_when_roundtrip(t.when);
    lemma_checklist_roundtrip(t.checklist);
    match t.deadline {
        Some(d) => lemma_date_roundtrip(d),
        None => {},
    }
    match t.defer_until {
        Some(d) => lemma_date_roundtrip(d),
        None => {},
    }
    assert(task_of_json(task_json(t))->0 =~= t);
}

// --- projects ---

/// The field list a project writes.
pub open spec fn project_fields(p: ProjectView) -> Seq<(Seq<char>, JsonView)> {
    seq![
        ("id"@, JsonView::Str(p.id)),
        ("name"@, JsonView::Str(p.name)),
        ("slug"@, JsonView::Str(p.slug)),
        ("area_id"@, opt_str_json(p.area_id)),
        ("notes"@, opt_str_json(p.notes)),
        ("deadline"@, opt_date_json(p.deadline)),
        ("completed_at"@, opt_str_json(p.completed_at)),
        ("deleted_at"@, opt_str_json(p.deleted_at)),
        ("created_at"@, JsonView::Str(p.created_at)),
    ]
}

/// The tree a project writes.
pub open spec fn project_json(p: ProjectView) -> JsonView {
    JsonView::Obj(project_fields(p))
}

/// The project a tree denotes.
pub open spec fn project_of_json(v: JsonView) -> Option<ProjectView> {
    match v {
        JsonView::Obj(fields) => {
            let id = str_of_json(obj_get(fields, "id"@));
            let name = str_of_json(obj_get(fields, "name"@));
            let slug = str_of_json(obj_get(fields, "slug"@));
            let area_id = opt_str_of_json(obj_get(fields, "area_id"@));
            let notes = opt_str_of_json(obj_get(fields, "notes"@));
            let deadline = opt_date_of_json(obj_get(fields, "deadline"@));
            let completed_at = opt_str_of_json(obj_get(fields, "completed_at"@));
            let deleted_at = opt_str_of_json(obj_get(fields, "deleted_at"@));
            let created_at = str_of_json(obj_get(fields, "created_at"@));
            if id is Some && name is Some && slug is Some && area_id is Some && notes is Some
                && deadline is Some && completed_at is Some && deleted_at is Some && created_at
                is Some {
                Some(
                    ProjectView {
                        id: id->0,
                        name: name->0,
                        slug: slug->0,
                        area_id: area_id->0,
                        notes: notes->0,
                        deadline: deadline->0,
                        completed_at: completed_at->0,
                        deleted_at: deleted_at->0,
                        created_at: created_at->0,
                    },
                )
            } else {
                None
            }
        },
        _ => None,
    }
}

/// A project whose deadline the document form can carry.
pub open spec fn project_view_wf(p: ProjectView) -> bool {
    p.deadline matches Some(d) ==> d.wf()
}

/// Writing a project and reading it back yields the same project.
pub proof fn lemma_project_roundtrip(p: ProjectView)
    requires
        project_view_wf(p),
    ensures
        project_of_json(project_json(p)) == Some(p),
{
    lemma_key_literals();
    let fields = project_fields(p);
    crate::json::lemma_obj_get_at(fields, 0);
    crate::json::lemma_obj_get_at(fields, 1);
    crate::json::lemma_obj_get_at(fields, 2);
    crate::json::lemma_obj_get_at(fields, 3);
    crate::json::lemma_obj_get_at(fields, 4);
    crate::json::lemma_obj_get_at(fields, 5);
    crate::json::lemma_obj_get_at(fields, 6);
    crate::json::lemma_obj_get_at(fields, 7);
    crate::json::lemma_obj_get_at(fields, 8);
    match p.deadline {
        Some(d) => lemma_date_roundtrip(d),
        None => {},
    }
    assert(project_of_json(project_json(p))->0 =~= p);
}

// --- areas ---

/// The field list an area writes.
pub open spec fn area_fields(a: AreaView) -> Seq<(Seq<char>, JsonView)> {
    seq![
        ("id"@, JsonView::Str(a.id)),
        ("name"@, JsonView::Str(a.name)),
        ("slug"@, JsonView::Str(a.slug)),
        ("deleted_at"@, opt_str_json(a.deleted_at)),
    ]
}

/// The tree an area writes.
pub open spec fn area_json(a: AreaView) -> JsonView {
    JsonView::Obj(area_fields(a))
}

/// The area a tree denotes.
pub open spec fn area_of_json(v: JsonView) -> Option<AreaView> {
    match v {
        JsonView::Obj(fields) => {
            let id = str_of_json(obj_get(fields, "id"@));
            let name = str_of_json(obj_get(fields, "name"@));
            let slug = str_of_json(obj_get(fields, "slug"@));
            let deleted_at = opt_str_of_json(obj_get(fields, "deleted_at"@));
            if id is Some && name is Some && slug is Some && deleted_at is Some {
                Some(
                    AreaView {
                        id: id->0,
                        name: name->0,
                        slug: slug->0,
                        deleted_at: deleted_at->0,
                    },
                )
            } else {
                None
            }
        },
        _ => None,
    }
}

/// Writing an area and reading it back yields the same area.
pub proof fn lemma_area_roundtrip(a: AreaView)
    ensures
        area_of_json(area_json(a)) == Some(a),
{
    lemma_key_literals();
    let fields = area_fields(a);
    crate::json::lemma_obj_get_at(fields, 0);
    crate::json::lemma_obj_get_at(fields, 1);
    crate::json::lemma_obj_get_at(fields, 2);
    crate::json::lemma_obj_get_at(fields, 3);
    assert(area_of_json(area_json(a))->0 =~= a);
}

// --- the whole store ---

/// The trees a task list writes.
pub open spec fn tasks_json(ts: Seq<TaskView>) -> Seq<JsonView> {
    ts.map_values(|t: TaskView| task_json(t))
}

/// The task list a tree array denotes, when every item does.
pub open spec fn tasks_of_json(items: Seq<JsonView>) -> Option<Seq<TaskView>>
    decreases items.len(),
{
    if items.len() == 0 {
        Some(Seq::empty())
    } else {
        match task_of_json(items[0]) {
            Some(t) => match tasks_of_json(items.subrange(1, items.len() as int)) {
                Some(rest) => Some(seq![t] + rest),
                None => None,
            },
            None => None,
        }
    }
}

/// The trees a project list writes.
pub open spec fn projects_json(ps: Seq<ProjectView>) -> Seq<JsonView> {
    ps.map_values(|p: ProjectView| project_json(p))
}

/// The project list a tree array denotes.
pub open spec fn projects_of_json(items: Seq<JsonView>) -> Option<Seq<ProjectView>>
    decreases items.len(),
{
    if items.len() == 0 {
        Some(Seq::empty())
    } else {
        match project_of_json(items[0]) {
            Some(p) => match projects_of_json(items.subrange(1, items.len() as int)) {
                Some(rest) => Some(seq![p] + rest),
                None => None,
            },
            None => None,
        }
    }
}

/// The trees an area list writes.
pub open spec fn areas_json(az: Seq<AreaView>) -> Seq<JsonView> {
    az.map_values(|a: AreaView| area_json(a))
}

/// The area list a tree array denotes.
pub open spec fn areas_of_json(items: Seq<JsonView>) -> Option<Seq<AreaView>>
    decreases items.len(),
{
    if items.len() == 0 {
        Some(Seq::empty())
    } else {
        match area_of_json(items[0]) {
            Some(a) => match areas_of_json(items.subrange(1, items.len() as int)) {
                Some(rest) => Some(seq![a] + rest),
                None => None,
            },
            None => None,
        }
    }
}

/// The field list the store writes.
pub open spec fn store_fields(s: StoreView) -> Seq<(Seq<char>, JsonView)> {
    seq![
        ("version"@, JsonView::Int(s.version as u64)),
        ("next_task_number"@, JsonView::Int(s.next_task_number)),
        ("tasks"@, JsonView::Arr(tasks_json(s.tasks))),
        ("projects"@, JsonView::Arr(projects_json(s.projects))),
        ("areas"@, JsonView::Arr(areas_json(s.areas))),
    ]
}

/// The one document tree the whole store writes.
pub open spec fn store_json(s: StoreView) -> JsonView {
    JsonView::Obj(store_fields(s))
}

/// The store a document tree denotes, when it is a complete store
/// document.
pub open spec fn store_of_json(v: JsonView) -> Option<StoreView> {
    match v {
        JsonView::Obj(fields) => {
            let version = u64_of_json(obj_get(fields, "version"@));
            let next = u64_of_json(obj_get(fields, "next_task_number"@));
            let tasks = match obj_get(fields, "tasks"@) {
                Some(JsonView::Arr(items)) => tasks_of_json(items),
                _ => None,
            };
            let projects = match obj_get(fields, "projects"@) {
                Some(JsonView::Arr(items)) => projects_of_json(items),
                _ => None,
            };
            let areas = match obj_get(fields, "areas"@) {
                Some(JsonView::Arr(items)) => areas_of_json(items),
                _ => None,
            };
            if version matches Some(vn) && vn <= u32::MAX && next is Some && tasks is Some
                && projects is Some && areas is Some {
                Some(
                    StoreView {
                        version: (version->0) as u32,
                        next_task_number: next->0,
                        tasks: tasks->0,
                        projects: projects->0,
                        areas: areas->0,
                    },
                )
            } else {
                None
            }
        },
        _ => None,
    }
}

/// A store whose dates the document form can carry.
pub open spec fn store_view_wf(s: StoreView) -> bool {
    &&& forall|i: int| 0 <= i < s.tasks.len() ==> task_view_wf(#[trigger] s.tasks[i])
    &&& forall|i: int| 0 <= i < s.projects.len() ==> project_view_wf(#[trigger] s.projects[i])
}

proof fn lemma_tasks_roundtrip(ts: Seq<TaskView>)
    requires
        forall|i: int| 0 <= i < ts.len() ==> task_view_wf(#[trigger] ts[i]),
    ensures
        tasks_of_json(tasks_json(ts)) == Some(ts),
    decreases ts.len(),
{
    let items = tasks_json(ts);
    if ts.len() == 0 {
        assert(Seq::<TaskView>::empty() =~= ts);
    } else {
        let t = ts.subrange(1, ts.len() as int);
        lemma_task_roundtrip(ts[0]);
        lemma_tasks_roundtrip(t);
        assert(items.subrange(1, items.len() as int) =~= tasks_json(t));
        assert(seq![ts[0]] + t =~= ts);
    }
}

proof fn lemma_projects_roundtrip(ps: Seq<ProjectView>)
    requires
        forall|i: int| 0 <= i < ps.len() ==> project_view_wf(#[trigger] ps[i]),
    ensures
        projects_of_json(projects_json(ps)) == Some(ps),
    decreases ps.len(),
{
    let items = projects_json(ps);
    if ps.len() == 0 {
        assert(Seq::<ProjectView>::empty() =~= ps);
    } else {
        let t = ps.subrange(1, ps.len() as int);
        lemma_project_roundtrip(ps[0]);
        lemma_projects_roundtrip(t);
        assert(items.subrange(1, items.len() as int) =~= projects_json(t));
        assert(seq![ps[0]] + t =~= ps);
    }
}

proof fn lemma_areas_roundtrip(az: Seq<AreaView>)
    ensures
        areas_of_json(areas_json(az)) == Some(az),
    decreases az.len(),
{
    let items = areas_json(az);
    if az.len() == 0 {
        assert(Seq::<AreaView>::empty() =~= az);
    } else {
        let t = az.subrange(1, az.len() as int);
        lemma_area_roundtrip(az[0]);
        lemma_areas_roundtrip(t);
        assert(items.subrange(1, items.len() as int) =~= areas_json(t));
        assert(seq![az[0]] + t =~= az);
    }
}

/// Law: saving a store and loading it back is the identity on the
/// working representation — the document written for a store reads back
/// as exactly that store, entity for entity and field for field.
pub proof fn lemma_store_roundtrip(s: StoreView)
    requires
        store_view_wf(s),
    ensures
        store_of_json(store_json(s)) == Some(s),
{
    lemma_key_literals();
    let fields = store_fields(s);
    crate::json::lemma_obj_get_at(fields, 0);
    crate::json::lemma_obj_get_at(fields, 1);
    crate::json::lemma_obj_get_at(fields, 2);
    crate::json::lemma_obj_get_at(fields, 3);
    crate::json::lemma_obj_get_at(fields, 4);
    lemma_tasks_roundtrip(s.tasks);
    lemma_projects_roundtrip(s.projects);
    lemma_areas_roundtrip(s.areas);
    assert(store_of_json(store_json(s))->0 =~= s);
}

// --- element lemmas for array decoding ---

/// Characterizes string-array decoding elementwise.
pub proof fn lemma_strs_elems(items: Seq<JsonView>)
    ensures
        strs_of_json(items) is Some <==> (forall|i: int|
            0 <= i < items.len() ==> (#[trigger] items[i]) is Str),
        strs_of_json(items) matches Some(out) ==> out.len() == items.len() && (forall|i: int|
            0 <= i < items.len() ==> #[trigger] out[i] == items[i]->Str_0),
    decreases items.len(),
{
    if items.len() > 0 {
        let t = items.subrange(1, items.len() as int);
        lemma_strs_elems(t);
        assert(forall|i: int| 0 <= i < t.len() ==> #[trigger] t[i] == items[i + 1]);
        assert(forall|i: int| 1 <= i < items.len() ==> #[trigger] items[i] == t[i - 1]);
    }
}

/// Characterizes checklist-array decoding elementwise.
pub proof fn lemma_checklist_elems(items: Seq<JsonView>)
    ensures
        checklist_of_json(items) is Some <==> (forall|i: int|
            0 <= i < items.len() ==> checklist_item_of_json(#[trigger] items[i]) is Some),
        checklist_of_json(items) matches Some(out) ==> out.len() == items.len() && (forall|i: int|
            0 <= i < items.len() ==> #[trigger] out[i] == checklist_item_of_json(items[i])->0),
    decreases items.len(),
{
    if items.len() > 0 {
        let t = items.subrange(1, items.len() as int);
        lemma_checklist_elems(t);
        assert(forall|i: int| 0 <= i < t.len() ==> #[trigger] t[i] == items[i + 1]);
        assert(forall|i: int| 1 <= i < items.len() ==> #[trigger] items[i] == t[i - 1]);
    }
}

/// Characterizes task-array decoding elementwise.
pub proof fn lemma_tasks_elems(items: Seq<JsonView>)
    ensures
        tasks_of_json(items) is Some <==> (forall|i: int|
            0 <= i < items.len() ==> task_of_json(#[trigger] items[i]) is Some),
        tasks_of_json(items) matches Some(out) ==> out.len() == items.len() && (forall|i: int|
            0 <= i < items.len() ==> #[trigger] out[i] == task_of_json(items[i])->0),
    decreases items.len(),
{
    if items.len() > 0 {
        let t = items.subrange(1, items.len() as int);
        lemma_tasks_elems(t);
        assert(forall|i: int| 0 <= i < t.len() ==> #[trigger] t[i] == items[i + 1]);
        assert(forall|i: int| 1 <= i < items.len() ==> #[trigger] items[i] == t[i - 1]);
    }
}

/// Characterizes project-array decoding elementwise.
pub proof fn lemma_projects_elems(items: Seq<JsonView>)
    ensures
        projects_of_json(items) is Some <==> (forall|i: int|
            0 <= i < items.len() ==> project_of_json(#[trigger] items[i]) is Some),
        projects_of_json(items) matches Some(out) ==> out.len() == items.len() && (forall|i: int|
            0 <= i < items.len() ==> #[trigger] out[i] == project_of_json(items[i])->0),
    decreases items.len(),
{
    if items.len() > 0 {
        let t = items.subrange(1, items.len() as int);
        lemma_projects_elems(t);
        assert(forall|i: int| 0 <= i < t.len() ==> #[trigger] t[i] == items[i + 1]);
        assert(forall|i: int| 1 <= i < items.len() ==> #[trigger] items[i] == t[i - 1]);
    }
}

/// Characterizes area-array decoding elementwise.
pub proof fn lemma_areas_elems(items: Seq<JsonView>)
    ensures
        areas_of_json(items) is Some <==> (forall|i: int|
            0 <= i < items.len() ==> area_of_json(#[trigger] items[i]) is Some),
        areas_of_json(items) matches Some(out) ==> out.len() == items.len() && (forall|i: int|
            0 <= i < items.len() ==> #[trigger] out[i] == area_of_json(items[i])->0),
    decreases items.len(),
{
    if items.len() > 0 {
        let t = items.subrange(1, items.len() as int);
        lemma_areas_elems(t);
        assert(forall|i: int| 0 <= i < t.len() ==> #[trigger] t[i] == items[i + 1]);
        assert(forall|i: int| 1 <= i < items.len() ==> #[trigger] items[i] == t[i - 1]);
    }
}

// --- executable encoding ---

fn encode_opt_str(o: &Option<String>) -> (r: JsonValue)
    ensures
        r@ == opt_str_json(o.deep_view()),
{
    match o {
        Some(s) => JsonValue::Str(s.clone()),
        None => JsonValue::Null,
    }
}

fn encode_opt_date(o: &Option<Date>) -> (r: JsonValue)
    requires
        o matches Some(d) ==> d.wf(),
    ensures
        r@ == opt_date_json(*o),
{
    match o {
        Some(d) => JsonValue::Str(date_to_string(d)),
        None => JsonValue::Null,
    }
}

fn encode_strs(v: &Vec<String>) -> (r: JsonValue)
    ensures
        r@ == JsonView::Arr(strs_json(v.deep_view())),
{
    let mut out: Vec<JsonValue> = Vec::new();
    let n = v.len();
    let mut i: usize = 0;
    while i < n
        invariant
            i <= n,
            n == v.len(),
            out@.len() == i,
            forall|k: int| 0 <= k < i ==> (#[trigger] out@[k])@ == JsonView::Str(v.deep_view()[k]),
        decreases n - i,
    {
        out.push(JsonValue::Str(v[i].clone()));
        i += 1;
    }
    let r = JsonValue::Arr(out);
    proof {
        crate::json::lemma_arr_view(out@);
        assert(arr_view(out@) =~= strs_json(v.deep_view()));
    }
    r
}

fn encode_when(w: &When) -> (r: JsonValue)
    requires
        when_wf(*w),
    ensures
        r@ == when_json(*w),
{
    let mut fields: Vec<(String, JsonValue)> = Vec::new();
    match w {
        When::Inbox => {
            fields.push(("type".to_owned(), JsonValue::Str("Inbox".to_owned())));
        },
        When::Today { evening } => {
            fields.push(("type".to_owned(), JsonValue::Str("Today".to_owned())));
            fields.push(("evening".to_owned(), JsonValue::Bool(*evening)));
        },
        When::Someday => {
            fields.push(("type".to_owned(), JsonValue::Str("Someday".to_owned())));
        },
        When::Anytime => {
            fields.push(("type".to_owned(), JsonValue::Str("Anytime".to_owned())));
        },
        When::Scheduled { date } => {
            fields.push(("type".to_owned(), JsonValue::Str("Scheduled".to_owned())));
            fields.push(("date".to_owned(), JsonValue::Str(date_to_string(date))));
        },
    }
    let r = JsonValue::Obj(fields);
    proof {
        crate::json::lemma_fields_view(fields@);
        assert(fields_view(fields@) =~= (match when_json(*w) {
            JsonView::Obj(fs) => fs,
            _ => Seq::empty(),
        }));
    }
    r
}

fn encode_checklist(v: &Vec<ChecklistItem>) -> (r: JsonValue)
    ensures
        r@ == JsonView::Arr(checklist_json(v.deep_view())),
{
    let mut out: Vec<JsonValue> = Vec::new();
    let n = v.len();
    let mut i: usize = 0;
    while i < n
        invariant
            i <= n,
            n == v.len(),
            out@.len() == i,
            forall|k: int|
                0 <= k < i ==> (#[trigger] out@[k])@ == checklist_item_json(v.deep_view()[k]),
        decreases n - i,
    {
        let c = &v[i];
        let mut fields: Vec<(String, JsonValue)> = Vec::new();
        fields.push(("id".to_owned(), JsonValue::Str(c.id.clone())));
        fields.push(("title".to_owned(), JsonValue::Str(c.title.clone())));
        fields.push(("completed".to_owned(), JsonValue::Bool(c.completed)));
        let item = JsonValue::Obj(fields);
        proof {
            crate::json::lemma_fields_view(fields@);
            assert(fields_view(fields@) =~= (match checklist_item_json(v.deep_view()[i as int]) {
                JsonView::Obj(fs) => fs,
                _ => Seq::empty(),
            }));
        }
        out.push(item);
        i += 1;
    }
    let r = JsonValue::Arr(out);
    proof {
        crate::json::lemma_arr_view(out@);
        assert(arr_view(out@) =~= checklist_json(v.deep_view()));
    }
    r
}

/// Writes one task as its document tree.
pub fn encode_task(t: &Task) -> (r: JsonValue)
    requires
        task_view_wf(t@),
    ensures
        r@ == task_json(t@),
{
    let mut fields: Vec<(String, JsonValue)> = Vec::new();
    fields.push(("id".to_owned(), JsonValue::Str(t.id.clone())));
    fields.push(("task_number".to_owned(), JsonValue::Int(t.task_number)));
    fields.push(("title".to_owned(), JsonValue::Str(t.title.clone())));
    fields.push(("notes".to_owned(), encode_opt_str(&t.notes)));
    fields.push(("project_id".to_owned(), encode_opt_str(&t.project_id)));
    fields.push(("area_id".to_owned(), encode_opt_str(&t.area_id)));
    fields.push(("tags".to_owned(), encode_strs(&t.tags)));
    fields.push(("when".to_owned(), encode_when(&t.when)));
    fields.push(("deadline".to_owned(), encode_opt_date(&t.deadline)));
    fields.push(("defer_until".to_owned(), encode_opt_date(&t.defer_until)));
    fields.push(("checklist".to_owned(), encode_checklist(&t.checklist)));
    fields.push(("completed_at".to_owned(), encode_opt_str(&t.completed_at)));
    fields.push(("deleted_at".to_owned(), encode_opt_str(&t.deleted_at)));
    fields.push(("created_at".to_owned(), JsonValue::Str(t.created_at.clone())));
    let r = JsonValue::Obj(fields);
    proof {
        crate::json::lemma_fields_view(fields@);
        assert(fields_view(fields@) =~= task_fields(t@));
    }
    r
}

/// Writes one project as its document tree.
pub fn encode_project(p: &Project) -> (r: JsonValue)
    requires
        project_view_wf(p@),
    ensures
        r@ == project_json(p@),
{
    let mut fields: Vec<(String, JsonValue)> = Vec::new();
    fields.push(("id".to_owned(), JsonValue::Str(p.id.clone())));
    fields.push(("name".to_owned(), JsonValue::Str(p.name.clone())));
    fields.push(("slug".to_owned(), JsonValue::Str(p.slug.clone())));
    fields.push(("area_id".to_owned(), encode_opt_str(&p.area_id)));
    fields.push(("notes".to_owned(), encode_opt_str(&p.notes)));
    fields.push(("deadline".to_owned(), encode_opt_date(&p.deadline)));
    fields.push(("completed_at".to_owned(), encode_opt_str(&p.completed_at)));
    fields.push(("deleted_at".to_owned(), encode_opt_str(&p.deleted_at)));
    fields.push(("created_at".to_owned(), JsonValue::Str(p.created_at.clone())));
    let r = JsonValue::Obj(fields);
    proof {
        crate::json::lemma_fields_view(fields@);
        assert(fields_view(fields@) =~= project_fields(p@));
    }
    r
}

/// Writes one area as its document tree.
pub fn encode_area(a: &Area) -> (r: JsonValue)
    ensures
        r@ == area_json(a@),
{
    let mut fields: Vec<(String, JsonValue)> = Vec::new();
    fields.push(("id".to_owned(), JsonValue::Str(a.id.clone())));
    fields.push(("name".to_owned(), JsonValue::Str(a.name.clone())));
    fields.push(("slug".to_owned(), JsonValue::Str(a.slug.clone())));
    fields.push(("deleted_at".to_owned(), encode_opt_str(&a.deleted_at)));
    let r = JsonValue::Obj(fields);
    proof {
        crate::json::lemma_fields_view(fields@);
        assert(fields_view(fields@) =~= area_fields(a@));
    }
    r
}

/// Writes the whole store as one document tree.
pub fn encode_store(store: &Store) -> (r: JsonValue)
    requires
        store_view_wf(store@),
    ensures
        r@ == store_json(store@),
{
    let mut tasks: Vec<JsonValue> = Vec::new();
    let nt = store.tasks.len();
    let mut i: usize = 0;
    while i < nt
        invariant
            i <= nt,
            nt == store.tasks.len(),
            store_view_wf(store@),
            tasks@.len() == i,
            forall|k: int| 0 <= k < i ==> (#[trigger] tasks@[k])@ == task_json(store@.tasks[k]),
        decreases nt - i,
    {
        proof {
            assert(task_view_wf(store@.tasks[i as int]));
        }
        tasks.push(encode_task(&store.tasks[i]));
        i += 1;
    }
    let mut projects: Vec<JsonValue> = Vec::new();
    let np = store.projects.len();
    let mut j: usize = 0;
    while j < np
        invariant
            j <= np,
            np == store.projects.len(),
            store_view_wf(store@),
            projects@.len() == j,
            forall|k: int|
                0 <= k < j ==> (#[trigger] projects@[k])@ == project_json(store@.projects[k]),
        decreases np - j,
    {
        proof {
            assert(project_view_wf(store@.projects[j as int]));
        }
        projects.push(encode_project(&store.projects[j]));
        j += 1;
    }
    let mut areas: Vec<JsonValue> = Vec::new();
    let na = store.areas.len();
    let mut k: usize = 0;
    while k < na
        invariant
            k <= na,
            na == store.areas.len(),
            areas@.len() == k,
            forall|x: int| 0 <= x < k ==> (#[trigger] areas@[x])@ == area_json(store@.areas[x]),
        decreases na - k,
    {
        areas.push(encode_area(&store.areas[k]));
        k += 1;
    }
    let mut fields: Vec<(String, JsonValue)> = Vec::new();
    fields.push(("version".to_owned(), JsonValue::Int(store.version as u64)));
    fields.push(("next_task_number".to_owned(), JsonValue::Int(store.next_task_number)));
    let ghost tasks_snap = tasks@;
    let ghost projects_snap = projects@;
    let ghost areas_snap = areas@;
    fields.push(("tasks".to_owned(), JsonValue::Arr(tasks)));
    fields.push(("projects".to_owned(), JsonValue::Arr(projects)));
    fields.push(("areas".to_owned(), JsonValue::Arr(areas)));
    let r = JsonValue::Obj(fields);
    proof {
        crate::json::lemma_fields_view(fields@);
        crate::json::lemma_arr_view(tasks_snap);
        crate::json::lemma_arr_view(projects_snap);
        crate::json::lemma_arr_view(areas_snap);
        assert(arr_view(tasks_snap) =~= tasks_json(store@.tasks));
        assert(arr_view(projects_snap) =~= projects_json(store@.projects));
        assert(arr_view(areas_snap) =~= areas_json(store@.areas));
        assert(fields_view(fields@) =~= store_fields(store@));
    }
    r
}

// --- executable decoding ---

/// The field a key names, in an object tree.
pub open spec fn obj_field(v: JsonView, key: Seq<char>) -> Option<JsonView> {
    match v {
        JsonView::Obj(fields) => obj_get(fields, key),
        _ => None,
    }
}

fn get_string(v: &JsonValue, key: &str) -> (r: Option<String>)
    ensures
        ({
            let c = str_of_json(obj_field(v@, key@));
            &&& (r is Some <==> c is Some)
            &&& (r matches Some(s) ==> s@ == c->0)
        }),
{
    match v.get(key) {
        Some(JsonValue::Str(s)) => Some(s.clone()),
        _ => None,
    }
}

fn get_u64(v: &JsonValue, key: &str) -> (r: Option<u64>)
    ensures
        r == u64_of_json(obj_field(v@, key@)),
{
    match v.get(key) {
        Some(JsonValue::Int(n)) => Some(*n),
        _ => None,
    }
}

fn get_opt_string(v: &JsonValue, key: &str) -> (r: Option<Option<String>>)
    ensures
        ({
            let c = opt_str_of_json(obj_field(v@, key@));
            &&& (r is Some <==> c is Some)
            &&& (r matches Some(o) ==> o.deep_view() == c->0)
        }),
{
    match v.get(key) {
        Some(JsonValue::Null) => Some(None),
        Some(JsonValue::Str(s)) => Some(Some(s.clone())),
        _ => None,
    }
}

fn get_opt_date(v: &JsonValue, key: &str) -> (r: Option<Option<Date>>)
    ensures
        r == opt_date_of_json(obj_field(v@, key@)),
{
    match v.get(key) {
        Some(JsonValue::Null) => Some(None),
        Some(JsonValue::Str(s)) => match date_from_str(s.as_str()) {
            Some(d) => Some(Some(d)),
            None => None,
        },
        _ => None,
    }
}

fn decode_strs(items: &Vec<JsonValue>) -> (r: Option<Vec<String>>)
    ensures
        ({
            let c = strs_of_json(arr_view(items@));
            &&& (r is Some <==> c is Some)
            &&& (r matches Some(out) ==> out.deep_view() == c->0)
        }),
{
    proof {
        crate::json::lemma_arr_view(items@);
    }
    let mut out: Vec<String> = Vec::new();
    let n = items.len();
    let mut i: usize = 0;
    while i < n
        invariant
            i <= n,
            n == items.len(),
            out@.len() == i,
            forall|k: int|
                0 <= k < n ==> #[trigger] arr_view(items@)[k] == json_view(items@[k]),
            arr_view(items@).len() == n,
            forall|k: int| 0 <= k < i ==> arr_view(items@)[k] is Str,
            forall|k: int|
                0 <= k < i ==> (#[trigger] out@[k])@ == arr_view(items@)[k]->Str_0,
        decreases n - i,
    {
        match &items[i] {
            JsonValue::Str(s) => {
                out.push(s.clone());
            },
            _ => {
                proof {
                    assert(!(arr_view(items@)[i as int] is Str));
                    lemma_strs_elems(arr_view(items@));
                    assert(strs_of_json(arr_view(items@)) is None);
                }
                return None;
            },
        }
        i += 1;
    }
    proof {
        lemma_strs_elems(arr_view(items@));
        assert(out.deep_view() =~= strs_of_json(arr_view(items@))->0);
    }
    Some(out)
}

fn decode_when(v: &JsonValue) -> (r: Option<When>)
    ensures
        r == when_of_json(Some(v@)),
{
    let tag = match get_string(v, "type") {
        Some(t) => t,
        None => {
            return None;
        },
    };
    if crate::text::str_eq(tag.as_str(), "Inbox") {
        Some(When::Inbox)
    } else if crate::text::str_eq(tag.as_str(), "Today") {
        match v.get("evening") {
            Some(JsonValue::Bool(b)) => Some(When::Today { evening: *b }),
            _ => None,
        }
    } else if crate::text::str_eq(tag.as_str(), "Someday") {
        Some(When::Someday)
    } else if crate::text::str_eq(tag.as_str(), "Anytime") {
        Some(When::Anytime)
    } else if crate::text::str_eq(tag.as_str(), "Scheduled") {
        match get_string(v, "date") {
            Some(ds) => match date_from_str(ds.as_str()) {
                Some(d) => Some(When::Scheduled { date: d }),
                None => None,
            },
            None => None,
        }
    } else {
        None
    }
}

fn decode_checklist(items: &Vec<JsonValue>) -> (r: Option<Vec<ChecklistItem>>)
    ensures
        ({
            let c = checklist_of_json(arr_view(items@));
            &&& (r is Some <==> c is Some)
            &&& (r matches Some(out) ==> out.deep_view() == c->0)
        }),
{
    proof {
        crate::json::lemma_arr_view(items@);
    }
    let mut out: Vec<ChecklistItem> = Vec::new();
    let n = items.len();
    let mut i: usize = 0;
    while i < n
        invariant
            i <= n,
            n == items.len(),
            out@.len() == i,
            forall|k: int|
                0 <= k < n ==> #[trigger] arr_view(items@)[k] == json_view(items@[k]),
            arr_view(items@).len() == n,
            forall|k: int|
                0 <= k < i ==> checklist_item_of_json(#[trigger] arr_view(items@)[k]) is Some,
            forall|k: int|
                0 <= k < i ==> (#[trigger] out@[k])@ == checklist_item_of_json(
                    arr_view(items@)[k],
                )->0,
        decreases n - i,
    {
        let item = &items[i];
        let id = get_string(item, "id");
        let title = get_string(item, "title");
        let completed = match item.get("completed") {
            Some(JsonValue::Bool(b)) => Some(*b),
            _ => None,
        };
        match (id, title, completed) {
            (Some(id), Some(title), Some(completed)) => {
                let c = ChecklistItem { id, title, completed };
                proof {
                    assert(c@ =~= checklist_item_of_json(arr_view(items@)[i as int])->0);
                }
                out.push(c);
            },
            _ => {
                proof {
                    lemma_checklist_elems(arr_view(items@));
                }
                return None;
            },
        }
        i += 1;
    }
    proof {
        lemma_checklist_elems(arr_view(items@));
        assert(out.deep_view() =~= checklist_of_json(arr_view(items@))->0);
    }
    Some(out)
}

/// Reads one task out of its document tree.
pub fn decode_task(v: &JsonValue) -> (r: Option<Task>)
    ensures
        ({
            let c = task_of_json(v@);
            &&& (r is Some <==> c is Some)
            &&& (r matches Some(t) ==> t@ == c->0)
        }),
{
    let id = get_string(v, "id");
    let task_number = get_u64(v, "task_number");
    let title = get_string(v, "title");
    let notes = get_opt_string(v, "notes");
    let project_id = get_opt_string(v, "project_id");
    let area_id = get_opt_string(v, "area_id");
    let tags = match v.get("tags") {
        Some(JsonValue::Arr(items)) => decode_strs(items),
        _ => None,
    };
    let when = match v.get("when") {
        Some(w) => decode_when(w),
        None => None,
    };
    let deadline = get_opt_date(v, "deadline");
    let defer_until = get_opt_date(v, "defer_until");
    let checklist = match v.get("checklist") {
        Some(JsonValue::Arr(items)) => decode_checklist(items),
        _ => None,
    };
    let completed_at = get_opt_string(v, "completed_at");
    let deleted_at = get_opt_string(v, "deleted_at");
    let created_at = get_string(v, "created_at");
    match (id, task_number, title, notes, project_id, area_id, tags, when, deadline, defer_until,
        checklist, completed_at, deleted_at, created_at) {
        (
            Some(id),
            Some(task_number),
            Some(title),
            Some(notes),
            Some(project_id),
            Some(area_id),
            Some(tags),
            Some(when),
            Some(deadline),
            Some(defer_until),
            Some(checklist),
            Some(completed_at),
            Some(deleted_at),
            Some(created_at),
        ) => {
            let t = Task {
                id,
                task_number,
                title,
                notes,
                project_id,
                area_id,
                tags,
                when,
                deadline,
                defer_until,
                checklist,
                completed_at,
                deleted_at,
                created_at,
            };
            proof {
                assert(t@ =~= task_of_json(v@)->0);
            }
            Some(t)
        },
        _ => None,
    }
}

/// Reads one project out of its document tree.
pub fn decode_project(v: &JsonValue) -> (r: Option<Project>)
    ensures
        ({
            let c = project_of_json(v@);
            &&& (r is Some <==> c is Some)
            &&& (r matches Some(p) ==> p@ == c->0)
        }),
{
    let id = get_string(v, "id");
    let name = get_string(v, "name");
    let slug = get_string(v, "slug");
    let area_id = get_opt_string(v, "area_id");
    let notes = get_opt_string(v, "notes");
    let deadline = get_opt_date(v, "deadline");
    let completed_at = get_opt_string(v, "completed_at");
    let deleted_at = get_opt_string(v, "deleted_at");
    let created_at = get_string(v, "created_at");
    match (id, name, slug, area_id, notes, deadline, completed_at, deleted_at, created_at) {
        (
            Some(id),
            Some(name),
            Some(slug),
            Some(area_id),
            Some(notes),
            Some(deadline),
            Some(completed_at),
            Some(deleted_at),
            Some(created_at),
        ) => {
            let p = Project {
                id,
                name,
                slug,
                area_id,
                notes,
                deadline,
                completed_at,
                deleted_at,
                created_at,
            };
            proof {
                assert(p@ =~= project_of_json(v@)->0);
            }
            Some(p)
        },
        _ => None,
    }
}

/// Reads one area out of its document tree.
pub fn decode_area(v: &JsonValue) -> (r: Option<Area>)
    ensures
        ({
            let c = area_of_json(v@);
            &&& (r is Some <==> c is Some)
            &&& (r matches Some(a) ==> a@ == c->0)
        }),
{
    let id = get_string(v, "id");
    let name = get_string(v, "name");
    let slug = get_string(v, "slug");
    let deleted_at = get_opt_string(v, "deleted_at");
    match (id, name, slug, deleted_at) {
        (Some(id), Some(name), Some(slug), Some(deleted_at)) => {
            let a = Area { id, name, slug, deleted_at };
            proof {
                assert(a@ =~= area_of_json(v@)->0);
            }
            Some(a)
        },
        _ => None,
    }
}

fn decode_tasks(items: &Vec<JsonValue>) -> (r: Option<Vec<Task>>)
    ensures
        ({
            let c = tasks_of_json(arr_view(items@));
            &&& (r is Some <==> c is Some)
            &&& (r matches Some(out) ==> out.deep_view() == c->0)
        }),
{
    proof {
        crate::json::lemma_arr_view(items@);
    }
    let mut out: Vec<Task> = Vec::new();
    let n = items.len();
    let mut i: usize = 0;
    while i < n
        invariant
            i <= n,
            n == items.len(),
            out@.len() == i,
            forall|k: int|
                0 <= k < n ==> #[trigger] arr_view(items@)[k] == json_view(items@[k]),
            arr_view(items@).len() == n,
            forall|k: int|
                0 <= k < i ==> task_of_json(#[trigger] arr_view(items@)[k]) is Some,
            forall|k: int|
                0 <= k < i ==> (#[trigger] out@[k])@ == task_of_json(arr_view(items@)[k])->0,
        decreases n - i,
    {
        match decode_task(&items[i]) {
            Some(t) => {
                out.push(t);
            },
            None => {
                proof {
                    assert(task_of_json(arr_view(items@)[i as int]) is None);
                    lemma_tasks_elems(arr_view(items@));
                    assert(tasks_of_json(arr_view(items@)) is None);
                }
                return None;
            },
        }
        i += 1;
    }
    proof {
        lemma_tasks_elems(arr_view(items@));
        assert(out.deep_view() =~= tasks_of_json(arr_view(items@))->0);
    }
    Some(out)
}

fn decode_projects(items: &Vec<JsonValue>) -> (r: Option<Vec<Project>>)
    ensures
        ({
            let c = projects_of_json(arr_view(items@));
            &&& (r is Some <==> c is Some)
            &&& (r matches Some(out) ==> out.deep_view() == c->0)
        }),
{
    proof {
        crate::json::lemma_arr_view(items@);
    }
    let mut out: Vec<Project> = Vec::new();
    let n = items.len();
    let mut i: usize = 0;
    while i < n
        invariant
            i <= n,
            n == items.len(),
            out@.len() == i,
            forall|k: int|
                0 <= k < n ==> #[trigger] arr_view(items@)[k] == json_view(items@[k]),
            arr_view(items@).len() == n,
            forall|k: int|
                0 <= k < i ==> project_of_json(#[trigger] arr_view(items@)[k]) is Some,
            forall|k: int|
                0 <= k < i ==> (#[trigger] out@[k])@ == project_of_json(arr_view(items@)[k])->0,
        decreases n - i,
    {
        match decode_project(&items[i]) {
            Some(p) => {
                out.push(p);
            },
            None => {
                proof {
                    assert(project_of_json(arr_view(items@)[i as int]) is None);
                    lemma_projects_elems(arr_view(items@));
                    assert(projects_of_json(arr_view(items@)) is None);
                }
                return None;
            },
        }
        i += 1;
    }
    proof {
        lemma_projects_elems(arr_view(items@));
        assert(out.deep_view() =~= projects_of_json(arr_view(items@))->0);
    }
    Some(out)
}

fn decode_areas(items: &Vec<JsonValue>) -> (r: Option<Vec<Area>>)
    ensures
        ({
            let c = areas_of_json(arr_view(items@));
            &&& (r is Some <==> c is Some)
            &&& (r matches Some(out) ==> out.deep_view() == c->0)
        }),
{
    proof {
        crate::json::lemma_arr_view(items@);
    }
    let mut out: Vec<Area> = Vec::new();
    let n = items.len();
    let mut i: usize = 0;
    while i < n
        invariant
            i <= n,
            n == items.len(),
            out@.len() == i,
            forall|k: int|
                0 <= k < n ==> #[trigger] arr_view(items@)[k] == json_view(items@[k]),
            arr_view(items@).len() == n,
            forall|k: int|
                0 <= k < i ==> area_of_json(#[trigger] arr_view(items@)[k]) is Some,
            forall|k: int|
                0 <= k < i ==> (#[trigger] out@[k])@ == area_of_json(arr_view(items@)[k])->0,
        decreases n - i,
    {
        match decode_area(&items[i]) {
            Some(a) => {
                out.push(a);
            },
            None => {
                proof {
                    assert(area_of_json(arr_view(items@)[i as int]) is None);
                    lemma_areas_elems(arr_view(items@));
                    assert(areas_of_json(arr_view(items@)) is None);
                }
                return None;
            },
        }
        i += 1;
    }
    proof {
        lemma_areas_elems(arr_view(items@));
        assert(out.deep_view() =~= areas_of_json(arr_view(items@))->0);
    }
    Some(out)
}

/// Reads the whole store out of one document tree.
pub fn decode_store(v: &JsonValue) -> (r: Option<Store>)
    ensures
        ({
            let c = store_of_json(v@);
            &&& (r is Some <==> c is Some)
            &&& (r matches Some(s) ==> s@ == c->0)
        }),
{
    let version = match get_u64(v, "version") {
        Some(n) => {
            if n <= u32::MAX as u64 {
                Some(n as u32)
            } else {
                None
            }
        },
        None => None,
    };
    let next = get_u64(v, "next_task_number");
    let tasks = match v.get("tasks") {
        Some(JsonValue::Arr(items)) => decode_tasks(items),
        _ => None,
    };
    let projects = match v.get("projects") {
        Some(JsonValue::Arr(items)) => decode_projects(items),
        _ => None,
    };
    let areas = match v.get("areas") {
        Some(JsonValue::Arr(items)) => decode_areas(items),
        _ => None,
    };
    match (version, next, tasks, projects, areas) {
        (Some(version), Some(next_task_number), Some(tasks), Some(projects), Some(areas)) => {
            let s = Store { version, next_task_number, tasks, projects, areas };
            proof {
                assert(s@ =~= store_of_json(v@)->0);
            }
            Some(s)
        },
        _ => None,
    }
}

} // verus!
