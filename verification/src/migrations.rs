use vstd::prelude::*;

use crate::ext;
use crate::json::{arr_view, fields_view, json_view, obj_get, obj_set, obj_set_field, JsonValue,
    JsonView};
use crate::codec::obj_field;
use crate::storage::StorageError;
use crate::store::CURRENT_VERSION;

verus! {

broadcast use vstd::std_specs::vec::group_vec_axioms;

/// The version a raw document claims: 1 when the field is absent, its
/// value when it is a number that fits, and nothing otherwise.
pub open spec fn detect_version_spec(v: JsonView) -> Option<u32> {
    match obj_field(v, "version"@) {
        None => Some(1),
        Some(JsonView::Int(n)) => if n <= u32::MAX {
            Some(n as u32)
        } else {
            None
        },
        Some(_) => None,
    }
}

/// Reads the schema version out of a raw document. A document without a
/// `version` field is the first versioned schema.
pub fn detect_version(doc: &JsonValue) -> (r: Result<u32, StorageError>)
    ensures
        ({
            let c = detect_version_spec(doc@);
            &&& (r matches Ok(n) ==> c == Some(n))
            &&& (r is Err <==> c is None)
            &&& (r is Err ==> r matches Err(StorageError::ParseFailed { .. }))
        }),
{
    match doc.get("version") {
        None => Ok(1),
        Some(JsonValue::Int(n)) => {
            if *n <= u32::MAX as u64 {
                Ok(*n as u32)
            } else {
                Err(
                    StorageError::ParseFailed {
                        path: "<unknown>".to_owned(),
                        message: "the version field does not fit a schema number".to_owned(),
                    },
                )
            }
        },
        Some(_) => Err(
            StorageError::ParseFailed {
                path: "<unknown>".to_owned(),
                message: "the version field is not a number".to_owned(),
            },
        ),
    }
}

/// The chronological key a raw task sorts by: the instant its
/// `created_at` string denotes. A missing or unreadable instant sorts
/// before every readable one.
pub open spec fn created_key(item: JsonView) -> Option<int> {
    match obj_field(item, "created_at"@) {
        Some(JsonView::Str(s)) => ext::ts_instant_of(s),
        _ => None,
    }
}

/// Orders two raw tasks for numbering: by instant, unreadable instants
/// first, ties broken by original array position.
pub open spec fn numbering_before(ka: Option<int>, ia: int, kb: Option<int>, ib: int) -> bool {
    if ka is None && kb is Some {
        true
    } else if ka is Some && kb is None {
        false
    } else if ka is Some && kb is Some && ka->0 != kb->0 {
        ka->0 < kb->0
    } else {
        ia < ib
    }
}

/// How many of the first `upto` raw tasks sort before task `i`.
pub open spec fn count_before(items: Seq<JsonView>, i: int, upto: int) -> int
    decreases upto,
{
    if upto <= 0 {
        0
    } else {
        count_before(items, i, upto - 1) + if numbering_before(
            created_key(items[upto - 1]),
            upto - 1,
            created_key(items[i]),
            i,
        ) {
            1int
        } else {
            0int
        }
    }
}

/// The task number the migration assigns to raw task `i`: one more than
/// the number of tasks that sort before it, so numbering follows
/// ascending creation instants with ties broken by position.
pub open spec fn task_rank(items: Seq<JsonView>, i: int) -> int {
    1 + count_before(items, i, items.len() as int)
}

/// One raw task with its assigned number written in; a task that is not
/// an object is left alone.
pub open spec fn with_task_number(item: JsonView, rank: int) -> JsonView {
    match item {
        JsonView::Obj(fields) => JsonView::Obj(
            obj_set(fields, "task_number"@, JsonView::Int(rank as u64)),
        ),
        other => other,
    }
}

/// What the first migration step does to a raw document: every task is
/// given a `task_number` in ascending `created_at` order (ties broken by
/// array position), `next_task_number` becomes one past the highest
/// assigned number, and the version tag becomes 2. A document that is
/// not an object is left alone.
pub open spec fn migrate_v1_to_v2_spec(v: JsonView) -> JsonView {
    match v {
        JsonView::Obj(fields) => {
            let f1 = match obj_get(fields, "tasks"@) {
                Some(JsonView::Arr(items)) => obj_set(
                    fields,
                    "tasks"@,
                    JsonView::Arr(
                        Seq::new(items.len(), |i: int| with_task_number(items[i], task_rank(items, i))),
                    ),
                ),
                _ => fields,
            };
            let n = match obj_get(fields, "tasks"@) {
                Some(JsonView::Arr(items)) => items.len() as int,
                _ => 0,
            };
            let f2 = obj_set(f1, "version"@, JsonView::Int(2));
            let next = if n + 1 <= u64::MAX {
                (n + 1) as u64
            } else {
                u64::MAX
            };
            let f3 = obj_set(f2, "next_task_number"@, JsonView::Int(next));
            JsonView::Obj(f3)
        },
        other => other,
    }
}

fn numbering_before_exec(ka: &Option<i128>, ia: usize, kb: &Option<i128>, ib: usize) -> (r: bool)
    ensures
        r == numbering_before(
            match *ka {
                Some(x) => Some(x as int),
                None => None,
            },
            ia as int,
            match *kb {
                Some(x) => Some(x as int),
                None => None,
            },
            ib as int,
        ),
{
    match (ka, kb) {
        (None, Some(_)) => true,
        (Some(_), None) => false,
        (Some(a), Some(b)) => {
            if *a != *b {
                *a < *b
            } else {
                ia < ib
            }
        },
        (None, None) => ia < ib,
    }
}

/// Applies the first migration step: backfills task numbers in ascending
/// `created_at` order, sets the counter one past the highest, and tags
/// the document as version 2.
pub fn migrate_v1_to_v2(doc: JsonValue) -> (r: JsonValue)
    ensures
        r@ == migrate_v1_to_v2_spec(doc@),
{
    let is_obj = matches!(&doc, JsonValue::Obj(_));
    if !is_obj {
        return doc;
    }

    // The chronological key of every raw task.
    let mut keys: Vec<Option<i128>> = Vec::new();
    let mut task_count: usize = 0;
    let mut new_tasks: Vec<JsonValue> = Vec::new();
    let mut has_tasks = false;
    match doc.get("tasks") {
        Some(JsonValue::Arr(items)) => {
            has_tasks = true;
            proof {
                crate::json::lemma_arr_view(items@);
            }
            let n = items.len();
            task_count = n;
            let mut i: usize = 0;
            while i < n
                invariant
                    i <= n,
                    n == items.len(),
                    keys@.len() == i,
                    arr_view(items@).len() == n,
                    forall|k: int|
                        0 <= k < n ==> #[trigger] arr_view(items@)[k] == json_view(items@[k]),
                    forall|k: int|
                        0 <= k < i ==> (match keys@[k] {
                            Some(x) => Some(x as int),
                            None => None,
                        }) == created_key(#[trigger] arr_view(items@)[k]),
                decreases n - i,
            {
                let key: Option<i128> = match items[i].get("created_at") {
                    Some(JsonValue::Str(s)) => ext::timestamp_instant(s.as_str()),
                    _ => None,
                };
                proof {
                    assert((match key {
                        Some(x) => Some(x as int),
                        None => None,
                    }) == created_key(arr_view(items@)[i as int]));
                }
                keys.push(key);
                i += 1;
            }

            // Assign each task one more than the number of tasks that
            // sort before it.
            let mut i: usize = 0;
            while i < n
                invariant
                    i <= n,
                    n == items.len(),
                    keys@.len() == n,
                    new_tasks@.len() == i,
                    arr_view(items@).len() == n,
                    forall|k: int|
                        0 <= k < n ==> #[trigger] arr_view(items@)[k] == json_view(items@[k]),
                    forall|k: int|
                        0 <= k < n ==> (match keys@[k] {
                            Some(x) => Some(x as int),
                            None => None,
                        }) == created_key(#[trigger] arr_view(items@)[k]),
                    forall|k: int|
                        0 <= k < i ==> (#[trigger] new_tasks@[k])@ == with_task_number(
                            arr_view(items@)[k],
                            task_rank(arr_view(items@), k),
                        ),
                decreases n - i,
            {
                let mut count: usize = 0;
                let mut j: usize = 0;
                while j < n
                    invariant
                        j <= n,
                        i < n,
                        n == items.len(),
                        keys@.len() == n,
                        count <= j,
                        j > i ==> count < j,
                        arr_view(items@).len() == n,
                        forall|k: int|
                            0 <= k < n ==> #[trigger] arr_view(items@)[k] == json_view(
                                items@[k],
                            ),
                        forall|k: int|
                            0 <= k < n ==> (match keys@[k] {
                                Some(x) => Some(x as int),
                                None => None,
                            }) == created_key(#[trigger] arr_view(items@)[k]),
                        count as int == count_before(arr_view(items@), i as int, j as int),
                    decreases n - j,
                {
                    if numbering_before_exec(&keys[j], j, &keys[i], i) {
                        count = count + 1;
                    }
                    j += 1;
                }
                let rank: u64 = (count + 1) as u64;
                proof {
                    assert(rank as int == task_rank(arr_view(items@), i as int));
                }
                let mut item = items[i].clone();
                match &mut item {
                    JsonValue::Obj(fields) => {
                        obj_set_field(fields, "task_number", JsonValue::Int(rank));
                    },
                    _ => {},
                }
                proof {
                    assert(item@ =~= with_task_number(
                        arr_view(items@)[i as int],
                        task_rank(arr_view(items@), i as int),
                    ));
                }
                new_tasks.push(item);
                i += 1;
            }
        },
        _ => {},
    }

    let tc = task_count as u64;
    let next: u64 = if tc < u64::MAX {
        tc + 1
    } else {
        u64::MAX
    };
    let ghost pre = doc@;
    let mut fields: Vec<(String, JsonValue)> = match doc {
        JsonValue::Obj(fields) => fields,
        _ => Vec::new(),
    };
    proof {
        assert(pre == JsonView::Obj(fields_view(fields@)));
    }
    if has_tasks {
        let ghost tasks_snap = new_tasks@;
        obj_set_field(&mut fields, "tasks", JsonValue::Arr(new_tasks));
        proof {
            crate::json::lemma_arr_view(tasks_snap);
            let items = match obj_get(fields_view(fields@), "tasks"@) {
                Some(JsonView::Arr(x)) => x,
                _ => Seq::empty(),
            };
            let orig_items = match obj_field(pre, "tasks"@) {
                Some(JsonView::Arr(x)) => x,
                _ => Seq::empty(),
            };
            assert(arr_view(tasks_snap) =~= Seq::new(
                orig_items.len(),
                |i: int| with_task_number(orig_items[i], task_rank(orig_items, i)),
            ));
        }
    }
    obj_set_field(&mut fields, "version", JsonValue::Int(2));
    obj_set_field(&mut fields, "next_task_number", JsonValue::Int(next));
    let r = JsonValue::Obj(fields);
    proof {
        assert(r@ =~= migrate_v1_to_v2_spec(pre));
    }
    r
}

/// Applies the registered migration steps in sequence, one version at a
/// time. Going backwards is a future-version failure; a version in range
/// with no registered step is unsupported. The only registered step is
/// the first: version 1 to version 2.
pub fn apply_migrations(data: JsonValue, from_version: u32, to_version: u32) -> (r: Result<
    JsonValue,
    StorageError,
>)
    ensures
        from_version == to_version ==> (r matches Ok(d) && d@ == data@),
        from_version > to_version ==> (r matches Err(StorageError::FutureVersion(n)) && n
            == from_version),
        (from_version < to_version && from_version != 1) ==> (r matches Err(
            StorageError::UnsupportedVersion(n),
        ) && n == from_version),
        (from_version == 1 && to_version == 2) ==> (r matches Ok(d) && d@
            == migrate_v1_to_v2_spec(data@)),
        (from_version == 1 && to_version > 2) ==> (r matches Err(
            StorageError::UnsupportedVersion(n),
        ) && n == 2),
{
    if from_version == to_version {
        return Ok(data);
    }
    if from_version > to_version {
        return Err(StorageError::FutureVersion(from_version));
    }
    let mut data = data;
    let mut version = from_version;
    if version != 1 {
        return Err(StorageError::UnsupportedVersion(version));
    }
    data = migrate_v1_to_v2(data);
    version = 2;
    if version < to_version {
        return Err(StorageError::UnsupportedVersion(version));
    }
    Ok(data)
}

} // verus!
