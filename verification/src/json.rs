use vstd::prelude::*;
use vstd::pervasive::VecAdditionalExecFns;

use crate::store::first_index_where;
use crate::text::str_eq;

verus! {

broadcast use vstd::std_specs::vec::group_vec_axioms;

/// A schema-less document tree: what one store file holds. Numbers are
/// unsigned integers — the store format uses no other kind. An object
/// keeps its fields in order; a lookup takes the first binding of a key.
#[derive(Debug)]
pub enum JsonValue {
    Null,
    Bool(bool),
    Int(u64),
    Str(String),
    Arr(Vec<JsonValue>),
    Obj(Vec<(String, JsonValue)>),
}

/// Mathematical model of a [`JsonValue`].
#[verifier::ext_equal]
pub enum JsonView {
    Null,
    Bool(bool),
    Int(u64),
    Str(Seq<char>),
    Arr(Seq<JsonView>),
    Obj(Seq<(Seq<char>, JsonView)>),
}

/// The model of a document tree.
pub open spec fn json_view(v: JsonValue) -> JsonView
    decreases v,
{
    match v {
        JsonValue::Null => JsonView::Null,
        JsonValue::Bool(b) => JsonView::Bool(b),
        JsonValue::Int(n) => JsonView::Int(n),
        JsonValue::Str(s) => JsonView::Str(s@),
        JsonValue::Arr(items) => JsonView::Arr(arr_view(items@)),
        JsonValue::Obj(fields) => JsonView::Obj(fields_view(fields@)),
    }
}

/// The models of an array's items.
pub open spec fn arr_view(items: Seq<JsonValue>) -> Seq<JsonView>
    decreases items,
{
    if items.len() == 0 {
        Seq::empty()
    } else {
        seq![json_view(items[0])] + arr_view(items.subrange(1, items.len() as int))
    }
}

/// The models of an object's fields.
pub open spec fn fields_view(fields: Seq<(String, JsonValue)>) -> Seq<(Seq<char>, JsonView)>
    decreases fields,
{
    if fields.len() == 0 {
        Seq::empty()
    } else {
        seq![(fields[0].0@, json_view(fields[0].1))] + fields_view(
            fields.subrange(1, fields.len() as int),
        )
    }
}

/// An array's model has one entry per item, in order.
pub broadcast proof fn lemma_arr_view(items: Seq<JsonValue>)
    ensures
        (#[trigger] arr_view(items)).len() == items.len(),
        forall|i: int| 0 <= i < items.len() ==> #[trigger] arr_view(items)[i] == json_view(items[i]),
    decreases items,
{
    if items.len() > 0 {
        let t = items.subrange(1, items.len() as int);
        lemma_arr_view(t);
        assert(forall|i: int| 0 <= i < t.len() ==> #[trigger] t[i] == items[i + 1]);
        assert(forall|i: int|
            1 <= i < items.len() ==> arr_view(items)[i] == arr_view(t)[i - 1] && #[trigger] items[i]
                == t[i - 1]);
    }
}

/// An object's model has one entry per field, in order.
pub broadcast proof fn lemma_fields_view(fields: Seq<(String, JsonValue)>)
    ensures
        (#[trigger] fields_view(fields)).len() == fields.len(),
        forall|i: int|
            0 <= i < fields.len() ==> #[trigger] fields_view(fields)[i] == (fields[i].0@,
            json_view(fields[i].1)),
    decreases fields,
{
    if fields.len() > 0 {
        let t = fields.subrange(1, fields.len() as int);
        lemma_fields_view(t);
        assert(forall|i: int| 0 <= i < t.len() ==> #[trigger] t[i] == fields[i + 1]);
        assert(forall|i: int|
            1 <= i < fields.len() ==> fields_view(fields)[i] == fields_view(t)[i - 1]
                && #[trigger] fields[i] == t[i - 1]);
    }
}

impl View for JsonValue {
    type V = JsonView;

    open spec fn view(&self) -> JsonView {
        json_view(*self)
    }
}

impl DeepView for JsonValue {
    type V = JsonView;

    open spec fn deep_view(&self) -> JsonView {
        json_view(*self)
    }
}

/// The first binding of `key` in an object's field list, if any.
pub open spec fn obj_get(fields: Seq<(Seq<char>, JsonView)>, key: Seq<char>) -> Option<
    JsonView,
>
    decreases fields.len(),
{
    if fields.len() == 0 {
        None
    } else if fields[0].0 == key {
        Some(fields[0].1)
    } else {
        obj_get(fields.subrange(1, fields.len() as int), key)
    }
}

/// Looking up the key of field `i` finds exactly that field's value,
/// provided no earlier field shares the key.
pub proof fn lemma_obj_get_at(fields: Seq<(Seq<char>, JsonView)>, i: int)
    requires
        0 <= i < fields.len(),
        forall|j: int| 0 <= j < i ==> (#[trigger] fields[j]).0 != fields[i].0,
    ensures
        obj_get(fields, fields[i].0) == Some(fields[i].1),
    decreases fields.len(),
{
    if i > 0 {
        let t = fields.subrange(1, fields.len() as int);
        assert(forall|j: int| 0 <= j < t.len() ==> #[trigger] t[j] == fields[j + 1]);
        assert(forall|j: int| 0 <= j < i - 1 ==> (#[trigger] t[j]).0 != t[i - 1].0);
        lemma_obj_get_at(t, i - 1);
    }
}

/// A key bound in no field is found in none.
pub proof fn lemma_obj_get_none(fields: Seq<(Seq<char>, JsonView)>, key: Seq<char>)
    requires
        forall|j: int| 0 <= j < fields.len() ==> (#[trigger] fields[j]).0 != key,
    ensures
        obj_get(fields, key) is None,
    decreases fields.len(),
{
    if fields.len() > 0 {
        let t = fields.subrange(1, fields.len() as int);
        assert(forall|j: int| 0 <= j < t.len() ==> #[trigger] t[j] == fields[j + 1]);
        lemma_obj_get_none(t, key);
    }
}

/// Replaces the first binding of `key`, or appends one if the object has
/// none.
pub open spec fn obj_set(
    fields: Seq<(Seq<char>, JsonView)>,
    key: Seq<char>,
    value: JsonView,
) -> Seq<(Seq<char>, JsonView)> {
    let j = first_index_where(fields, |f: (Seq<char>, JsonView)| f.0 == key);
    if j >= 0 {
        fields.update(j, (key, value))
    } else {
        fields.push((key, value))
    }
}

/// Writes `key` to `value` in a field list, replacing the first binding
/// or appending one.
pub fn obj_set_field(fields: &mut Vec<(String, JsonValue)>, key: &str, value: JsonValue)
    ensures
        fields_view(final(fields)@) == obj_set(fields_view(old(fields)@), key@, value@),
{
    proof {
        lemma_fields_view(fields@);
    }
    let n = fields.len();
    let mut i: usize = 0;
    while i < n
        invariant
            i <= n,
            n == fields.len(),
            *fields == *old(fields),
            fields_view(fields@).len() == n,
            forall|k: int|
                0 <= k < n ==> #[trigger] fields_view(fields@)[k] == (fields@[k].0@, json_view(
                    fields@[k].1,
                )),
            forall|k: int| 0 <= k < i ==> (#[trigger] fields_view(fields@)[k]).0 != key@,
        decreases n - i,
    {
        if str_eq(fields[i].0.as_str(), key) {
            proof {
                crate::store::lemma_first_index_at(
                    fields_view(fields@),
                    |f: (Seq<char>, JsonView)| f.0 == key@,
                    i as int,
                );
            }
            let ghost prev = fields_view(fields@);
            fields.set(i, (key.to_owned(), value));
            proof {
                lemma_fields_view(fields@);
                assert(fields_view(fields@) =~= prev.update(i as int, (key@, value@)));
            }
            return ;
        }
        i += 1;
    }
    proof {
        crate::store::lemma_first_index_none(
            fields_view(fields@),
            |f: (Seq<char>, JsonView)| f.0 == key@,
        );
    }
    let ghost prev = fields_view(fields@);
    fields.push((key.to_owned(), value));
    proof {
        lemma_fields_view(fields@);
        assert(fields_view(fields@) =~= prev.push((key@, value@)));
    }
}

impl Clone for JsonValue {
    /// A deep copy with the same model.
    #[verifier::loop_isolation(false)]
    fn clone(&self) -> (r: Self)
        ensures
            r@ == self@,
        decreases self,
    {
        match self {
            JsonValue::Null => JsonValue::Null,
            JsonValue::Bool(b) => JsonValue::Bool(*b),
            JsonValue::Int(n) => JsonValue::Int(*n),
            JsonValue::Str(s) => JsonValue::Str(s.clone()),
            JsonValue::Arr(items) => {
                let mut out: Vec<JsonValue> = Vec::new();
                let n = items.len();
                let mut i: usize = 0;
                while i < n
                    invariant
                        i <= n,
                        n == items.len(),
                        out@.len() == i,
                        forall|k: int| 0 <= k < i ==> (#[trigger] out@[k])@ == items@[k]@,
                    decreases n - i,
                {
                    proof {
                        assert(decreases_to!(*self => items@[i as int]));
                    }
                    out.push(items[i].clone());
                    i += 1;
                }
                let r = JsonValue::Arr(out);
                proof {
                    lemma_arr_view(out@);
                    lemma_arr_view(items@);
                    assert(arr_view(out@) =~= arr_view(items@));
                }
                r
            },
            JsonValue::Obj(fields) => {
                let mut out: Vec<(String, JsonValue)> = Vec::new();
                let n = fields.len();
                let mut i: usize = 0;
                while i < n
                    invariant
                        i <= n,
                        n == fields.len(),
                        out@.len() == i,
                        forall|k: int|
                            0 <= k < i ==> (#[trigger] out@[k]).0@ == fields@[k].0@ && out@[k].1@
                                == fields@[k].1@,
                    decreases n - i,
                {
                    proof {
                        assert(decreases_to!(*self => fields@[i as int].1));
                    }
                    let pair = (fields[i].0.clone(), fields[i].1.clone());
                    out.push(pair);
                    i += 1;
                }
                let r = JsonValue::Obj(out);
                proof {
                    lemma_fields_view(out@);
                    lemma_fields_view(fields@);
                    assert(fields_view(out@) =~= fields_view(fields@));
                }
                r
            },
        }
    }
}

impl JsonValue {
    /// The value of the first field with this key, when the tree is an
    /// object that has one.
    pub fn get<'a>(&'a self, key: &str) -> (r: Option<&'a JsonValue>)
        ensures
            ({
                let c = match self@ {
                    JsonView::Obj(fields) => obj_get(fields, key@),
                    _ => None,
                };
                &&& (r is Some <==> c is Some)
                &&& (r matches Some(v) ==> v@ == c->0)
            }),
    {
        match self {
            JsonValue::Obj(fields) => {
                let n = fields.len();
                let mut i: usize = 0;
                let ghost fv = fields_view(fields@);
                proof {
                    lemma_fields_view(fields@);
                }
                while i < n
                    invariant
                        i <= n,
                        n == fields@.len(),
                        fv == fields_view(fields@),
                        self@ == JsonView::Obj(fv),
                        fv.len() == n,
                        forall|k: int|
                            0 <= k < n ==> #[trigger] fv[k] == (fields@[k].0@, json_view(
                                fields@[k].1,
                            )),
                        forall|k: int| 0 <= k < i ==> (#[trigger] fv[k]).0 != key@,
                    decreases n - i,
                {
                    if str_eq(fields[i].0.as_str(), key) {
                        proof {
                            lemma_obj_get_at(fv, i as int);
                        }
                        return Some(&fields[i].1);
                    }
                    i += 1;
                }
                proof {
                    lemma_obj_get_none(fv, key@);
                }
                None
            },
            _ => None,
        }
    }
}

} // verus!
