//! What holds of JSON values.
use crate::json::{
    field_in, fields_one_per_key, first_field, numeric, one_per_key, put_all, Json, JsonNumber,
    JsonView,
};
use vstd::prelude::*;

verus! {

/// The value under a key is that of the last field with the key, and there is none just where no
/// field has the key.
pub proof fn a_key_gives_its_last_value(fields: Seq<(Seq<char>, JsonView)>, key: Seq<char>)
    ensures
        match JsonView::Object(fields).field(key) {
            Some(value) => exists|i: int|
                0 <= i < fields.len() && #[trigger] fields[i] == (key, value) && forall|j: int|
                    i < j < fields.len() ==> (#[trigger] fields[j]).0 != key,
            None => forall|i: int| 0 <= i < fields.len() ==> (#[trigger] fields[i]).0 != key,
        },
    decreases fields.len(),
{
    if fields.len() > 0 {
        let front = fields.drop_last();
        if fields.last().0 == key {
            assert(fields[fields.len() - 1] == (key, fields.last().1));
        } else {
            a_key_gives_its_last_value(front, key);
            match field_in(front, key) {
                Some(value) => {
                    let i = choose|i: int|
                        0 <= i < front.len() && #[trigger] front[i] == (key, value) && forall|
                            j: int,
                        |
                            i < j < front.len() ==> (#[trigger] front[j]).0 != key;
                    assert(fields[i] == (key, value));
                    assert forall|j: int| i < j < fields.len() implies (#[trigger] fields[j]).0
                        != key by {
                        if j < front.len() {
                            assert(front[j].0 != key);
                        }
                    }
                },
                None => {
                    assert forall|i: int| 0 <= i < fields.len() implies (#[trigger] fields[i]).0
                        != key by {
                        if i < front.len() {
                            assert(front[i].0 != key);
                        }
                    }
                },
            }
        }
    }
}

/// A value is read as what it is, and as nothing else: a text, a number from nought on, a list, or
/// an object.
pub proof fn a_value_is_read_as_what_it_is(value: JsonView, key: Seq<char>)
    ensures
        value.text() == match value {
            JsonView::Text(t) => Some(t),
            _ => None,
        },
        value.unsigned() == match value {
            JsonView::Number(JsonNumber::PosInt(n)) => Some(n),
            _ => None,
        },
        value.elements() == match value {
            JsonView::Array(items) => items,
            _ => Seq::empty(),
        },
        !(value is Object) ==> value.field(key) is None,
{
}

/// A JSON value says what it holds, part by part and in order.
pub proof fn a_value_says_what_it_holds(
    b: bool,
    s: String,
    u: u64,
    items: Vec<Json>,
    fields: Vec<(String, Json)>,
)
    ensures
        Json::Null@ == JsonView::Null,
        Json::Bool(b)@ == JsonView::Bool(b),
        Json::Text(s)@ == JsonView::Text(s@),
        Json::Number(JsonNumber::PosInt(u))@ == JsonView::Number(JsonNumber::PosInt(u)),
        Json::Array(items)@ is Array,
        Json::Array(items)@->Array_0.len() == items@.len(),
        forall|i: int|
            0 <= i < items@.len() ==> #[trigger] Json::Array(items)@->Array_0[i] == items@[i]@,
        Json::Object(fields)@ is Object,
        Json::Object(fields)@->Object_0.len() == fields@.len(),
        forall|i: int|
            0 <= i < fields@.len() ==> #[trigger] Json::Object(fields)@->Object_0[i] == (
                fields@[i].0@,
                fields@[i].1@,
            ),
{
}

/// An integer says its number, whichever way it is held.
pub proof fn an_integer_says_its_number(i: i64)
    ensures
        i >= 0 ==> numeric(JsonNumber::NegInt(i)) == JsonNumber::PosInt(i as u64),
        i < 0 ==> numeric(JsonNumber::NegInt(i)) == JsonNumber::NegInt(i),
{
}

proof fn lemma_no_first(fields: Seq<(Seq<char>, JsonView)>, key: Seq<char>)
    requires
        forall|i: int| 0 <= i < fields.len() ==> (#[trigger] fields[i]).0 != key,
    ensures
        first_field(fields, key) is None,
    decreases fields.len(),
{
    if fields.len() > 0 {
        let front = fields.drop_last();
        assert forall|i: int| 0 <= i < front.len() implies (#[trigger] front[i]).0 != key by {
            assert(fields[i].0 != key);
        }
        lemma_no_first(front, key);
        assert(fields[fields.len() - 1].0 != key);
    }
}

proof fn lemma_distinct_stay(fields: Seq<(Seq<char>, JsonView)>)
    requires
        forall|i: int, j: int|
            #![trigger fields[i], fields[j]]
            0 <= i < j < fields.len() ==> fields[i].0 != fields[j].0,
    ensures
        put_all(fields) == fields,
    decreases fields.len(),
{
    if fields.len() > 0 {
        let front = fields.drop_last();
        assert forall|i: int, j: int|
            #![trigger front[i], front[j]]
            0 <= i < j < front.len() implies front[i].0 != front[j].0 by {
            assert(fields[i].0 != fields[j].0);
        }
        lemma_distinct_stay(front);
        assert forall|i: int| 0 <= i < front.len() implies (#[trigger] front[i]).0
            != fields.last().0 by {
            assert(fields[i].0 != fields[fields.len() - 1].0);
        }
        lemma_no_first(front, fields.last().0);
        assert(put_all(fields) =~= fields);
    } else {
        assert(put_all(fields) =~= fields);
    }
}

/// To hold each key once changes nothing else: a list keeps its elements in order, an object whose
/// keys differ keeps its fields in order, and what has no parts stays as it is.
pub proof fn rebuilding_changes_only_doubled_keys(value: JsonView)
    ensures
        one_per_key(value) is Array == value is Array,
        one_per_key(value) is Object == value is Object,
        !(value is Array) && !(value is Object) ==> one_per_key(value) == value,
        value is Array ==> one_per_key(value)->Array_0.len() == value->Array_0.len(),
        value is Array ==> forall|i: int|
            0 <= i < value->Array_0.len() ==> #[trigger] one_per_key(value)->Array_0[i]
                == one_per_key(value->Array_0[i]),
        value is Object && (forall|i: int, j: int|
            #![trigger value->Object_0[i], value->Object_0[j]]
            0 <= i < j < value->Object_0.len() ==> value->Object_0[i].0 != value->Object_0[j].0)
            ==> {
            &&& one_per_key(value)->Object_0.len() == value->Object_0.len()
            &&& forall|i: int|
                0 <= i < value->Object_0.len() ==> #[trigger] one_per_key(value)->Object_0[i] == (
                    value->Object_0[i].0,
                    one_per_key(value->Object_0[i].1),
                )
        },
{
    match value {
        JsonView::Object(fields) => {
            let each = fields_one_per_key(fields);
            if forall|i: int, j: int|
                #![trigger fields[i], fields[j]]
                0 <= i < j < fields.len() ==> fields[i].0 != fields[j].0 {
                assert forall|i: int, j: int|
                    #![trigger each[i], each[j]]
                    0 <= i < j < each.len() implies each[i].0 != each[j].0 by {
                    assert(fields[i].0 != fields[j].0);
                }
                lemma_distinct_stay(each);
            }
        },
        _ => {},
    }
}

/// A key that is given a value again keeps its place; a new one comes last.
pub proof fn a_doubled_key_keeps_its_first_place(
    fields: Seq<(Seq<char>, JsonView)>,
    i: int,
    key: Seq<char>,
    value: JsonView,
)
    requires
        forall|a: int, b: int|
            #![trigger fields[a], fields[b]]
            0 <= a < b < fields.len() ==> fields[a].0 != fields[b].0,
    ensures
        0 <= i < fields.len() && fields[i].0 == key ==> put_all(fields.push((key, value)))
            == fields.update(i, (key, value)),
        (forall|k: int| 0 <= k < fields.len() ==> (#[trigger] fields[k]).0 != key) ==> put_all(
            fields.push((key, value)),
        ) == fields.push((key, value)),
{
    lemma_distinct_stay(fields);
    assert(fields.push((key, value)).drop_last() =~= fields);
    if 0 <= i < fields.len() && fields[i].0 == key {
        lemma_first_is(fields, key, i);
    }
    if forall|k: int| 0 <= k < fields.len() ==> (#[trigger] fields[k]).0 != key {
        lemma_no_first(fields, key);
    }
}

proof fn lemma_first_is(fields: Seq<(Seq<char>, JsonView)>, key: Seq<char>, i: int)
    requires
        0 <= i < fields.len(),
        fields[i].0 == key,
        forall|a: int, b: int|
            #![trigger fields[a], fields[b]]
            0 <= a < b < fields.len() ==> fields[a].0 != fields[b].0,
    ensures
        first_field(fields, key) == Some(i),
    decreases fields.len(),
{
    let front = fields.drop_last();
    if i < front.len() {
        assert forall|a: int, b: int|
            #![trigger front[a], front[b]]
            0 <= a < b < front.len() implies front[a].0 != front[b].0 by {
            assert(fields[a].0 != fields[b].0);
        }
        lemma_first_is(front, key, i);
    } else {
        assert forall|k: int| 0 <= k < front.len() implies (#[trigger] front[k]).0 != key by {
            assert(fields[k].0 != fields[i].0);
        }
        lemma_no_first(front, key);
    }
}

} // verus!
