//! JSON values as plain data, and their passage through `serde_json`.
use crate::lists::unreversed;
use crate::text::same_text;
use vstd::prelude::*;

verus! {

/// `serde_json::Value`, carried as it is; [`value_view`] says what one holds.
#[verifier::external_type_specification]
#[verifier::external_body]
pub struct ExValue(serde_json::Value);

/// `serde_json::Number`, carried as it is; [`number_view`] says what one holds.
#[verifier::external_type_specification]
#[verifier::external_body]
pub struct ExNumber(serde_json::Number);

/// A JSON number. Integers are in the clear; any other number is carried as `serde_json` holds it.
pub enum JsonNumber {
    PosInt(u64),
    NegInt(i64),
    Float(serde_json::Number),
}

/// A JSON value. An object is the list of its fields.
pub enum Json {
    Null,
    Bool(bool),
    Number(JsonNumber),
    Text(String),
    Array(Vec<Json>),
    Object(Vec<(String, Json)>),
}

/// What a JSON value says.
pub enum JsonView {
    Null,
    Bool(bool),
    Number(JsonNumber),
    Text(Seq<char>),
    Array(Seq<JsonView>),
    Object(Seq<(Seq<char>, JsonView)>),
}

/// What a `serde_json::Value` holds: its variant with what is inside, the fields of an object in
/// the order in which the map lists them.
pub uninterp spec fn value_view(value: serde_json::Value) -> JsonView;

/// What a `serde_json::Number` holds: a non-negative integer, a negative one, or anything else.
pub uninterp spec fn number_view(number: serde_json::Number) -> JsonNumber;

/// What `serde_json::from_str::<Value>` reads from a text; `None` when it reports an error.
pub uninterp spec fn json_parsed(text: Seq<char>) -> Option<JsonView>;

/// What `Value::to_string` writes for a value.
pub uninterp spec fn json_text(value: JsonView) -> Seq<char>;

/// The number that `n` stands for: an integer is either non-negative or negative.
pub open spec fn numeric(n: JsonNumber) -> JsonNumber {
    match n {
        JsonNumber::PosInt(u) => n,
        JsonNumber::NegInt(i) => if i < 0 {
            n
        } else {
            JsonNumber::PosInt(i as u64)
        },
        JsonNumber::Float(m) => number_view(m),
    }
}

/// What `j` says.
pub open spec fn json_view(j: Json) -> JsonView
    decreases j,
{
    match j {
        Json::Null => JsonView::Null,
        Json::Bool(b) => JsonView::Bool(b),
        Json::Number(n) => JsonView::Number(numeric(n)),
        Json::Text(s) => JsonView::Text(s@),
        Json::Array(items) => JsonView::Array(json_views(items@)),
        Json::Object(fields) => JsonView::Object(field_views(fields@)),
    }
}

/// What the values of a list say.
pub open spec fn json_views(items: Seq<Json>) -> Seq<JsonView>
    decreases items,
{
    Seq::new(
        items.len(),
        |i: int|
            if 0 <= i < items.len() {
                json_view(items[i])
            } else {
                JsonView::Null
            },
    )
}

/// What the fields of a list say.
pub open spec fn field_views(fields: Seq<(String, Json)>) -> Seq<(Seq<char>, JsonView)>
    decreases fields,
{
    Seq::new(
        fields.len(),
        |i: int|
            if 0 <= i < fields.len() {
                (fields[i].0@, json_view(fields[i].1))
            } else {
                (Seq::empty(), JsonView::Null)
            },
    )
}

impl View for Json {
    type V = JsonView;

    open spec fn view(&self) -> JsonView {
        json_view(*self)
    }
}

/// What `serde_json` values of a list hold.
pub open spec fn value_views(values: Seq<serde_json::Value>) -> Seq<JsonView> {
    Seq::new(values.len(), |i: int| value_view(values[i]))
}

/// What `serde_json` fields of a list hold.
pub open spec fn pair_views(pairs: Seq<(String, serde_json::Value)>) -> Seq<(Seq<char>, JsonView)> {
    Seq::new(pairs.len(), |i: int| (pairs[i].0@, value_view(pairs[i].1)))
}

/// The value under `key`: of several fields with that key, the last.
pub open spec fn field_in(fields: Seq<(Seq<char>, JsonView)>, key: Seq<char>) -> Option<JsonView>
    decreases fields.len(),
{
    if fields.len() == 0 {
        None
    } else if fields.last().0 == key {
        Some(fields.last().1)
    } else {
        field_in(fields.drop_last(), key)
    }
}

impl JsonView {
    /// The value of the field `key`, if this is an object with such a field.
    pub open spec fn field(self, key: Seq<char>) -> Option<JsonView> {
        match self {
            JsonView::Object(fields) => field_in(fields, key),
            _ => None,
        }
    }

    /// The text, if this is one.
    pub open spec fn text(self) -> Option<Seq<char>> {
        match self {
            JsonView::Text(s) => Some(s),
            _ => None,
        }
    }

    /// The integer, if this is a non-negative one.
    pub open spec fn unsigned(self) -> Option<u64> {
        match self {
            JsonView::Number(JsonNumber::PosInt(n)) => Some(n),
            _ => None,
        }
    }

    /// The elements, none if this is no array.
    pub open spec fn elements(self) -> Seq<JsonView> {
        match self {
            JsonView::Array(items) => items,
            _ => Seq::empty(),
        }
    }
}

/// The first position that holds `key`.
pub open spec fn first_field(fields: Seq<(Seq<char>, JsonView)>, key: Seq<char>) -> Option<int>
    decreases fields.len(),
{
    if fields.len() == 0 {
        None
    } else {
        match first_field(fields.drop_last(), key) {
            Some(i) => Some(i),
            None => if fields.last().0 == key {
                Some(fields.len() - 1)
            } else {
                None
            },
        }
    }
}

/// The fields after `key` is given `value`: in its place if it is there, else at the end.
pub open spec fn put_field(
    fields: Seq<(Seq<char>, JsonView)>,
    key: Seq<char>,
    value: JsonView,
) -> Seq<(Seq<char>, JsonView)> {
    match first_field(fields, key) {
        Some(i) => fields.update(i, (key, value)),
        None => fields.push((key, value)),
    }
}

/// The fields that are left when those of a list are put one after the other.
pub open spec fn put_all(fields: Seq<(Seq<char>, JsonView)>) -> Seq<(Seq<char>, JsonView)>
    decreases fields.len(),
{
    if fields.len() == 0 {
        Seq::empty()
    } else {
        put_field(put_all(fields.drop_last()), fields.last().0, fields.last().1)
    }
}

/// The value with each object reduced to one field per key, as `serde_json` holds it.
pub open spec fn one_per_key(value: JsonView) -> JsonView
    decreases value,
{
    match value {
        JsonView::Array(items) => JsonView::Array(each_one_per_key(items)),
        JsonView::Object(fields) => JsonView::Object(put_all(fields_one_per_key(fields))),
        _ => value,
    }
}

/// [`one_per_key`] of each value of a list.
pub open spec fn each_one_per_key(items: Seq<JsonView>) -> Seq<JsonView>
    decreases items,
{
    Seq::new(
        items.len(),
        |i: int|
            if 0 <= i < items.len() {
                one_per_key(items[i])
            } else {
                JsonView::Null
            },
    )
}

/// [`one_per_key`] of the value of each field of a list.
pub open spec fn fields_one_per_key(fields: Seq<(Seq<char>, JsonView)>) -> Seq<
    (Seq<char>, JsonView),
>
    decreases fields,
{
    Seq::new(
        fields.len(),
        |i: int|
            if 0 <= i < fields.len() {
                (fields[i].0, one_per_key(fields[i].1))
            } else {
                (Seq::empty(), JsonView::Null)
            },
    )
}

/// The outermost layer of a `serde_json::Value`.
enum Layer {
    Null,
    Bool(bool),
    Number(serde_json::Number),
    Text(String),
    Array(Vec<serde_json::Value>),
    Object(Vec<(String, serde_json::Value)>),
}

spec fn layer_view(layer: Layer) -> JsonView {
    match layer {
        Layer::Null => JsonView::Null,
        Layer::Bool(b) => JsonView::Bool(b),
        Layer::Number(n) => JsonView::Number(number_view(n)),
        Layer::Text(s) => JsonView::Text(s@),
        Layer::Array(items) => JsonView::Array(value_views(items@)),
        Layer::Object(pairs) => JsonView::Object(pair_views(pairs@)),
    }
}

/// Takes a `serde_json::Value` apart by its variant; an object gives its entries in map order.
#[verifier::external_body]
fn open_value(value: serde_json::Value) -> (layer: Layer)
    ensures
        layer_view(layer) == value_view(value),
{
    match value {
        serde_json::Value::Null => Layer::Null,
        serde_json::Value::Bool(b) => Layer::Bool(b),
        serde_json::Value::Number(n) => Layer::Number(n),
        serde_json::Value::String(s) => Layer::Text(s),
        serde_json::Value::Array(items) => Layer::Array(items),
        serde_json::Value::Object(map) => Layer::Object(map.into_iter().collect()),
    }
}

/// Makes a `serde_json::Value` of one layer. The entries of an object are put into the map one
/// after the other, so a later one takes the place of an earlier one with its key.
#[verifier::external_body]
fn close_value(layer: Layer) -> (value: serde_json::Value)
    ensures
        value_view(value) == match layer {
            Layer::Object(pairs) => JsonView::Object(put_all(pair_views(pairs@))),
            _ => layer_view(layer),
        },
{
    match layer {
        Layer::Null => serde_json::Value::Null,
        Layer::Bool(b) => serde_json::Value::Bool(b),
        Layer::Number(n) => serde_json::Value::Number(n),
        Layer::Text(s) => serde_json::Value::String(s),
        Layer::Array(items) => serde_json::Value::Array(items),
        Layer::Object(pairs) => serde_json::Value::Object(pairs.into_iter().collect()),
    }
}

/// `Number::as_u64`: the number, if it is a non-negative integer.
#[verifier::external_body]
fn number_as_u64(number: &serde_json::Number) -> (n: Option<u64>)
    ensures
        n == match number_view(*number) {
            JsonNumber::PosInt(u) => Some(u),
            _ => None,
        },
{
    number.as_u64()
}

/// `Number::as_i64`: the number, if it is an integer that fits. A number that is no integer at
/// all stands for itself.
#[verifier::external_body]
fn number_as_i64(number: &serde_json::Number) -> (n: Option<i64>)
    ensures
        match n {
            Some(i) => number_view(*number) == if i < 0 {
                JsonNumber::NegInt(i)
            } else {
                JsonNumber::PosInt(i as u64)
            },
            None => number_view(*number) is PosInt || number_view(*number) == JsonNumber::Float(
                *number,
            ),
        },
{
    number.as_i64()
}

/// `Number::from(u64)`.
#[verifier::external_body]
fn number_of_u64(n: u64) -> (number: serde_json::Number)
    ensures
        number_view(number) == JsonNumber::PosInt(n),
{
    serde_json::Number::from(n)
}

/// `Number::from(i64)`: a negative integer stays one, another becomes a non-negative one.
#[verifier::external_body]
fn number_of_i64(n: i64) -> (number: serde_json::Number)
    ensures
        number_view(number) == numeric(JsonNumber::NegInt(n)),
{
    serde_json::Number::from(n)
}

/// `Number::clone`.
#[verifier::external_body]
fn clone_number(number: &serde_json::Number) -> (copy: serde_json::Number)
    ensures
        copy == *number,
{
    number.clone()
}

/// `serde_json::from_str`, into a `Value`.
#[verifier::external_body]
fn parse_value(text: &str) -> (value: Option<serde_json::Value>)
    ensures
        match value {
            Some(v) => json_parsed(text@) == Some(value_view(v)),
            None => json_parsed(text@) is None,
        },
{
    serde_json::from_str(text).ok()
}

/// `Value::to_string`.
#[verifier::external_body]
fn value_to_string(value: &serde_json::Value) -> (text: String)
    ensures
        text@ == json_text(value_view(*value)),
{
    value.to_string()
}

fn plain_number(number: serde_json::Number) -> (n: JsonNumber)
    ensures
        numeric(n) == number_view(number),
{
    match number_as_u64(&number) {
        Some(u) => JsonNumber::PosInt(u),
        None => match number_as_i64(&number) {
            Some(i) => JsonNumber::NegInt(i),
            None => JsonNumber::Float(number),
        },
    }
}

/// The plain form of a `serde_json` value.
pub fn from_value(value: serde_json::Value) -> (j: Json)
    ensures
        j@ == value_view(value),
    decreases value_view(value),
{
    let ghost whole = value_view(value);
    match open_value(value) {
        Layer::Null => Json::Null,
        Layer::Bool(b) => Json::Bool(b),
        Layer::Number(n) => Json::Number(plain_number(n)),
        Layer::Text(s) => Json::Text(s),
        Layer::Array(items) => {
            let mut items = items;
            let ghost all = items@;
            assert(whole == JsonView::Array(value_views(all)));
            let mut reversed: Vec<Json> = Vec::new();
            while items.len() > 0
                invariant
                    whole == JsonView::Array(value_views(all)),
                    whole == value_view(value),
                    items@.len() + reversed@.len() == all.len(),
                    items@ == all.take(items@.len() as int),
                    forall|i: int|
                        0 <= i < reversed@.len() ==> (#[trigger] reversed@[i])@ == value_view(
                            all[all.len() - 1 - i],
                        ),
                decreases items.len(),
            {
                let ghost last = items@.len() - 1;
                let item = items.pop().unwrap();
                assert(item == all[last]);
                assert(decreases_to!(whole => whole->Array_0));
                assert(decreases_to!(whole->Array_0 => whole->Array_0[last]));
                reversed.push(from_value(item));
                assert(items@ =~= all.take(items@.len() as int));
            }
            let list = unreversed(reversed);
            assert(json_views(list@) =~= value_views(all));
            Json::Array(list)
        },
        Layer::Object(pairs) => {
            let mut pairs = pairs;
            let ghost all = pairs@;
            assert(whole == JsonView::Object(pair_views(all)));
            let mut reversed: Vec<(String, Json)> = Vec::new();
            while pairs.len() > 0
                invariant
                    whole == JsonView::Object(pair_views(all)),
                    whole == value_view(value),
                    pairs@.len() + reversed@.len() == all.len(),
                    pairs@ == all.take(pairs@.len() as int),
                    forall|i: int|
                        0 <= i < reversed@.len() ==> (#[trigger] reversed@[i]).0@ == all[all.len()
                            - 1 - i].0@ && reversed@[i].1@ == value_view(all[all.len() - 1 - i].1),
                decreases pairs.len(),
            {
                let ghost last = pairs@.len() - 1;
                let (key, item) = pairs.pop().unwrap();
                assert((key, item) == all[last]);
                assert(decreases_to!(whole => whole->Object_0));
                assert(decreases_to!(whole->Object_0 => whole->Object_0[last]));
                assert(decreases_to!(whole->Object_0[last] => whole->Object_0[last].1));
                reversed.push((key, from_value(item)));
                assert(pairs@ =~= all.take(pairs@.len() as int));
            }
            let list = unreversed(reversed);
            assert(field_views(list@) =~= pair_views(all));
            Json::Object(list)
        },
    }
}

impl JsonNumber {
    fn to_number(&self) -> (number: serde_json::Number)
        ensures
            number_view(number) == numeric(*self),
    {
        match self {
            JsonNumber::PosInt(u) => number_of_u64(*u),
            JsonNumber::NegInt(i) => number_of_i64(*i),
            JsonNumber::Float(number) => clone_number(number),
        }
    }

    /// The same number again.
    pub fn copy(&self) -> (n: JsonNumber)
        ensures
            n == *self,
    {
        match self {
            JsonNumber::PosInt(u) => JsonNumber::PosInt(*u),
            JsonNumber::NegInt(i) => JsonNumber::NegInt(*i),
            JsonNumber::Float(number) => JsonNumber::Float(clone_number(number)),
        }
    }
}

impl Json {
    /// The value of the field `key`, if this is an object with such a field.
    pub fn get(&self, key: &str) -> (value: Option<&Json>)
        ensures
            match value {
                Some(v) => self@.field(key@) == Some(v@),
                None => self@.field(key@) is None,
            },
    {
        match self {
            Json::Object(fields) => {
                let ghost all = field_views(fields@);
                let mut left: usize = fields.len();
                assert(all.take(left as int) =~= all);
                while left > 0
                    invariant
                        left <= fields@.len(),
                        all == field_views(fields@),
                        self@ == JsonView::Object(all),
                        field_in(all, key@) == field_in(all.take(left as int), key@),
                    decreases left,
                {
                    let ghost shown = all.take(left as int);
                    assert(shown.last() == all[left - 1]);
                    assert(shown.drop_last() =~= all.take(left - 1));
                    if same_text(fields[left - 1].0.as_str(), key) {
                        return Some(&fields[left - 1].1);
                    }
                    left = left - 1;
                }
                None
            },
            _ => None,
        }
    }

    /// The text, if this is one.
    pub fn as_str(&self) -> (text: Option<&str>)
        ensures
            match text {
                Some(t) => self@.text() == Some(t@),
                None => self@.text() is None,
            },
    {
        match self {
            Json::Text(s) => Some(s.as_str()),
            _ => None,
        }
    }

    /// The integer, if this is a non-negative one.
    pub fn as_u64(&self) -> (n: Option<u64>)
        ensures
            n == self@.unsigned(),
    {
        match self {
            Json::Number(JsonNumber::PosInt(u)) => Some(*u),
            Json::Number(JsonNumber::NegInt(i)) => if *i < 0 {
                None
            } else {
                Some(*i as u64)
            },
            Json::Number(JsonNumber::Float(number)) => number_as_u64(number),
            _ => None,
        }
    }

    /// The elements, if this is an array.
    pub fn as_array(&self) -> (items: Option<&Vec<Json>>)
        ensures
            match items {
                Some(list) => self@ == JsonView::Array(json_views(list@)),
                None => !(self@ is Array),
            },
    {
        match self {
            Json::Array(items) => {
                Some(items)
            },
            _ => None,
        }
    }

    /// Whether this is an object.
    pub fn is_object(&self) -> (r: bool)
        ensures
            r == (self@ is Object),
    {
        match self {
            Json::Object(_) => true,
            _ => false,
        }
    }

    /// The same value again.
    pub fn copy(&self) -> (j: Json)
        ensures
            j@ == self@,
        decreases self,
    {
        match self {
            Json::Null => Json::Null,
            Json::Bool(b) => Json::Bool(*b),
            Json::Number(n) => Json::Number(n.copy()),
            Json::Text(s) => Json::Text(s.clone()),
            Json::Array(items) => {
                let mut list: Vec<Json> = Vec::new();
                let mut i: usize = 0;
                while i < items.len()
                    invariant
                        i <= items@.len(),
                        list@.len() == i,
                        *self == Json::Array(*items),
                        forall|k: int| 0 <= k < i ==> (#[trigger] list@[k])@ == items@[k]@,
                    decreases items@.len() - i,
                {
                    assert(decreases_to!(self => self->Array_0));
                    assert(decreases_to!(*items => items@));
                    assert(decreases_to!(items@ => items@[i as int]));
                    list.push(items[i].copy());
                    i = i + 1;
                }
                proof {
                    assert(json_views(list@) =~= json_views(items@));
                }
                Json::Array(list)
            },
            Json::Object(fields) => {
                let mut list: Vec<(String, Json)> = Vec::new();
                let mut i: usize = 0;
                while i < fields.len()
                    invariant
                        i <= fields@.len(),
                        list@.len() == i,
                        *self == Json::Object(*fields),
                        forall|k: int|
                            0 <= k < i ==> (#[trigger] list@[k]).0@ == fields@[k].0@
                                && list@[k].1@ == fields@[k].1@,
                    decreases fields@.len() - i,
                {
                    assert(decreases_to!(self => self->Object_0));
                    assert(decreases_to!(*fields => fields@));
                    assert(decreases_to!(fields@ => fields@[i as int]));
                    assert(decreases_to!(fields@[i as int] => fields@[i as int].1));
                    let value = fields[i].1.copy();
                    list.push((fields[i].0.clone(), value));
                    i = i + 1;
                }
                proof {
                    assert(field_views(list@) =~= field_views(fields@));
                }
                Json::Object(list)
            },
        }
    }

    /// The `serde_json` value that says the same, with one field per key in each object.
    pub fn to_value(&self) -> (value: serde_json::Value)
        ensures
            value_view(value) == one_per_key(self@),
        decreases self,
    {
        match self {
            Json::Null => close_value(Layer::Null),
            Json::Bool(b) => close_value(Layer::Bool(*b)),
            Json::Number(n) => close_value(Layer::Number(n.to_number())),
            Json::Text(s) => close_value(Layer::Text(s.clone())),
            Json::Array(items) => {
                let mut list: Vec<serde_json::Value> = Vec::new();
                let mut i: usize = 0;
                while i < items.len()
                    invariant
                        i <= items@.len(),
                        list@.len() == i,
                        *self == Json::Array(*items),
                        forall|k: int|
                            0 <= k < i ==> value_view(#[trigger] list@[k]) == one_per_key(
                                items@[k]@,
                            ),
                    decreases items@.len() - i,
                {
                    assert(decreases_to!(self => self->Array_0));
                    assert(decreases_to!(*items => items@));
                    assert(decreases_to!(items@ => items@[i as int]));
                    list.push(items[i].to_value());
                    i = i + 1;
                }
                proof {
                    assert(each_one_per_key(json_views(items@)) =~= value_views(list@));
                }
                close_value(Layer::Array(list))
            },
            Json::Object(fields) => {
                let mut list: Vec<(String, serde_json::Value)> = Vec::new();
                let mut i: usize = 0;
                while i < fields.len()
                    invariant
                        i <= fields@.len(),
                        list@.len() == i,
                        *self == Json::Object(*fields),
                        forall|k: int|
                            0 <= k < i ==> (#[trigger] list@[k]).0@ == fields@[k].0@ && value_view(
                                list@[k].1,
                            ) == one_per_key(fields@[k].1@),
                    decreases fields@.len() - i,
                {
                    assert(decreases_to!(self => self->Object_0));
                    assert(decreases_to!(*fields => fields@));
                    assert(decreases_to!(fields@ => fields@[i as int]));
                    assert(decreases_to!(fields@[i as int] => fields@[i as int].1));
                    let value = fields[i].1.to_value();
                    list.push((fields[i].0.clone(), value));
                    i = i + 1;
                }
                proof {
                    assert(fields_one_per_key(field_views(fields@)) =~= pair_views(list@));
                }
                close_value(Layer::Object(list))
            },
        }
    }

    /// The value written as JSON text.
    pub fn to_text(&self) -> (text: String)
        ensures
            text@ == json_text(one_per_key(self@)),
    {
        let value = self.to_value();
        value_to_string(&value)
    }
}

/// Reads a JSON value from a text.
pub fn parse(text: &str) -> (j: Option<Json>)
    ensures
        match j {
            Some(v) => json_parsed(text@) == Some(v@),
            None => json_parsed(text@) is None,
        },
{
    match parse_value(text) {
        Some(value) => Some(from_value(value)),
        None => None,
    }
}

/// Whether no key occurs twice.
pub open spec fn keys_differ(fields: Seq<(Seq<char>, JsonView)>) -> bool {
    forall|i: int, j: int|
        #![trigger fields[i], fields[j]]
        0 <= i < j < fields.len() ==> fields[i].0 != fields[j].0
}

proof fn lemma_first_field(fields: Seq<(Seq<char>, JsonView)>, key: Seq<char>)
    ensures
        match first_field(fields, key) {
            Some(i) => 0 <= i < fields.len() && fields[i].0 == key,
            None => forall|i: int| 0 <= i < fields.len() ==> (#[trigger] fields[i]).0 != key,
        },
    decreases fields.len(),
{
    if fields.len() > 0 {
        let front = fields.drop_last();
        lemma_first_field(front, key);
        if first_field(fields, key) is None {
            assert forall|i: int| 0 <= i < fields.len() implies (#[trigger] fields[i]).0 != key by {
                if i < front.len() {
                    assert(front[i].0 != key);
                }
            }
        }
    }
}

proof fn lemma_field_in(fields: Seq<(Seq<char>, JsonView)>, key: Seq<char>, i: int)
    requires
        keys_differ(fields),
        0 <= i < fields.len(),
        fields[i].0 == key,
    ensures
        field_in(fields, key) == Some(fields[i].1),
    decreases fields.len(),
{
    if i < fields.len() - 1 {
        assert(fields[i].0 != fields[fields.len() - 1].0);
        assert(keys_differ(fields.drop_last())) by {
            assert forall|a: int, b: int|
                #![trigger fields.drop_last()[a], fields.drop_last()[b]]
                0 <= a < b < fields.len() - 1 implies fields.drop_last()[a].0
                != fields.drop_last()[b].0 by {
                assert(fields[a].0 != fields[b].0);
            }
        }
        lemma_field_in(fields.drop_last(), key, i);
    }
}

proof fn lemma_no_field(fields: Seq<(Seq<char>, JsonView)>, key: Seq<char>)
    requires
        forall|i: int| 0 <= i < fields.len() ==> (#[trigger] fields[i]).0 != key,
    ensures
        field_in(fields, key) is None,
    decreases fields.len(),
{
    if fields.len() > 0 {
        assert(fields[fields.len() - 1].0 != key);
        assert forall|i: int| 0 <= i < fields.len() - 1 implies (#[trigger] fields.drop_last()[i]).0
            != key by {
            assert(fields[i].0 != key);
        }
        lemma_no_field(fields.drop_last(), key);
    }
}

proof fn lemma_put_field(
    fields: Seq<(Seq<char>, JsonView)>,
    key: Seq<char>,
    value: JsonView,
    other: Seq<char>,
)
    requires
        keys_differ(fields),
    ensures
        keys_differ(put_field(fields, key, value)),
        field_in(put_field(fields, key, value), other) == if other == key {
            Some(value)
        } else {
            field_in(fields, other)
        },
{
    lemma_first_field(fields, key);
    lemma_first_field(fields, other);
    let after = put_field(fields, key, value);
    assert forall|i: int, j: int|
        #![trigger after[i], after[j]]
        0 <= i < j < after.len() implies after[i].0 != after[j].0 by {
        if j < fields.len() {
            assert(fields[i].0 != fields[j].0);
        } else {
            assert(fields[i].0 != key);
        }
    }
    if other == key {
        match first_field(fields, key) {
            Some(i) => {
                lemma_field_in(after, key, i);
            },
            None => {
                lemma_field_in(after, key, fields.len() as int);
            },
        }
    } else {
        match first_field(fields, other) {
            Some(i) => {
                assert(after[i] == fields[i]);
                lemma_field_in(after, other, i);
                lemma_field_in(fields, other, i);
            },
            None => {
                assert forall|i: int| 0 <= i < after.len() implies (#[trigger] after[i]).0
                    != other by {
                    if i < fields.len() {
                        assert(fields[i].0 != other);
                    }
                }
                lemma_no_field(after, other);
                lemma_no_field(fields, other);
            },
        }
    }
}

proof fn lemma_put_all(fields: Seq<(Seq<char>, JsonView)>, key: Seq<char>)
    ensures
        keys_differ(put_all(fields)),
        field_in(put_all(fields), key) == field_in(fields, key),
    decreases fields.len(),
{
    if fields.len() > 0 {
        lemma_put_all(fields.drop_last(), key);
        lemma_put_field(put_all(fields.drop_last()), fields.last().0, fields.last().1, key);
    }
}

proof fn lemma_each_field(fields: Seq<(Seq<char>, JsonView)>, key: Seq<char>)
    ensures
        field_in(fields_one_per_key(fields), key) == match field_in(fields, key) {
            Some(value) => Some(one_per_key(value)),
            None => None,
        },
    decreases fields.len(),
{
    let each = fields_one_per_key(fields);
    if fields.len() > 0 {
        lemma_each_field(fields.drop_last(), key);
        assert(each.drop_last() =~= fields_one_per_key(fields.drop_last()));
        assert(each.last() == (fields.last().0, one_per_key(fields.last().1)));
    }
}

/// To reduce an object to one field per key changes no lookup: each key still gives its value.
pub proof fn rebuilding_keeps_lookups(value: JsonView, key: Seq<char>)
    ensures
        one_per_key(value).field(key) == match value.field(key) {
            Some(found) => Some(one_per_key(found)),
            None => None,
        },
{
    match value {
        JsonView::Object(fields) => {
            lemma_each_field(fields, key);
            lemma_put_all(fields_one_per_key(fields), key);
        },
        _ => {},
    }
}

} // verus!
