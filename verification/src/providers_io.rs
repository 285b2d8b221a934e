//! Changes to `config.toml` that the `/providers` panel asks for.
//!
//! Each change goes through a `toml_edit` document and keeps the section of a provider and the
//! failover order in step. What a change does not touch stays as the user wrote it, with its
//! comments and in its place. That is stated of the document; that `toml_edit` writes a document
//! out as it is held rests on `toml_edit`.
use crate::sampler_config::pair_texts;
use crate::text::{same_text, texts};
use crate::toml_doc::{
    around_kept, array_item, array_len, array_value, array_view, bool_item, document_form,
    document_item, document_slot, document_text, document_to_text, document_view, elements_kept,
    entries_of, explicit_table, form_at, form_with, form_without, integer_item, is_bare, is_table,
    is_table_like, item_array, item_array_mut, item_at, item_entry, item_form, item_or_insert,
    item_slot, item_table_mut, item_view, keys_of, lemma_with_key_holds, lemma_without_key,
    new_array, parse_document, push_text, replace_value, table_form, table_remove, table_slot,
    table_view, takes_keys, text_item, toml_form, toml_parsed, value_item, value_text, value_view,
    with_entries, with_item, with_key, without_key, write_value, writing_of, ItemForm, TomlItem,
};
use toml_edit::{Array, DocumentMut, Table, Value};
use vstd::prelude::*;
use vstd::string::*;

verus! {

/// What is written into one `[model.<name>]` section.
#[derive(Debug)]
pub struct ModelFields {
    pub base_url: String,
    /// None keeps the key that is there, except that a provider without need of a key has none.
    pub api_key: Option<String>,
    /// None keeps what is there.
    pub api_backend: Option<String>,
    pub model: String,
    /// The sampling temperature as a TOML number.
    pub temperature: Option<Value>,
    pub max_completion_tokens: Option<u32>,
    /// Needs no key, as a local server; written as `keyless = true`.
    pub keyless: bool,
    pub extra_headers: Vec<(String, String)>,
}

impl Default for ModelFields {
    fn default() -> (r: Self)
        ensures
            r.base_url@.len() == 0,
            r.api_key is None,
            r.api_backend is None,
            r.model@.len() == 0,
            r.temperature is None,
            r.max_completion_tokens is None,
            !r.keyless,
            r.extra_headers@.len() == 0,
    {
        ModelFields {
            base_url: String::new(),
            api_key: None,
            api_backend: None,
            model: String::new(),
            temperature: None,
            max_completion_tokens: None,
            keyless: false,
            extra_headers: Vec::new(),
        }
    }
}

/// Why a configuration cannot be changed.
#[derive(Debug, Clone, Copy, PartialEq, Eq, Structural)]
pub enum EditError {
    /// It is no TOML document.
    NotToml,
    /// Something that has to be a table is not.
    NotATable,
}

/// The texts as items.
pub open spec fn text_items(names: Seq<Seq<char>>) -> Seq<TomlItem> {
    Seq::new(names.len(), |i: int| TomlItem::Text(names[i]))
}

/// A table with the headers put into it, one after the other.
pub open spec fn with_header_items(
    table: Map<Seq<char>, TomlItem>,
    headers: Seq<(Seq<char>, Seq<char>)>,
) -> Map<Seq<char>, TomlItem>
    decreases headers.len(),
{
    if headers.len() == 0 {
        table
    } else {
        with_header_items(table, headers.drop_last()).insert(
            headers.last().0,
            TomlItem::Text(headers.last().1),
        )
    }
}

/// A table with what is written under a key, if anything is.
pub open spec fn with_written(
    table: Map<Seq<char>, TomlItem>,
    key: Seq<char>,
    written: Option<TomlItem>,
) -> Map<Seq<char>, TomlItem> {
    match written {
        Some(item) => with_item(table, key, item),
        None => table,
    }
}

/// What is written as the key of a provider. A provider without need of a key loses it; else no
/// key given keeps the one that is there.
pub open spec fn written_key(fields: ModelFields) -> Option<TomlItem> {
    match fields.api_key {
        Some(key) => Some(TomlItem::Text(key@)),
        None => if fields.keyless {
            Some(TomlItem::Nothing)
        } else {
            None
        },
    }
}

/// What is written as the protocol of a provider.
pub open spec fn written_backend(fields: ModelFields) -> Option<TomlItem> {
    match fields.api_backend {
        Some(backend) => Some(TomlItem::Text(backend@)),
        None => None,
    }
}

/// The temperature that a section is left with.
pub open spec fn written_temperature(fields: ModelFields) -> TomlItem {
    match fields.temperature {
        Some(t) => value_view(t),
        None => TomlItem::Nothing,
    }
}

/// The token limit that a section is left with.
pub open spec fn written_limit(fields: ModelFields) -> TomlItem {
    match fields.max_completion_tokens {
        Some(n) => TomlItem::Integer(n as i64),
        None => TomlItem::Nothing,
    }
}

/// The mark of a provider without a key that a section is left with.
pub open spec fn written_keyless(fields: ModelFields) -> TomlItem {
    if fields.keyless {
        TomlItem::Bool(true)
    } else {
        TomlItem::Nothing
    }
}

/// The headers that a section is left with: those given on top of those there, or none.
pub open spec fn written_headers(table: Map<Seq<char>, TomlItem>, fields: ModelFields) -> TomlItem {
    if fields.extra_headers@.len() == 0 {
        TomlItem::Nothing
    } else {
        TomlItem::Table(
            with_header_items(
                entries_of(item_at(table, "extra_headers"@)),
                pair_texts(fields.extra_headers@),
            ),
        )
    }
}

/// A section once the fields are written into it. Other keys stay.
pub open spec fn with_fields(
    table: Map<Seq<char>, TomlItem>,
    fields: ModelFields,
) -> Map<Seq<char>, TomlItem> {
    let t1 = with_item(table, "base_url"@, TomlItem::Text(fields.base_url@));
    let t2 = with_item(t1, "model"@, TomlItem::Text(fields.model@));
    let t3 = with_written(t2, "api_key"@, written_key(fields));
    let t4 = with_written(t3, "api_backend"@, written_backend(fields));
    let t5 = with_item(t4, "temperature"@, written_temperature(fields));
    let t6 = with_item(t5, "max_completion_tokens"@, written_limit(fields));
    let t7 = with_item(t6, "keyless"@, written_keyless(fields));
    with_item(t7, "extra_headers"@, written_headers(table, fields))
}

/// The section of a provider: an empty one if it is not there.
pub open spec fn section_of(root: Map<Seq<char>, TomlItem>, name: Seq<char>) -> Map<
    Seq<char>,
    TomlItem,
> {
    entries_of(item_at(entries_of(item_at(root, "model"@)), name))
}

/// Whether nothing is there, or a table with a header of its own.
pub open spec fn table_or_nothing(item: TomlItem) -> bool {
    item is Nothing || item is Table
}

/// Whether the section of a provider can be written: whatever has to be a table is one, or is not
/// there yet.
pub open spec fn section_writable(
    root: Map<Seq<char>, TomlItem>,
    name: Seq<char>,
    fields: ModelFields,
) -> bool {
    &&& table_or_nothing(item_at(root, "model"@))
    &&& table_or_nothing(item_at(entries_of(item_at(root, "model"@)), name))
    &&& fields.extra_headers@.len() > 0 ==> table_or_nothing(
        item_at(section_of(root, name), "extra_headers"@),
    )
}

/// A configuration once the section of a provider is written.
pub open spec fn with_section(
    root: Map<Seq<char>, TomlItem>,
    name: Seq<char>,
    fields: ModelFields,
) -> Map<Seq<char>, TomlItem> {
    let models = entries_of(item_at(root, "model"@));
    let section = TomlItem::Table(with_fields(section_of(root, name), fields));
    root.insert("model"@, TomlItem::Table(models.insert(name, section)))
}

/// The failover order, if there is a list.
pub open spec fn order_in(root: Map<Seq<char>, TomlItem>) -> TomlItem {
    item_at(entries_of(item_at(root, "failover"@)), "order"@)
}

/// The list with `name` in it, at the end if it is new. What is no list stays as it is, and a list
/// that is not there is made.
pub open spec fn order_with(order: TomlItem, name: Seq<char>) -> TomlItem {
    match order {
        TomlItem::Nothing => TomlItem::Array(seq![TomlItem::Text(name)]),
        TomlItem::Array(items) => if items.contains(TomlItem::Text(name)) {
            order
        } else {
            TomlItem::Array(items.push(TomlItem::Text(name)))
        },
        _ => order,
    }
}

/// A `[failover]` section that is not there yet is made with a header of its own.
pub open spec fn failover_made(failover: TomlItem) -> TomlItem {
    if failover is Nothing {
        TomlItem::Table(Map::empty())
    } else {
        failover
    }
}

/// A configuration with `name` in its failover order.
pub open spec fn with_name_in_order(root: Map<Seq<char>, TomlItem>, name: Seq<char>) -> Map<
    Seq<char>,
    TomlItem,
> {
    let failover = failover_made(item_at(root, "failover"@));
    root.insert(
        "failover"@,
        with_entries(
            failover,
            entries_of(failover).insert("order"@, order_with(order_in(root), name)),
        ),
    )
}

/// Whether a provider can be written into a configuration.
pub open spec fn can_upsert(
    root: Map<Seq<char>, TomlItem>,
    name: Seq<char>,
    fields: ModelFields,
) -> bool {
    section_writable(root, name, fields) && takes_keys(item_at(root, "failover"@))
}

/// A configuration once a provider is written into it.
pub open spec fn upserted(
    root: Map<Seq<char>, TomlItem>,
    name: Seq<char>,
    fields: ModelFields,
) -> Map<Seq<char>, TomlItem> {
    with_name_in_order(with_section(root, name, fields), name)
}

/// Whether nothing of a table changed under `key`, nor of how the key is written.
pub open spec fn same_entry(before: ItemForm, after: ItemForm, key: Seq<char>) -> bool {
    &&& form_at(after, key) == form_at(before, key)
    &&& writing_of(after, key) == writing_of(before, key)
}

/// Whether a key is written as before, and round its value stands what stood there.
pub open spec fn comments_kept(before: ItemForm, after: ItemForm, key: Seq<char>) -> bool {
    &&& writing_of(after, key) == writing_of(before, key)
    &&& around_kept(form_at(before, key), form_at(after, key))
}

/// Whether a table that was there is still written in its place with all that is round it.
pub open spec fn frame_kept(before: ItemForm, after: ItemForm) -> bool {
    &&& after is Keyed
    &&& before is Keyed ==> before->Keyed_frame == after->Keyed_frame
}

/// Whether all but `key` is written as before. The key itself keeps its place and its writing, and
/// comes last if it is new.
pub open spec fn only_touched(before: ItemForm, after: ItemForm, key: Seq<char>) -> bool {
    &&& frame_kept(before, after)
    &&& keys_of(after) == with_key(keys_of(before), key)
    &&& forall|k: Seq<char>| k != key ==> #[trigger] same_entry(before, after, k)
    &&& keys_of(before).contains(key) ==> writing_of(after, key) == writing_of(before, key)
}

/// The keys of a table once headers are put into it.
pub open spec fn keys_with_headers(
    keys: Seq<Seq<char>>,
    headers: Seq<(Seq<char>, Seq<char>)>,
) -> Seq<Seq<char>>
    decreases headers.len(),
{
    if headers.len() == 0 {
        keys
    } else {
        with_key(keys_with_headers(keys, headers.drop_last()), headers.last().0)
    }
}

/// Whether a header of the given name is among `headers`.
pub open spec fn names_one(headers: Seq<(Seq<char>, Seq<char>)>, name: Seq<char>) -> bool {
    exists|i: int| 0 <= i < headers.len() && (#[trigger] headers[i]).0 == name
}

/// Whether all but the given headers is written as before, and of those headers all but the value.
pub open spec fn headers_written(
    before: ItemForm,
    after: ItemForm,
    headers: Seq<(Seq<char>, Seq<char>)>,
) -> bool {
    &&& frame_kept(before, after)
    &&& keys_of(after) == keys_with_headers(keys_of(before), headers)
    &&& forall|k: Seq<char>| !names_one(headers, k) ==> #[trigger] same_entry(before, after, k)
    &&& forall|k: Seq<char>|
        keys_of(before).contains(k) ==> #[trigger] comments_kept(before, after, k)
}

/// Whether a section is written to under `key`.
pub open spec fn writes_key(fields: ModelFields, key: Seq<char>) -> bool {
    ||| key == "base_url"@
    ||| key == "model"@
    ||| key == "api_key"@ && written_key(fields) is Some
    ||| key == "api_backend"@ && written_backend(fields) is Some
    ||| key == "temperature"@
    ||| key == "max_completion_tokens"@
    ||| key == "keyless"@
    ||| key == "extra_headers"@
}

/// Whether a key is taken out of a section.
pub open spec fn drops_key(fields: ModelFields, key: Seq<char>) -> bool {
    ||| key == "api_key"@ && written_key(fields) == Some(TomlItem::Nothing)
    ||| key == "temperature"@ && fields.temperature is None
    ||| key == "max_completion_tokens"@ && fields.max_completion_tokens is None
    ||| key == "keyless"@ && !fields.keyless
    ||| key == "extra_headers"@ && fields.extra_headers@.len() == 0
}

/// Whether a key loses what is written round its value: it is taken out, or a table takes the place
/// of the value.
pub open spec fn loses_comments(fields: ModelFields, key: Seq<char>) -> bool {
    drops_key(fields, key) || key == "temperature"@ && written_temperature(fields) is Inline
}

/// Keys with `key` among them if it is wanted there, else without it.
pub open spec fn with_key_if(keys: Seq<Seq<char>>, key: Seq<char>, wanted: bool) -> Seq<Seq<char>> {
    if wanted {
        with_key(keys, key)
    } else {
        without_key(keys, key)
    }
}

/// The keys of a section once the fields are written into it: those that are there keep their
/// places, and new ones come last.
pub open spec fn keys_with_fields(keys: Seq<Seq<char>>, fields: ModelFields) -> Seq<Seq<char>> {
    let k2 = with_key(with_key(keys, "base_url"@), "model"@);
    let k3 = if written_key(fields) is Some {
        with_key_if(k2, "api_key"@, fields.api_key is Some)
    } else {
        k2
    };
    let k4 = if fields.api_backend is Some {
        with_key(k3, "api_backend"@)
    } else {
        k3
    };
    let k5 = with_key_if(k4, "temperature"@, fields.temperature is Some);
    let k6 = with_key_if(k5, "max_completion_tokens"@, fields.max_completion_tokens is Some);
    let k7 = with_key_if(k6, "keyless"@, fields.keyless);
    with_key_if(k7, "extra_headers"@, fields.extra_headers@.len() > 0)
}

/// Whether all of a section but the keys written to is written as before, and of those that were
/// there and stay all but the value.
pub open spec fn fields_written(before: ItemForm, after: ItemForm, fields: ModelFields) -> bool {
    &&& frame_kept(before, after)
    &&& keys_of(after) == keys_with_fields(keys_of(before), fields)
    &&& forall|k: Seq<char>| !writes_key(fields, k) ==> #[trigger] same_entry(before, after, k)
    &&& forall|k: Seq<char>|
        keys_of(before).contains(k) && !loses_comments(fields, k) ==> #[trigger] comments_kept(
            before,
            after,
            k,
        )
    &&& fields.extra_headers@.len() > 0 ==> headers_written(
        form_at(before, "extra_headers"@),
        form_at(after, "extra_headers"@),
        pair_texts(fields.extra_headers@),
    )
}

/// Whether all model sections but that of `name` are written as before, and of that one all but
/// the keys written to.
pub open spec fn models_written(
    before: ItemForm,
    after: ItemForm,
    name: Seq<char>,
    fields: ModelFields,
) -> bool {
    &&& only_touched(before, after, name)
    &&& fields_written(form_at(before, name), form_at(after, name), fields)
}

/// Whether all of the failover section but its order is written as before, and of the order the
/// names that it had.
pub open spec fn order_written(before: ItemForm, after: ItemForm) -> bool {
    &&& only_touched(before, after, "order"@)
    &&& form_at(before, "order"@) is Listed ==> elements_kept(
        form_at(before, "order"@),
        form_at(after, "order"@),
    ) || form_at(after, "order"@) == form_at(before, "order"@)
}

/// Whether all of a configuration that writing a provider does not touch is written as before.
pub open spec fn upsert_keeps_writing(
    before: ItemForm,
    after: ItemForm,
    name: Seq<char>,
    fields: ModelFields,
) -> bool {
    &&& frame_kept(before, after)
    &&& keys_of(after) == with_key(with_key(keys_of(before), "model"@), "failover"@)
    &&& forall|k: Seq<char>|
        k != "model"@ && k != "failover"@ ==> #[trigger] same_entry(before, after, k)
    &&& forall|k: Seq<char>| #[trigger]
        keys_of(before).contains(k) ==> writing_of(after, k) == writing_of(before, k)
    &&& models_written(form_at(before, "model"@), form_at(after, "model"@), name, fields)
    &&& order_written(form_at(before, "failover"@), form_at(after, "failover"@))
}

fn put_headers(table: &mut Table, headers: &Vec<(String, String)>)
    ensures
        table_view(*final(table)) == with_header_items(
            table_view(*old(table)),
            pair_texts(headers@),
        ),
        table_form(*old(table)) is Keyed ==> headers_written(
            table_form(*old(table)),
            table_form(*final(table)),
            pair_texts(headers@),
        ),
{
    let ghost all = pair_texts(headers@);
    let mut i: usize = 0;
    assert(all.take(0) =~= Seq::empty());
    while i < headers.len()
        invariant
            i <= headers@.len(),
            all == pair_texts(headers@),
            table_view(*table) == with_header_items(table_view(*old(table)), all.take(i as int)),
            table_form(*old(table)) is Keyed ==> headers_written(
                table_form(*old(table)),
                table_form(*table),
                all.take(i as int),
            ),
            table_form(*old(table)) is Keyed ==> forall|k: Seq<char>| #[trigger]
                keys_of(table_form(*old(table))).contains(k) ==> keys_of(
                    table_form(*table),
                ).contains(k),
        decreases headers@.len() - i,
    {
        let ghost form = table_form(*table);
        write_value(table, headers[i].0.as_str(), text_item(headers[i].1.as_str()));
        i = i + 1;
        assert(all.take(i as int).drop_last() =~= all.take(i - 1));
        assert(all.take(i as int).last() == all[i - 1]);
        proof {
            let now = all.take(i as int);
            assert forall|k: Seq<char>| !names_one(now, k) && table_form(
                *old(table),
            ) is Keyed implies #[trigger] same_entry(
                table_form(*old(table)),
                table_form(*table),
                k,
            ) by {
                assert(now[i - 1].0 != k);
                assert(!names_one(all.take(i - 1), k)) by {
                    if names_one(all.take(i - 1), k) {
                        let j = choose|j: int|
                            0 <= j < i - 1 && (#[trigger] all.take(i - 1)[j]).0 == k;
                        assert(now[j].0 == k);
                    }
                }
                assert(same_entry(table_form(*old(table)), form, k));
            }
            let start = table_form(*old(table));
            if start is Keyed {
                let name = headers@[i - 1].0@;
                assert forall|k: Seq<char>| #[trigger] keys_of(start).contains(k) implies keys_of(
                    table_form(*table),
                ).contains(k) by {
                    assert(keys_of(form).contains(k));
                    lemma_with_key_holds(keys_of(form), name, k);
                }
                assert forall|k: Seq<char>| keys_of(start).contains(k) implies #[trigger]
                    comments_kept(start, table_form(*table), k) by {
                    assert(comments_kept(start, form, k));
                    assert(keys_of(form).contains(k));
                }
            }
        }
    }
    assert(all.take(headers@.len() as int) =~= all);
}

/// What one step does to how a section is written, where `gone` says that the key may lose what is
/// written of it.
#[verifier::opaque]
spec fn step_kept(before: ItemForm, after: ItemForm, key: Seq<char>, gone: bool) -> bool {
    &&& before is Keyed
    &&& after is Keyed
    &&& before->Keyed_frame == after->Keyed_frame
    &&& forall|k: Seq<char>| k != key ==> #[trigger] same_entry(before, after, k)
    &&& forall|k: Seq<char>|
        #[trigger] keys_of(before).contains(k) && !(k == key && gone) ==> keys_of(
            after,
        ).contains(k) && comments_kept(before, after, k)
}

proof fn lemma_written_step(before: ItemForm, after: ItemForm, key: Seq<char>, gone: bool)
    requires
        before is Keyed,
        after == form_with(before, key, form_at(after, key)),
        !gone ==> around_kept(form_at(before, key), form_at(after, key)),
    ensures
        step_kept(before, after, key, gone),
        keys_of(after) == with_key(keys_of(before), key),
{
    reveal(step_kept);
    assert forall|k: Seq<char>| #[trigger]
        keys_of(before).contains(k) && !(k == key && gone) implies keys_of(after).contains(k)
        && comments_kept(before, after, k) by {
        lemma_with_key_holds(keys_of(before), key, k);
    }
}

proof fn lemma_dropped_step(before: ItemForm, after: ItemForm, key: Seq<char>)
    requires
        before is Keyed,
        after == form_without(before, key),
    ensures
        step_kept(before, after, key, true),
        keys_of(after) == without_key(keys_of(before), key),
{
    reveal(step_kept);
    assert forall|k: Seq<char>| #[trigger] keys_of(before).contains(k) && k != key implies keys_of(
        after,
    ).contains(k) && comments_kept(before, after, k) by {
        lemma_without_key(keys_of(before), key, k);
    }
}

proof fn lemma_step_at(before: ItemForm, after: ItemForm, key: Seq<char>, gone: bool, k: Seq<char>)
    requires
        step_kept(before, after, key, gone),
    ensures
        before is Keyed,
        after is Keyed,
        before->Keyed_frame == after->Keyed_frame,
        k != key ==> same_entry(before, after, k),
        keys_of(before).contains(k) && !(k == key && gone) ==> keys_of(after).contains(k)
            && comments_kept(before, after, k),
{
    reveal(step_kept);
    assert(k != key ==> same_entry(before, after, k));
    if keys_of(before).contains(k) && !(k == key && gone) {
        assert(keys_of(after).contains(k) && comments_kept(before, after, k));
    }
}

fn put_fields(table: &mut Table, fields: &ModelFields)
    requires
        fields.extra_headers@.len() > 0 ==> table_or_nothing(
            item_at(table_view(*old(table)), "extra_headers"@),
        ),
        table_form(*old(table)) is Keyed,
    ensures
        table_view(*final(table)) == with_fields(table_view(*old(table)), *fields),
        fields_written(table_form(*old(table)), table_form(*final(table)), *fields),
{
    let ghost t0 = table_view(*table);
    let ghost f0 = table_form(*table);
    proof {
        lemma_field_names();
    }
    write_value(table, "base_url", text_item(fields.base_url.as_str()));
    let ghost f1 = table_form(*table);
    proof {
        lemma_written_step(f0, f1, "base_url"@, false);
    }
    write_value(table, "model", text_item(fields.model.as_str()));
    let ghost f2 = table_form(*table);
    proof {
        lemma_written_step(f1, f2, "model"@, false);
    }
    match &fields.api_key {
        Some(key) => {
            write_value(table, "api_key", text_item(key.as_str()));
            proof {
                lemma_written_step(f2, table_form(*table), "api_key"@, false);
            }
        },
        None => {
            if fields.keyless {
                table_remove(table, "api_key");
                proof {
                    lemma_dropped_step(f2, table_form(*table), "api_key"@);
                }
            }
        },
    }
    let ghost f3 = table_form(*table);
    match &fields.api_backend {
        Some(backend) => {
            write_value(table, "api_backend", text_item(backend.as_str()));
            proof {
                lemma_written_step(f3, table_form(*table), "api_backend"@, false);
            }
        },
        None => {},
    }
    let ghost f4 = table_form(*table);
    match &fields.temperature {
        Some(t) => {
            write_value(table, "temperature", value_item(t));
            proof {
                lemma_written_step(
                    f4,
                    table_form(*table),
                    "temperature"@,
                    written_temperature(*fields) is Inline,
                );
            }
        },
        None => {
            table_remove(table, "temperature");
            proof {
                lemma_dropped_step(f4, table_form(*table), "temperature"@);
            }
        },
    }
    let ghost f5 = table_form(*table);
    match fields.max_completion_tokens {
        Some(n) => {
            write_value(table, "max_completion_tokens", integer_item(n as i64));
            proof {
                lemma_written_step(f5, table_form(*table), "max_completion_tokens"@, false);
            }
        },
        None => {
            table_remove(table, "max_completion_tokens");
            proof {
                lemma_dropped_step(f5, table_form(*table), "max_completion_tokens"@);
            }
        },
    }
    let ghost f6 = table_form(*table);
    if fields.keyless {
        write_value(table, "keyless", bool_item(true));
        proof {
            lemma_written_step(f6, table_form(*table), "keyless"@, false);
        }
    } else {
        table_remove(table, "keyless");
        proof {
            lemma_dropped_step(f6, table_form(*table), "keyless"@);
        }
    }
    let ghost t7 = table_view(*table);
    let ghost f7 = table_form(*table);
    assert(item_at(t7, "extra_headers"@) == item_at(t0, "extra_headers"@));
    assert(f7 is Keyed) by {
        reveal(step_kept);
    }
    put_extra_headers(table, fields);
    proof {
        let f8 = table_form(*table);
        lemma_fields_written(*fields, f0, f1, f2, f3, f4, f5, f6, f7, f8);
    }
}

fn put_extra_headers(table: &mut Table, fields: &ModelFields)
    requires
        fields.extra_headers@.len() > 0 ==> table_or_nothing(
            item_at(table_view(*old(table)), "extra_headers"@),
        ),
        table_form(*old(table)) is Keyed,
    ensures
        table_view(*final(table)) == with_item(
            table_view(*old(table)),
            "extra_headers"@,
            written_headers(table_view(*old(table)), *fields),
        ),
        step_kept(
            table_form(*old(table)),
            table_form(*final(table)),
            "extra_headers"@,
            fields.extra_headers@.len() == 0,
        ),
        keys_of(table_form(*final(table))) == with_key_if(
            keys_of(table_form(*old(table))),
            "extra_headers"@,
            fields.extra_headers@.len() > 0,
        ),
        fields.extra_headers@.len() > 0 ==> headers_written(
            form_at(table_form(*old(table)), "extra_headers"@),
            form_at(table_form(*final(table)), "extra_headers"@),
            pair_texts(fields.extra_headers@),
        ),
{
    let ghost before = table_form(*table);
    if fields.extra_headers.len() == 0 {
        table_remove(table, "extra_headers");
        proof {
            lemma_dropped_step(before, table_form(*table), "extra_headers"@);
        }
    } else {
        let headers = item_or_insert(table_slot(table, "extra_headers"), explicit_table());
        match item_table_mut(headers) {
            Some(headers) => {
                let ghost start = table_form(*headers);
                put_headers(headers, &fields.extra_headers);
                proof {
                    if form_at(before, "extra_headers"@) is Absent {
                        lemma_bare_headers(
                            start,
                            table_form(*headers),
                            pair_texts(fields.extra_headers@),
                        );
                    }
                }
            },
            None => {},
        }
        proof {
            lemma_written_step(before, table_form(*table), "extra_headers"@, false);
        }
    }
}

proof fn lemma_fields_at(
    fields: ModelFields,
    f0: ItemForm,
    f1: ItemForm,
    f2: ItemForm,
    f3: ItemForm,
    f4: ItemForm,
    f5: ItemForm,
    f6: ItemForm,
    f7: ItemForm,
    f8: ItemForm,
    k: Seq<char>,
)
    requires
        step_kept(f0, f1, "base_url"@, false),
        step_kept(f1, f2, "model"@, false),
        if written_key(fields) is Some {
            step_kept(f2, f3, "api_key"@, fields.api_key is None)
        } else {
            f3 == f2
        },
        if fields.api_backend is Some {
            step_kept(f3, f4, "api_backend"@, false)
        } else {
            f4 == f3
        },
        step_kept(
            f4,
            f5,
            "temperature"@,
            fields.temperature is None || written_temperature(fields) is Inline,
        ),
        step_kept(
            f5,
            f6,
            "max_completion_tokens"@,
            fields.max_completion_tokens is None,
        ),
        step_kept(f6, f7, "keyless"@, !fields.keyless),
        step_kept(f7, f8, "extra_headers"@, fields.extra_headers@.len() == 0),
    ensures
        f8 is Keyed,
        f0->Keyed_frame == f8->Keyed_frame,
        !writes_key(fields, k) ==> same_entry(f0, f8, k),
        k == "extra_headers"@ ==> form_at(f7, k) == form_at(f0, k),
        keys_of(f0).contains(k) && !loses_comments(fields, k) ==> comments_kept(f0, f8, k),
{
    lemma_field_names();
    lemma_step_at(f0, f1, "base_url"@, false, k);
    lemma_step_at(f1, f2, "model"@, false, k);
    if written_key(fields) is Some {
        lemma_step_at(f2, f3, "api_key"@, fields.api_key is None, k);
    }
    if fields.api_backend is Some {
        lemma_step_at(f3, f4, "api_backend"@, false, k);
    }
    lemma_step_at(
        f4,
        f5,
        "temperature"@,
        fields.temperature is None || written_temperature(fields) is Inline,
        k,
    );
    lemma_step_at(f5, f6, "max_completion_tokens"@, fields.max_completion_tokens is None, k);
    lemma_step_at(f6, f7, "keyless"@, !fields.keyless, k);
    lemma_step_at(f7, f8, "extra_headers"@, fields.extra_headers@.len() == 0, k);
}

proof fn lemma_fields_written(
    fields: ModelFields,
    f0: ItemForm,
    f1: ItemForm,
    f2: ItemForm,
    f3: ItemForm,
    f4: ItemForm,
    f5: ItemForm,
    f6: ItemForm,
    f7: ItemForm,
    f8: ItemForm,
)
    requires
        step_kept(f0, f1, "base_url"@, false),
        step_kept(f1, f2, "model"@, false),
        if written_key(fields) is Some {
            step_kept(f2, f3, "api_key"@, fields.api_key is None)
        } else {
            f3 == f2
        },
        if fields.api_backend is Some {
            step_kept(f3, f4, "api_backend"@, false)
        } else {
            f4 == f3
        },
        step_kept(
            f4,
            f5,
            "temperature"@,
            fields.temperature is None || written_temperature(fields) is Inline,
        ),
        step_kept(
            f5,
            f6,
            "max_completion_tokens"@,
            fields.max_completion_tokens is None,
        ),
        step_kept(f6, f7, "keyless"@, !fields.keyless),
        step_kept(f7, f8, "extra_headers"@, fields.extra_headers@.len() == 0),
        keys_of(f8) == keys_with_fields(keys_of(f0), fields),
        fields.extra_headers@.len() > 0 ==> headers_written(
            form_at(f7, "extra_headers"@),
            form_at(f8, "extra_headers"@),
            pair_texts(fields.extra_headers@),
        ),
    ensures
        fields_written(f0, f8, fields),
{
    lemma_field_names();
    lemma_fields_at(fields, f0, f1, f2, f3, f4, f5, f6, f7, f8, "extra_headers"@);
    assert forall|k: Seq<char>| !writes_key(fields, k) implies #[trigger] same_entry(f0, f8, k) by {
        lemma_fields_at(fields, f0, f1, f2, f3, f4, f5, f6, f7, f8, k);
    }
    assert forall|k: Seq<char>|
        keys_of(f0).contains(k) && !loses_comments(fields, k) implies #[trigger] comments_kept(
        f0,
        f8,
        k,
    ) by {
        lemma_fields_at(fields, f0, f1, f2, f3, f4, f5, f6, f7, f8, k);
    }
}

proof fn lemma_with_touches_one(before: ItemForm, after: ItemForm, key: Seq<char>)
    requires
        before is Keyed,
        exists|item: ItemForm| after == #[trigger] form_with(before, key, item),
    ensures
        only_touched(before, after, key),
{
    let item = choose|item: ItemForm| after == #[trigger] form_with(before, key, item);
    assert forall|k: Seq<char>| k != key implies #[trigger] same_entry(before, after, k) by {}
}

proof fn lemma_bare_fields(bare: ItemForm, after: ItemForm, fields: ModelFields)
    requires
        is_bare(bare),
        fields_written(bare, after, fields),
    ensures
        fields_written(ItemForm::Absent, after, fields),
{
    assert(keys_of(bare) =~= keys_of(ItemForm::Absent));
    assert forall|k: Seq<char>| !writes_key(fields, k) implies #[trigger] same_entry(
        ItemForm::Absent,
        after,
        k,
    ) by {
        assert(same_entry(bare, after, k));
    }
}

proof fn lemma_bare_touched(bare: ItemForm, after: ItemForm, key: Seq<char>)
    requires
        is_bare(bare),
        only_touched(bare, after, key),
    ensures
        only_touched(ItemForm::Absent, after, key),
{
    assert(keys_of(bare) =~= keys_of(ItemForm::Absent));
    assert forall|k: Seq<char>| k != key implies #[trigger] same_entry(
        ItemForm::Absent,
        after,
        k,
    ) by {
        assert(same_entry(bare, after, k));
    }
}

proof fn lemma_bare_models(bare: ItemForm, after: ItemForm, name: Seq<char>, fields: ModelFields)
    requires
        is_bare(bare),
        models_written(bare, after, name, fields),
    ensures
        models_written(ItemForm::Absent, after, name, fields),
{
    lemma_bare_touched(bare, after, name);
}

proof fn lemma_bare_headers(
    bare: ItemForm,
    after: ItemForm,
    headers: Seq<(Seq<char>, Seq<char>)>,
)
    requires
        is_bare(bare),
        headers_written(bare, after, headers),
    ensures
        headers_written(ItemForm::Absent, after, headers),
{
    assert(keys_of(bare) =~= keys_of(ItemForm::Absent));
    assert forall|k: Seq<char>| !names_one(headers, k) implies #[trigger] same_entry(
        ItemForm::Absent,
        after,
        k,
    ) by {
        assert(same_entry(bare, after, k));
    }
}

pub(crate) proof fn lemma_field_names()
    ensures
        "api_key"@ != "base_url"@,
        "api_key"@ != "model"@,
        "api_backend"@ != "base_url"@,
        "api_backend"@ != "model"@,
        "api_backend"@ != "api_key"@,
        "extra_headers"@ != "base_url"@,
        "extra_headers"@ != "model"@,
        "extra_headers"@ != "api_key"@,
        "extra_headers"@ != "api_backend"@,
        "extra_headers"@ != "temperature"@,
        "extra_headers"@ != "max_completion_tokens"@,
        "extra_headers"@ != "keyless"@,
        "model"@ != "base_url"@,
        "temperature"@ != "base_url"@,
        "temperature"@ != "model"@,
        "temperature"@ != "api_key"@,
        "temperature"@ != "api_backend"@,
        "keyless"@ != "base_url"@,
        "keyless"@ != "model"@,
        "keyless"@ != "api_key"@,
        "keyless"@ != "api_backend"@,
        "keyless"@ != "temperature"@,
        "max_completion_tokens"@ != "base_url"@,
        "max_completion_tokens"@ != "model"@,
        "max_completion_tokens"@ != "api_key"@,
        "max_completion_tokens"@ != "api_backend"@,
        "max_completion_tokens"@ != "temperature"@,
        "max_completion_tokens"@ != "keyless"@,
        "model"@ != "failover"@,
{
    reveal_strlit("base_url");
    reveal_strlit("model");
    reveal_strlit("api_key");
    reveal_strlit("api_backend");
    reveal_strlit("temperature");
    reveal_strlit("max_completion_tokens");
    reveal_strlit("keyless");
    reveal_strlit("extra_headers");
    reveal_strlit("failover");
    assert("base_url"@.len() == 8);
    assert("model"@.len() == 5);
    assert("api_key"@.len() == 7);
    assert("api_backend"@.len() == 11);
    assert("temperature"@.len() == 11);
    assert("max_completion_tokens"@.len() == 21);
    assert("keyless"@.len() == 7);
    assert("extra_headers"@.len() == 13);
    assert("failover"@.len() == 8);
    assert("api_key"@[0] != "keyless"@[0]);
    assert("base_url"@[0] != "failover"@[0]);
    assert("api_backend"@[0] != "temperature"@[0]);
}

fn put_section(doc: &mut DocumentMut, name: &str, fields: &ModelFields)
    requires
        document_view(*old(doc)) is Table,
        section_writable(entries_of(document_view(*old(doc))), name@, *fields),
    ensures
        document_view(*final(doc)) == TomlItem::Table(
            with_section(entries_of(document_view(*old(doc))), name@, *fields),
        ),
        only_touched(document_form(*old(doc)), document_form(*final(doc)), "model"@),
        models_written(
            form_at(document_form(*old(doc)), "model"@),
            form_at(document_form(*final(doc)), "model"@),
            name@,
            *fields,
        ),
{
    let ghost before = document_form(*doc);
    let models = item_or_insert(document_slot(doc, "model"), explicit_table());
    match item_table_mut(models) {
        Some(models) => {
            let ghost models_before = table_form(*models);
            let section = item_or_insert(table_slot(models, name), explicit_table());
            match item_table_mut(section) {
                Some(section) => {
                    let ghost section_before = table_form(*section);
                    put_fields(section, fields);
                    proof {
                        if form_at(models_before, name@) is Absent {
                            lemma_bare_fields(section_before, table_form(*section), *fields);
                        }
                    }
                },
                None => {},
            }
            proof {
                lemma_with_touches_one(models_before, table_form(*models), name@);
                if form_at(before, "model"@) is Absent {
                    lemma_bare_models(models_before, table_form(*models), name@, *fields);
                }
            }
        },
        None => {},
    }
    proof {
        lemma_with_touches_one(before, document_form(*doc), "model"@);
    }
}

/// Whether an array holds a text.
fn array_has(array: &Array, name: &str) -> (r: bool)
    ensures
        r == array_view(*array).contains(TomlItem::Text(name@)),
{
    let n: usize = array_len(array);
    let ghost items = array_view(*array);
    let mut i: usize = 0;
    while i < n
        invariant
            i <= n,
            n == items.len(),
            items == array_view(*array),
            forall|k: int| 0 <= k < i ==> #[trigger] items[k] != TomlItem::Text(name@),
        decreases n - i,
    {
        match array_value(array, i) {
            Some(value) => match value_text(value) {
                Some(text) => {
                    if same_text(text, name) {
                        assert(items[i as int] == TomlItem::Text(name@));
                        return true;
                    }
                },
                None => {},
            },
            None => {},
        }
        i = i + 1;
    }
    false
}

fn order_append(doc: &mut DocumentMut, name: &str)
    requires
        document_view(*old(doc)) is Table,
        takes_keys(item_at(entries_of(document_view(*old(doc))), "failover"@)),
    ensures
        document_view(*final(doc)) == TomlItem::Table(
            with_name_in_order(entries_of(document_view(*old(doc))), name@),
        ),
        only_touched(document_form(*old(doc)), document_form(*final(doc)), "failover"@),
        order_written(
            form_at(document_form(*old(doc)), "failover"@),
            form_at(document_form(*final(doc)), "failover"@),
        ),
{
    let ghost before = document_form(*doc);
    let failover = item_or_insert(document_slot(doc, "failover"), explicit_table());
    let ghost failover_before = item_form(*failover);
    let order = item_or_insert(item_slot(failover, "order"), array_item(new_array()));
    match item_array_mut(order) {
        Some(array) => {
            if !array_has(array, name) {
                push_text(array, name);
            }
            assert(Seq::<TomlItem>::empty().push(TomlItem::Text(name@)) =~= seq![
                TomlItem::Text(name@),
            ]);
        },
        None => {},
    }
    proof {
        let after = form_at(document_form(*doc), "failover"@);
        lemma_with_touches_one(before, document_form(*doc), "failover"@);
        lemma_with_touches_one(failover_before, after, "order"@);
        if form_at(before, "failover"@) is Absent {
            lemma_bare_touched(failover_before, after, "order"@);
        }
    }
}

/// Writes a provider into a document: its section, and its name at the end of the failover order
/// if it is not there yet.
pub fn upsert_in_document(doc: &mut DocumentMut, name: &str, fields: &ModelFields)
    requires
        document_view(*old(doc)) is Table,
        can_upsert(entries_of(document_view(*old(doc))), name@, *fields),
    ensures
        document_view(*final(doc)) == TomlItem::Table(
            upserted(entries_of(document_view(*old(doc))), name@, *fields),
        ),
        upsert_keeps_writing(
            document_form(*old(doc)),
            document_form(*final(doc)),
            name@,
            *fields,
        ),
{
    proof {
        lemma_field_names();
    }
    let ghost f0 = document_form(*doc);
    put_section(doc, name, fields);
    let ghost f1 = document_form(*doc);
    order_append(doc, name);
    proof {
        let f2 = document_form(*doc);
        assert forall|k: Seq<char>| k != "model"@ && k != "failover"@ implies #[trigger] same_entry(
            f0,
            f2,
            k,
        ) by {
            assert(same_entry(f0, f1, k));
            assert(same_entry(f1, f2, k));
        }
        assert(same_entry(f0, f1, "failover"@));
        assert(same_entry(f1, f2, "model"@));
        assert forall|k: Seq<char>| #[trigger] keys_of(f0).contains(k) implies writing_of(f2, k)
            == writing_of(f0, k) by {
            assert(same_entry(f0, f1, k) || k == "model"@);
            assert(same_entry(f1, f2, k) || k == "failover"@);
            assert(keys_of(f1).contains(k)) by {
                let i = choose|i: int| 0 <= i < keys_of(f0).len() && keys_of(f0)[i] == k;
                assert(keys_of(f1)[i] == k);
            }
        }
    }
}

/// The texts of a list other than `name`; what is no text is left out.
pub open spec fn texts_without(items: Seq<TomlItem>, name: Seq<char>) -> Seq<TomlItem>
    decreases items.len(),
{
    if items.len() == 0 {
        Seq::empty()
    } else {
        let before = texts_without(items.drop_last(), name);
        if items.last() is Text && items.last() != TomlItem::Text(name) {
            before.push(items.last())
        } else {
            before
        }
    }
}

/// A configuration without `name` in its failover order. Where it is not there nothing changes.
pub open spec fn without_name_in_order(root: Map<Seq<char>, TomlItem>, name: Seq<char>) -> Map<
    Seq<char>,
    TomlItem,
> {
    match order_in(root) {
        TomlItem::Array(items) => if items.contains(TomlItem::Text(name)) {
            with_order(root, TomlItem::Array(texts_without(items, name)))
        } else {
            root
        },
        _ => root,
    }
}

/// A configuration with another failover order. A section that is not there yet is written inline.
pub open spec fn with_order(root: Map<Seq<char>, TomlItem>, order: TomlItem) -> Map<
    Seq<char>,
    TomlItem,
> {
    let failover = item_at(root, "failover"@);
    root.insert(
        "failover"@,
        with_entries(failover, entries_of(failover).insert("order"@, order)),
    )
}

/// A configuration without the section of a provider.
pub open spec fn without_section(root: Map<Seq<char>, TomlItem>, name: Seq<char>) -> Map<
    Seq<char>,
    TomlItem,
> {
    match item_at(root, "model"@) {
        TomlItem::Table(models) => root.insert("model"@, TomlItem::Table(models.remove(name))),
        _ => root,
    }
}

/// A configuration without a provider.
pub open spec fn removed(root: Map<Seq<char>, TomlItem>, name: Seq<char>) -> Map<
    Seq<char>,
    TomlItem,
> {
    without_section(without_name_in_order(root, name), name)
}

/// Whether all of a configuration but the list that is its failover order is written as before, and
/// round the list stands what stood there.
pub open spec fn order_replaced(before: ItemForm, after: ItemForm) -> bool {
    &&& only_touched(before, after, "failover"@)
    &&& list_replaced(form_at(before, "failover"@), form_at(after, "failover"@))
}

/// Whether all of a failover section but the list that is its order is written as before.
pub open spec fn list_replaced(before: ItemForm, after: ItemForm) -> bool {
    &&& only_touched(before, after, "order"@)
    &&& around_kept(form_at(before, "order"@), form_at(after, "order"@))
}

/// Whether the failover order of a configuration holds `name`.
pub open spec fn order_names(root: Map<Seq<char>, TomlItem>, name: Seq<char>) -> bool {
    order_in(root) matches TomlItem::Array(items) && items.contains(TomlItem::Text(name))
}

/// Whether all of a configuration that removing a provider does not touch is written as before:
/// only the section goes, and the order is written anew only where it held the name.
pub open spec fn remove_keeps_writing(
    root: Map<Seq<char>, TomlItem>,
    before: ItemForm,
    after: ItemForm,
    name: Seq<char>,
) -> bool {
    &&& frame_kept(before, after)
    &&& keys_of(after) == keys_of(before)
    &&& forall|k: Seq<char>|
        k != "model"@ && k != "failover"@ ==> #[trigger] same_entry(before, after, k)
    &&& writing_of(after, "model"@) == writing_of(before, "model"@)
    &&& writing_of(after, "failover"@) == writing_of(before, "failover"@)
    &&& form_at(after, "model"@) == if item_at(root, "model"@) is Table {
        form_without(form_at(before, "model"@), name)
    } else {
        form_at(before, "model"@)
    }
    &&& if order_names(root, name) {
        list_replaced(form_at(before, "failover"@), form_at(after, "failover"@))
    } else {
        form_at(after, "failover"@) == form_at(before, "failover"@)
    }
}

fn texts_but(array: &Array, name: &str) -> (kept: Array)
    ensures
        array_view(kept) == texts_without(array_view(*array), name@),
{
    let n: usize = array_len(array);
    let ghost items = array_view(*array);
    let mut kept = new_array();
    let mut i: usize = 0;
    assert(items.take(0) =~= Seq::empty());
    while i < n
        invariant
            i <= n,
            n == items.len(),
            items == array_view(*array),
            array_view(kept) == texts_without(items.take(i as int), name@),
        decreases n - i,
    {
        proof {
            assert(items.take(i + 1).drop_last() =~= items.take(i as int));
            assert(items.take(i + 1).last() == items[i as int]);
        }
        match array_value(array, i) {
            Some(value) => match value_text(value) {
                Some(text) => {
                    if !same_text(text, name) {
                        push_text(&mut kept, text);
                    }
                },
                None => {},
            },
            None => {},
        }
        i = i + 1;
    }
    assert(items.take(n as int) =~= items);
    kept
}

fn set_order(doc: &mut DocumentMut, order: Array)
    requires
        document_view(*old(doc)) is Table,
        takes_keys(item_at(entries_of(document_view(*old(doc))), "failover"@)),
    ensures
        document_view(*final(doc)) == TomlItem::Table(
            with_order(
                entries_of(document_view(*old(doc))),
                TomlItem::Array(array_view(order)),
            ),
        ),
        order_replaced(document_form(*old(doc)), document_form(*final(doc))),
{
    let ghost before = document_form(*doc);
    let failover = document_slot(doc, "failover");
    let ghost absent = item_view(*failover) is Nothing;
    let slot = item_slot(failover, "order");
    replace_value(slot, array_item(order));
    proof {
        let after = form_at(document_form(*doc), "failover"@);
        lemma_with_touches_one(before, document_form(*doc), "failover"@);
        if absent {
            let bare = choose|bare: ItemForm| #[trigger]
                is_bare(bare) && exists|item: ItemForm| after == #[trigger] form_with(
                    bare,
                    "order"@,
                    item,
                );
            lemma_with_touches_one(bare, after, "order"@);
            lemma_bare_touched(bare, after, "order"@);
        } else {
            lemma_with_touches_one(form_at(before, "failover"@), after, "order"@);
        }
    }
}

fn order_remove(doc: &mut DocumentMut, name: &str)
    requires
        document_view(*old(doc)) is Table,
    ensures
        document_view(*final(doc)) == TomlItem::Table(
            without_name_in_order(entries_of(document_view(*old(doc))), name@),
        ),
        if order_names(entries_of(document_view(*old(doc))), name@) {
            &&& order_replaced(document_form(*old(doc)), document_form(*final(doc)))
            &&& keys_of(document_form(*old(doc))).contains("failover"@)
        } else {
            document_form(*final(doc)) == document_form(*old(doc))
        },
{
    let kept = match document_item(doc, "failover") {
        Some(failover) => match item_entry(failover, "order") {
            Some(order) => match item_array(order) {
                Some(array) => if array_has(array, name) {
                    Some(texts_but(array, name))
                } else {
                    None
                },
                None => None,
            },
            None => None,
        },
        None => None,
    };
    match kept {
        Some(kept) => {
            set_order(doc, kept);
        },
        None => {},
    }
}

/// Takes a provider out of a document: its section and its name in the failover order. What is not
/// there is left as it is.
pub fn remove_from_document(doc: &mut DocumentMut, name: &str)
    requires
        document_view(*old(doc)) is Table,
    ensures
        document_view(*final(doc)) == TomlItem::Table(
            removed(entries_of(document_view(*old(doc))), name@),
        ),
        document_form(*old(doc)) is Keyed ==> remove_keeps_writing(
            entries_of(document_view(*old(doc))),
            document_form(*old(doc)),
            document_form(*final(doc)),
            name@,
        ),
{
    proof {
        lemma_field_names();
    }
    let ghost f0 = document_form(*doc);
    let ghost root0 = entries_of(document_view(*doc));
    order_remove(doc, name);
    let ghost root = entries_of(document_view(*doc));
    let ghost f1 = document_form(*doc);
    assert(item_at(root, "model"@) == item_at(root0, "model"@));
    if document_item(doc, "model").is_some() {
        match item_table_mut(document_slot(doc, "model")) {
            Some(models) => {
                table_remove(models, name);
            },
            None => {},
        }
        assert(entries_of(document_view(*doc)) =~= without_section(root, name@));
        proof {
            lemma_with_touches_one(f1, document_form(*doc), "model"@);
        }
    }
    proof {
        let f2 = document_form(*doc);
        if f0 is Keyed {
            assert forall|k: Seq<char>|
                k != "model"@ && k != "failover"@ implies #[trigger] same_entry(f0, f2, k) by {
                assert(same_entry(f0, f1, k));
                assert(same_entry(f1, f2, k));
            }
            assert(same_entry(f0, f1, "model"@));
            assert(same_entry(f1, f2, "failover"@));
        }
    }
}

fn order_array(order: &Vec<String>) -> (array: Array)
    ensures
        array_view(array) == text_items(texts(order@)),
{
    let mut array = new_array();
    let mut i: usize = 0;
    while i < order.len()
        invariant
            i <= order@.len(),
            array_view(array) == text_items(texts(order@)).take(i as int),
        decreases order@.len() - i,
    {
        push_text(&mut array, order[i].as_str());
        i = i + 1;
        assert(array_view(array) =~= text_items(texts(order@)).take(i as int));
    }
    assert(text_items(texts(order@)).take(order@.len() as int) =~= text_items(texts(order@)));
    array
}

/// A configuration with `order` as its failover order, just as it is.
pub open spec fn reordered(root: Map<Seq<char>, TomlItem>, order: Seq<Seq<char>>) -> Map<
    Seq<char>,
    TomlItem,
> {
    with_order(root, TomlItem::Array(text_items(order)))
}

/// Replaces the failover order of a document.
pub fn reorder_document(doc: &mut DocumentMut, order: &Vec<String>)
    requires
        document_view(*old(doc)) is Table,
        takes_keys(item_at(entries_of(document_view(*old(doc))), "failover"@)),
    ensures
        document_view(*final(doc)) == TomlItem::Table(
            reordered(entries_of(document_view(*old(doc))), texts(order@)),
        ),
        order_replaced(document_form(*old(doc)), document_form(*final(doc))),
{
    set_order(doc, order_array(order));
}

/// Whether `text` is the document `doc` written out, and it says `root`.
pub open spec fn writes_out(
    doc: DocumentMut,
    text: Seq<char>,
    root: Map<Seq<char>, TomlItem>,
) -> bool {
    document_view(doc) == TomlItem::Table(root) && text == document_text(doc)
}

/// Whether `text` is a configuration `raw` with a provider written into it, all else being written
/// as it was.
pub open spec fn is_upserted(
    raw: Seq<char>,
    text: Seq<char>,
    name: Seq<char>,
    fields: ModelFields,
) -> bool {
    exists|doc: DocumentMut| #[trigger]
        writes_out(doc, text, upserted(config_of(raw), name, fields)) && upsert_keeps_writing(
            toml_form(raw),
            document_form(doc),
            name,
            fields,
        )
}

/// Whether `text` is a configuration `raw` without a provider, all else being written as it was.
pub open spec fn is_removed(raw: Seq<char>, text: Seq<char>, name: Seq<char>) -> bool {
    exists|doc: DocumentMut| #[trigger]
        writes_out(doc, text, removed(config_of(raw), name)) && remove_keeps_writing(
            config_of(raw),
            toml_form(raw),
            document_form(doc),
            name,
        )
}

/// Whether `text` is a configuration `raw` with another failover order, all else being written as
/// it was.
pub open spec fn is_reordered(raw: Seq<char>, text: Seq<char>, order: Seq<Seq<char>>) -> bool {
    exists|doc: DocumentMut| #[trigger]
        writes_out(doc, text, reordered(config_of(raw), order)) && order_replaced(
            toml_form(raw),
            document_form(doc),
        )
}

/// What a text says as a configuration; nothing if it is no TOML document.
pub open spec fn config_of(text: Seq<char>) -> Map<Seq<char>, TomlItem> {
    match toml_parsed(text) {
        Some(root) => entries_of(root),
        None => Map::empty(),
    }
}

fn is_writable(doc: &DocumentMut, name: &str, fields: &ModelFields) -> (r: bool)
    requires
        document_view(*doc) is Table,
    ensures
        r == can_upsert(entries_of(document_view(*doc)), name@, *fields),
{
    match document_item(doc, "model") {
        Some(models) => {
            if !is_table(models) {
                return false;
            }
            match item_entry(models, name) {
                Some(section) => {
                    if !is_table(section) {
                        return false;
                    }
                    if fields.extra_headers.len() > 0 {
                        match item_entry(section, "extra_headers") {
                            Some(headers) => {
                                if !is_table(headers) {
                                    return false;
                                }
                            },
                            None => {},
                        }
                    }
                },
                None => {},
            }
        },
        None => {},
    }
    has_failover_keys(doc)
}

fn has_failover_keys(doc: &DocumentMut) -> (r: bool)
    requires
        document_view(*doc) is Table,
    ensures
        r == takes_keys(item_at(entries_of(document_view(*doc)), "failover"@)),
{
    match document_item(doc, "failover") {
        Some(failover) => is_table_like(failover),
        None => true,
    }
}

/// The configuration `raw` with a provider written into it, and its name in the failover order,
/// once. The caller reads and writes the file.
pub fn upsert_model_entry_at(raw: &str, cfg_name: &str, fields: &ModelFields) -> (r: Result<
    String,
    EditError,
>)
    ensures
        match r {
            Ok(text) => {
                &&& toml_parsed(raw@) is Some
                &&& can_upsert(config_of(raw@), cfg_name@, *fields)
                &&& is_upserted(raw@, text@, cfg_name@, *fields)
            },
            Err(EditError::NotToml) => toml_parsed(raw@) is None,
            Err(EditError::NotATable) => {
                &&& toml_parsed(raw@) is Some
                &&& !can_upsert(config_of(raw@), cfg_name@, *fields)
            },
        },
{
    match parse_document(raw) {
        Ok(mut doc) => {
            if !is_writable(&doc, cfg_name, fields) {
                return Err(EditError::NotATable);
            }
            upsert_in_document(&mut doc, cfg_name, fields);
            let text = document_to_text(&doc);
            assert(writes_out(doc, text@, upserted(config_of(raw@), cfg_name@, *fields)));
            Ok(text)
        },
        Err(_) => Err(EditError::NotToml),
    }
}

/// The configuration `raw` without a provider and without its name in the failover order. A
/// missing entry is no error, and for an empty configuration there is nothing to write.
pub fn remove_model_entry_at(raw: &str, cfg_name: &str) -> (r: Result<Option<String>, EditError>)
    ensures
        match r {
            Ok(None) => raw@.len() == 0,
            Ok(Some(text)) => {
                &&& raw@.len() > 0
                &&& toml_parsed(raw@) is Some
                &&& is_removed(raw@, text@, cfg_name@)
            },
            Err(error) => {
                &&& error == EditError::NotToml
                &&& raw@.len() > 0
                &&& toml_parsed(raw@) is None
            },
        },
{
    proof {
        reveal_strlit("");
        if raw@.len() == 0 {
            assert(raw@ =~= ""@);
        }
    }
    if same_text(raw, "") {
        return Ok(None);
    }
    match parse_document(raw) {
        Ok(mut doc) => {
            remove_from_document(&mut doc, cfg_name);
            let text = document_to_text(&doc);
            assert(writes_out(doc, text@, removed(config_of(raw@), cfg_name@)));
            Ok(Some(text))
        },
        Err(_) => Err(EditError::NotToml),
    }
}

/// The configuration `raw` with `order` as its failover order, just as it is.
pub fn reorder_failover_at(raw: &str, order: &Vec<String>) -> (r: Result<String, EditError>)
    ensures
        match r {
            Ok(text) => {
                &&& toml_parsed(raw@) is Some
                &&& takes_keys(item_at(config_of(raw@), "failover"@))
                &&& is_reordered(raw@, text@, texts(order@))
            },
            Err(EditError::NotToml) => toml_parsed(raw@) is None,
            Err(EditError::NotATable) => {
                &&& toml_parsed(raw@) is Some
                &&& !takes_keys(item_at(config_of(raw@), "failover"@))
            },
        },
{
    match parse_document(raw) {
        Ok(mut doc) => {
            if !has_failover_keys(&doc) {
                return Err(EditError::NotATable);
            }
            reorder_document(&mut doc, order);
            let text = document_to_text(&doc);
            assert(writes_out(doc, text@, reordered(config_of(raw@), texts(order@))));
            Ok(text)
        },
        Err(_) => Err(EditError::NotToml),
    }
}

} // verus!
