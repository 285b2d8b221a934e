//! What changes to the provider configuration keep, and what a later reader finds.
use crate::providers_io::{
    can_upsert, comments_kept, config_of, fields_written, is_removed, is_reordered, is_upserted,
    keys_with_fields, lemma_field_names, loses_comments, order_in, order_replaced, order_with,
    remove_keeps_writing, removed, reordered, same_entry, section_of, text_items, texts_without,
    upsert_keeps_writing, upserted, with_fields, with_header_items, with_key_if, with_section,
    writes_key, writes_out, written_headers, written_key, written_limit, written_temperature,
    ModelFields,
};
use crate::sampler_config::pair_texts;
use crate::toml_doc::{
    around_of, document_form, document_text, document_view, entries_of, form_at, item_at, keys_of,
    lemma_with_key_holds, lemma_without_key, takes_keys, toml_form, toml_parsed, value_view,
    with_entries, with_key, without_key, writing_of, ItemForm, TomlItem,
};
use toml_edit::DocumentMut;
use vstd::prelude::*;

verus! {

/// Whether a key is one of those that a provider's section is written with.
pub open spec fn is_field(key: Seq<char>) -> bool {
    ||| key == "base_url"@
    ||| key == "model"@
    ||| key == "api_key"@
    ||| key == "api_backend"@
    ||| key == "temperature"@
    ||| key == "max_completion_tokens"@
    ||| key == "keyless"@
    ||| key == "extra_headers"@
}

/// What is written into a section is what a reader finds there. No key given keeps the key, unless
/// the provider needs none; no protocol given keeps the protocol; every other field that is not
/// given is gone.
pub proof fn section_reads_back(table: Map<Seq<char>, TomlItem>, fields: ModelFields)
    requires
        fields.temperature is Some ==> !(written_temperature(fields) is Nothing),
    ensures
        ({
            let t = with_fields(table, fields);
            &&& item_at(t, "base_url"@) == TomlItem::Text(fields.base_url@)
            &&& item_at(t, "model"@) == TomlItem::Text(fields.model@)
            &&& item_at(t, "api_key"@) == match fields.api_key {
                Some(key) => TomlItem::Text(key@),
                None => if fields.keyless {
                    TomlItem::Nothing
                } else {
                    item_at(table, "api_key"@)
                },
            }
            &&& item_at(t, "api_backend"@) == match fields.api_backend {
                Some(backend) => TomlItem::Text(backend@),
                None => item_at(table, "api_backend"@),
            }
            &&& item_at(t, "temperature"@) == written_temperature(fields)
            &&& item_at(t, "max_completion_tokens"@) == written_limit(fields)
            &&& item_at(t, "keyless"@) == if fields.keyless {
                TomlItem::Bool(true)
            } else {
                TomlItem::Nothing
            }
            &&& item_at(t, "extra_headers"@) == written_headers(table, fields)
        }),
{
    lemma_field_names();
}

/// A key of a section that is not a field is left as it is.
pub proof fn other_keys_stay(table: Map<Seq<char>, TomlItem>, fields: ModelFields, key: Seq<char>)
    requires
        !is_field(key),
    ensures
        item_at(with_fields(table, fields), key) == item_at(table, key),
        with_fields(table, fields).dom().contains(key) == table.dom().contains(key),
{
}

/// Every header given is there in the end, if no later one has the same name.
pub proof fn headers_read_back(
    table: Map<Seq<char>, TomlItem>,
    headers: Seq<(Seq<char>, Seq<char>)>,
    i: int,
)
    requires
        0 <= i < headers.len(),
        forall|k: int| i < k < headers.len() ==> (#[trigger] headers[k]).0 != headers[i].0,
    ensures
        item_at(with_header_items(table, headers), headers[i].0) == TomlItem::Text(headers[i].1),
    decreases headers.len(),
{
    let front = headers.drop_last();
    if i < front.len() {
        assert forall|k: int| i < k < front.len() implies (#[trigger] front[k]).0 != front[i].0 by {
            assert(headers[k].0 != headers[i].0);
        }
        headers_read_back(table, front, i);
        assert(headers[headers.len() - 1].0 != headers[i].0);
    }
}

/// To write a provider leaves its section as [`with_fields`] says, and its name in the order.
pub proof fn upsert_reads_back(root: Map<Seq<char>, TomlItem>, name: Seq<char>, fields: ModelFields)
    requires
        can_upsert(root, name, fields),
    ensures
        section_of(upserted(root, name, fields), name) == with_fields(
            section_of(root, name),
            fields,
        ),
        order_in(upserted(root, name, fields)) == order_with(order_in(root), name),
        order_in(upserted(root, name, fields)) is Array ==> order_in(
            upserted(root, name, fields),
        )->Array_0.contains(TomlItem::Text(name)),
{
    lemma_field_names();
    let items = match order_in(root) {
        TomlItem::Array(items) => items,
        _ => Seq::empty(),
    };
    let longer = items.push(TomlItem::Text(name));
    assert(longer[items.len() as int] == TomlItem::Text(name));
    let one = seq![TomlItem::Text(name)];
    assert(one[0] == TomlItem::Text(name));
}

/// To write a provider touches no other provider's section, nothing else at the root, and nothing
/// else in the failover section.
pub proof fn upsert_touches_nothing_else(
    root: Map<Seq<char>, TomlItem>,
    name: Seq<char>,
    fields: ModelFields,
    key: Seq<char>,
)
    requires
        can_upsert(root, name, fields),
    ensures
        key != "model"@ && key != "failover"@ ==> item_at(upserted(root, name, fields), key)
            == item_at(root, key),
        key != name ==> item_at(entries_of(item_at(upserted(root, name, fields), "model"@)), key)
            == item_at(entries_of(item_at(root, "model"@)), key),
        key != "order"@ ==> item_at(
            entries_of(item_at(upserted(root, name, fields), "failover"@)),
            key,
        ) == item_at(entries_of(item_at(root, "failover"@)), key),
{
    lemma_field_names();
}

/// How often a list holds a text.
pub open spec fn occurrences(items: Seq<TomlItem>, name: Seq<char>) -> nat {
    items.to_multiset().count(TomlItem::Text(name))
}

/// A name is never put twice into the order, and the names that are there stay in their places.
pub proof fn order_gets_no_duplicate(items: Seq<TomlItem>, name: Seq<char>)
    ensures
        ({
            let after = order_with(TomlItem::Array(items), name);
            &&& after is Array
            &&& items.is_prefix_of(after->Array_0)
            &&& occurrences(items, name) <= 1 ==> occurrences(after->Array_0, name) == 1
            &&& occurrences(items, name) >= 1 ==> after->Array_0 == items
        }),
{
    items.to_multiset_ensures();
    let text = TomlItem::Text(name);
    assert(items.contains(text) <==> items.to_multiset().count(text) > 0);
    if items.contains(text) {
        assert(items =~= items.subrange(0, items.len() as int));
    } else {
        assert(items.push(text).to_multiset() =~= items.to_multiset().insert(text));
        assert(items =~= items.push(text).subrange(0, items.len() as int));
    }
}

proof fn lemma_headers_again(
    table: Map<Seq<char>, TomlItem>,
    headers: Seq<(Seq<char>, Seq<char>)>,
    key: Seq<char>,
)
    ensures
        ({
            let once = with_header_items(table, headers);
            &&& item_at(with_header_items(once, headers), key) == item_at(once, key)
            &&& with_header_items(once, headers).dom().contains(key) == once.dom().contains(key)
        }),
{
    let once = with_header_items(table, headers);
    if exists|i: int| 0 <= i < headers.len() && (#[trigger] headers[i]).0 == key {
        let i = choose|i: int| 0 <= i < headers.len() && (#[trigger] headers[i]).0 == key;
        let last = lemma_last_of(headers, key, i);
        headers_read_back(table, headers, last);
        headers_read_back(once, headers, last);
    } else {
        lemma_no_header(table, headers, key);
        lemma_no_header(once, headers, key);
    }
}

proof fn lemma_last_of(headers: Seq<(Seq<char>, Seq<char>)>, key: Seq<char>, i: int) -> (last: int)
    requires
        0 <= i < headers.len(),
        headers[i].0 == key,
    ensures
        0 <= last < headers.len(),
        headers[last].0 == key,
        forall|k: int| last < k < headers.len() ==> (#[trigger] headers[k]).0 != key,
    decreases headers.len() - i,
{
    if exists|k: int| i < k < headers.len() && (#[trigger] headers[k]).0 == key {
        let k = choose|k: int| i < k < headers.len() && (#[trigger] headers[k]).0 == key;
        lemma_last_of(headers, key, k)
    } else {
        i
    }
}

proof fn lemma_no_header(
    table: Map<Seq<char>, TomlItem>,
    headers: Seq<(Seq<char>, Seq<char>)>,
    key: Seq<char>,
)
    requires
        forall|i: int| 0 <= i < headers.len() ==> (#[trigger] headers[i]).0 != key,
    ensures
        item_at(with_header_items(table, headers), key) == item_at(table, key),
        with_header_items(table, headers).dom().contains(key) == table.dom().contains(key),
    decreases headers.len(),
{
    if headers.len() > 0 {
        let front = headers.drop_last();
        assert forall|i: int| 0 <= i < front.len() implies (#[trigger] front[i]).0 != key by {
            assert(headers[i].0 != key);
        }
        lemma_no_header(table, front, key);
        assert(headers[headers.len() - 1].0 != key);
    }
}

proof fn lemma_headers_idempotent(
    table: Map<Seq<char>, TomlItem>,
    headers: Seq<(Seq<char>, Seq<char>)>,
)
    ensures
        with_header_items(with_header_items(table, headers), headers) == with_header_items(
            table,
            headers,
        ),
{
    let once = with_header_items(table, headers);
    let twice = with_header_items(once, headers);
    assert forall|key: Seq<char>| twice.dom().contains(key) == once.dom().contains(key) by {
        lemma_headers_again(table, headers, key);
    }
    assert forall|key: Seq<char>| once.dom().contains(key) implies twice[key] == once[key] by {
        lemma_headers_again(table, headers, key);
    }
    assert(twice =~= once);
}

proof fn lemma_fields_idempotent(table: Map<Seq<char>, TomlItem>, fields: ModelFields)
    requires
        fields.temperature is Some ==> !(written_temperature(fields) is Nothing),
    ensures
        with_fields(with_fields(table, fields), fields) == with_fields(table, fields),
{
    lemma_field_names();
    let once = with_fields(table, fields);
    let twice = with_fields(once, fields);
    section_reads_back(table, fields);
    section_reads_back(once, fields);
    lemma_headers_idempotent(
        entries_of(item_at(table, "extra_headers"@)),
        pair_texts(fields.extra_headers@),
    );
    assert(written_headers(once, fields) == written_headers(table, fields));
    assert forall|key: Seq<char>| twice.dom().contains(key) == once.dom().contains(key) by {
        if !is_field(key) {
            other_keys_stay(once, fields, key);
        }
    }
    assert forall|key: Seq<char>| once.dom().contains(key) implies twice[key] == once[key] by {
        if !is_field(key) {
            other_keys_stay(once, fields, key);
        }
        assert(item_at(twice, key) == item_at(once, key));
    }
    assert(twice =~= once);
}

/// To write the same provider again changes nothing.
pub proof fn upsert_is_idempotent(
    root: Map<Seq<char>, TomlItem>,
    name: Seq<char>,
    fields: ModelFields,
)
    requires
        can_upsert(root, name, fields),
        fields.temperature is Some ==> !(written_temperature(fields) is Nothing),
    ensures
        upserted(upserted(root, name, fields), name, fields) == upserted(root, name, fields),
{
    lemma_field_names();
    let once = upserted(root, name, fields);
    let twice = upserted(once, name, fields);
    upsert_reads_back(root, name, fields);
    lemma_fields_idempotent(section_of(root, name), fields);
    let models = entries_of(item_at(once, "model"@));
    let section = TomlItem::Table(with_fields(section_of(root, name), fields));
    assert(models.insert(name, section) =~= models);
    let placed = with_section(once, name, fields);
    assert(placed =~= once);
    let failover = item_at(once, "failover"@);
    assert(order_with(order_in(once), name) == order_in(once));
    assert(entries_of(failover).insert("order"@, order_in(once)) =~= entries_of(failover));
    assert(twice =~= once);
}

proof fn lemma_texts_without(items: Seq<TomlItem>, name: Seq<char>)
    ensures
        !texts_without(items, name).contains(TomlItem::Text(name)),
        forall|i: int|
            0 <= i < texts_without(items, name).len() ==> (#[trigger] texts_without(
                items,
                name,
            )[i]) is Text,
        forall|other: Seq<char>|
            other != name ==> (texts_without(items, name).contains(TomlItem::Text(other))
                == #[trigger] items.contains(TomlItem::Text(other))),
    decreases items.len(),
{
    let after = texts_without(items, name);
    if items.len() > 0 {
        let front = items.drop_last();
        let before = texts_without(front, name);
        lemma_texts_without(front, name);
        if after.contains(TomlItem::Text(name)) {
            let i = choose|i: int| 0 <= i < after.len() && after[i] == TomlItem::Text(name);
            if i < before.len() {
                assert(before[i] == TomlItem::Text(name));
            }
        }
        assert forall|other: Seq<char>| other != name implies (after.contains(
            TomlItem::Text(other),
        ) == #[trigger] items.contains(TomlItem::Text(other))) by {
            let text = TomlItem::Text(other);
            assert(front.contains(text) == before.contains(text));
            if items.contains(text) {
                let i = choose|i: int| 0 <= i < items.len() && items[i] == text;
                if i < front.len() {
                    assert(front[i] == text);
                    let k = choose|k: int| 0 <= k < before.len() && before[k] == text;
                    assert(after[k] == text);
                } else {
                    assert(after[after.len() - 1] == text);
                }
            }
            if after.contains(text) {
                let i = choose|i: int| 0 <= i < after.len() && after[i] == text;
                if i < before.len() {
                    assert(before[i] == text);
                    let k = choose|k: int| 0 <= k < front.len() && front[k] == text;
                    assert(items[k] == text);
                } else {
                    assert(items[items.len() - 1] == text);
                }
            }
        }
    }
}

/// Once a provider is removed neither its section nor its name in the order is left, while every
/// other name is in the order as before.
pub proof fn removed_is_gone(root: Map<Seq<char>, TomlItem>, name: Seq<char>, other: Seq<char>)
    requires
        other != name,
    ensures
        ({
            let after = removed(root, name);
            &&& item_at(root, "model"@) is Table ==> item_at(
                entries_of(item_at(after, "model"@)),
                name,
            ) is Nothing
            &&& order_in(root) is Array ==> {
                &&& order_in(after) is Array
                &&& !order_in(after)->Array_0.contains(TomlItem::Text(name))
                &&& order_in(after)->Array_0.contains(TomlItem::Text(other)) == order_in(
                    root,
                )->Array_0.contains(TomlItem::Text(other))
            }
        }),
{
    lemma_field_names();
    match order_in(root) {
        TomlItem::Array(items) => {
            lemma_texts_without(items, name);
            assert(items.contains(TomlItem::Text(other)) == items.contains(TomlItem::Text(other)));
        },
        _ => {},
    }
}

/// To remove a provider touches no other provider's section, nothing else at the root, and nothing
/// else in the failover section.
pub proof fn remove_touches_nothing_else(
    root: Map<Seq<char>, TomlItem>,
    name: Seq<char>,
    key: Seq<char>,
)
    ensures
        key != "model"@ && key != "failover"@ ==> item_at(removed(root, name), key) == item_at(
            root,
            key,
        ),
        key != name ==> item_at(entries_of(item_at(removed(root, name), "model"@)), key) == item_at(
            entries_of(item_at(root, "model"@)),
            key,
        ),
        key != "order"@ ==> item_at(entries_of(item_at(removed(root, name), "failover"@)), key)
            == item_at(entries_of(item_at(root, "failover"@)), key),
{
    lemma_field_names();
}

/// To remove a provider that is neither configured nor in the order changes nothing.
pub proof fn removing_the_missing_changes_nothing(root: Map<Seq<char>, TomlItem>, name: Seq<char>)
    requires
        !entries_of(item_at(root, "model"@)).dom().contains(name),
        order_in(root) is Array ==> !order_in(root)->Array_0.contains(TomlItem::Text(name)),
    ensures
        removed(root, name) == root,
{
    match item_at(root, "model"@) {
        TomlItem::Table(models) => {
            assert(models.remove(name) =~= models);
            assert(root.insert("model"@, TomlItem::Table(models)) =~= root);
        },
        _ => {},
    }
}

proof fn lemma_all_texts_stay(items: Seq<TomlItem>, name: Seq<char>)
    requires
        forall|i: int| 0 <= i < items.len() ==> (#[trigger] items[i]) is Text,
        !items.contains(TomlItem::Text(name)),
    ensures
        texts_without(items, name) == items,
    decreases items.len(),
{
    if items.len() > 0 {
        let front = items.drop_last();
        assert forall|i: int| 0 <= i < front.len() implies (#[trigger] front[i]) is Text by {
            assert(items[i] is Text);
        }
        assert(items[items.len() - 1] == items.last());
        if front.contains(TomlItem::Text(name)) {
            let i = choose|i: int| 0 <= i < front.len() && front[i] == TomlItem::Text(name);
            assert(items[i] == TomlItem::Text(name));
        }
        lemma_all_texts_stay(front, name);
        assert(front.push(items.last()) =~= items);
    } else {
        assert(texts_without(items, name) =~= items);
    }
}

/// To add a new provider and then remove it gives the configuration back, where it already had
/// model sections and an order that lists names.
pub proof fn remove_undoes_upsert(
    root: Map<Seq<char>, TomlItem>,
    name: Seq<char>,
    fields: ModelFields,
)
    requires
        can_upsert(root, name, fields),
        item_at(root, "model"@) is Table,
        !entries_of(item_at(root, "model"@)).dom().contains(name),
        order_in(root) is Array,
        forall|i: int|
            0 <= i < order_in(root)->Array_0.len() ==> (
            #[trigger] order_in(root)->Array_0[i]) is Text,
        !order_in(root)->Array_0.contains(TomlItem::Text(name)),
    ensures
        removed(upserted(root, name, fields), name) == root,
{
    lemma_field_names();
    let items = order_in(root)->Array_0;
    let longer = items.push(TomlItem::Text(name));
    let after = upserted(root, name, fields);
    upsert_reads_back(root, name, fields);
    assert(order_in(after) == TomlItem::Array(longer));
    assert(longer[items.len() as int] == TomlItem::Text(name));
    assert(longer.drop_last() =~= items);
    lemma_all_texts_stay(items, name);
    assert(texts_without(longer, name) == items);
    let failover = item_at(root, "failover"@);
    let failover_after = item_at(after, "failover"@);
    assert(entries_of(failover_after).insert("order"@, TomlItem::Array(items)) =~= entries_of(
        failover,
    ));
    assert(with_entries(failover_after, entries_of(failover)) == failover);
    let models = entries_of(item_at(root, "model"@));
    let section = TomlItem::Table(with_fields(section_of(root, name), fields));
    assert(models.insert(name, section).remove(name) =~= models);
    assert(removed(after, name) =~= root);
}

/// The order that is set is the order that is read, and nothing else changes.
pub proof fn reorder_reads_back(
    root: Map<Seq<char>, TomlItem>,
    order: Seq<Seq<char>>,
    key: Seq<char>,
)
    requires
        takes_keys(item_at(root, "failover"@)),
    ensures
        order_in(reordered(root, order)) == TomlItem::Array(text_items(order)),
        key != "failover"@ ==> item_at(reordered(root, order), key) == item_at(root, key),
        key != "order"@ ==> item_at(entries_of(item_at(reordered(root, order), "failover"@)), key)
            == item_at(entries_of(item_at(root, "failover"@)), key),
{
}

/// Of two orders set one after the other the later one holds.
pub proof fn the_last_order_holds(
    root: Map<Seq<char>, TomlItem>,
    first: Seq<Seq<char>>,
    second: Seq<Seq<char>>,
)
    requires
        takes_keys(item_at(root, "failover"@)),
    ensures
        reordered(reordered(root, first), second) == reordered(root, second),
{
    let failover = item_at(root, "failover"@);
    let entries = entries_of(failover);
    assert(entries.insert("order"@, TomlItem::Array(text_items(first))).insert(
        "order"@,
        TomlItem::Array(text_items(second)),
    ) =~= entries.insert("order"@, TomlItem::Array(text_items(second))));
    assert(reordered(reordered(root, first), second) =~= reordered(root, second));
}

/// To write a provider leaves everything else as the user wrote it: each other key at the root,
/// each other provider's section, and each key of the section that is not written to keep their
/// comments and all that they hold. A key of the section that was there and is written to keeps its
/// comments too, before it and behind its value. The keys that were there stay in their order.
pub proof fn writing_survives_upsert(
    before: ItemForm,
    after: ItemForm,
    name: Seq<char>,
    fields: ModelFields,
    key: Seq<char>,
)
    requires
        upsert_keeps_writing(before, after, name, fields),
    ensures
        key != "model"@ && key != "failover"@ ==> same_entry(before, after, key),
        key != name ==> same_entry(form_at(before, "model"@), form_at(after, "model"@), key),
        !writes_key(fields, key) ==> same_entry(
            form_at(form_at(before, "model"@), name),
            form_at(form_at(after, "model"@), name),
            key,
        ),
        keys_of(form_at(form_at(before, "model"@), name)).contains(key) && !loses_comments(
            fields,
            key,
        ) ==> comments_kept(
            form_at(form_at(before, "model"@), name),
            form_at(form_at(after, "model"@), name),
            key,
        ),
        key != "order"@ ==> same_entry(
            form_at(before, "failover"@),
            form_at(after, "failover"@),
            key,
        ),
        keys_of(before).is_prefix_of(keys_of(after)),
        keys_of(form_at(before, "model"@)).is_prefix_of(keys_of(form_at(after, "model"@))),
{
    lemma_with_key_is_longer(keys_of(before), "model"@);
    lemma_with_key_is_longer(with_key(keys_of(before), "model"@), "failover"@);
    lemma_with_key_is_longer(keys_of(form_at(before, "model"@)), name);
    assert(keys_of(before).is_prefix_of(keys_of(after))) by {
        assert(keys_of(before) =~= keys_of(after).subrange(0, keys_of(before).len() as int));
    }
}

proof fn lemma_with_key_is_longer(keys: Seq<Seq<char>>, key: Seq<char>)
    ensures
        keys.is_prefix_of(with_key(keys, key)),
{
    assert(keys =~= with_key(keys, key).subrange(0, keys.len() as int));
}

/// To remove a provider leaves everything else as the user wrote it.
pub proof fn writing_survives_removal(
    root: Map<Seq<char>, TomlItem>,
    before: ItemForm,
    after: ItemForm,
    name: Seq<char>,
    key: Seq<char>,
)
    requires
        remove_keeps_writing(root, before, after, name),
    ensures
        key != "model"@ && key != "failover"@ ==> same_entry(before, after, key),
        key != name ==> same_entry(form_at(before, "model"@), form_at(after, "model"@), key),
        key != "order"@ ==> same_entry(
            form_at(before, "failover"@),
            form_at(after, "failover"@),
            key,
        ),
        keys_of(after) == keys_of(before),
{
}

proof fn lemma_key_if_holds(keys: Seq<Seq<char>>, key: Seq<char>, wanted: bool, other: Seq<char>)
    ensures
        with_key_if(keys, key, wanted).contains(other) == if other == key {
            wanted
        } else {
            keys.contains(other)
        },
        keys.contains(key) == wanted ==> with_key_if(keys, key, wanted) == keys,
{
    lemma_with_key_holds(keys, key, other);
    lemma_without_key(keys, key, other);
}

proof fn lemma_section_keys(keys: Seq<Seq<char>>, fields: ModelFields, key: Seq<char>)
    ensures
        keys_with_fields(keys, fields).contains(key) == if key == "base_url"@ || key == "model"@ {
            true
        } else if key == "api_key"@ && fields.api_key is Some {
            true
        } else if key == "api_key"@ && fields.keyless {
            false
        } else if key == "api_backend"@ && fields.api_backend is Some {
            true
        } else if key == "temperature"@ {
            fields.temperature is Some
        } else if key == "max_completion_tokens"@ {
            fields.max_completion_tokens is Some
        } else if key == "keyless"@ {
            fields.keyless
        } else if key == "extra_headers"@ {
            fields.extra_headers@.len() > 0
        } else {
            keys.contains(key)
        },
{
    lemma_field_names();
    let k1 = with_key(keys, "base_url"@);
    let k2 = with_key(k1, "model"@);
    lemma_with_key_holds(keys, "base_url"@, key);
    lemma_with_key_holds(k1, "model"@, key);
    let k3 = if written_key(fields) is Some {
        with_key_if(k2, "api_key"@, fields.api_key is Some)
    } else {
        k2
    };
    lemma_key_if_holds(k2, "api_key"@, fields.api_key is Some, key);
    let k4 = if fields.api_backend is Some {
        with_key(k3, "api_backend"@)
    } else {
        k3
    };
    lemma_with_key_holds(k3, "api_backend"@, key);
    let k5 = with_key_if(k4, "temperature"@, fields.temperature is Some);
    lemma_key_if_holds(k4, "temperature"@, fields.temperature is Some, key);
    let k6 = with_key_if(k5, "max_completion_tokens"@, fields.max_completion_tokens is Some);
    lemma_key_if_holds(
        k5,
        "max_completion_tokens"@,
        fields.max_completion_tokens is Some,
        key,
    );
    let k7 = with_key_if(k6, "keyless"@, fields.keyless);
    lemma_key_if_holds(k6, "keyless"@, fields.keyless, key);
    lemma_key_if_holds(k7, "extra_headers"@, fields.extra_headers@.len() > 0, key);
}

/// To write the same provider again moves no key of its section, and adds and drops none.
pub proof fn second_upsert_moves_no_key(keys: Seq<Seq<char>>, fields: ModelFields)
    ensures
        keys_with_fields(keys_with_fields(keys, fields), fields) == keys_with_fields(keys, fields),
{
    lemma_field_names();
    let once = keys_with_fields(keys, fields);
    lemma_section_keys(keys, fields, "base_url"@);
    lemma_section_keys(keys, fields, "model"@);
    lemma_section_keys(keys, fields, "api_key"@);
    lemma_section_keys(keys, fields, "api_backend"@);
    lemma_section_keys(keys, fields, "temperature"@);
    lemma_section_keys(keys, fields, "max_completion_tokens"@);
    lemma_section_keys(keys, fields, "keyless"@);
    lemma_section_keys(keys, fields, "extra_headers"@);
    lemma_key_if_holds(once, "api_key"@, fields.api_key is Some, "api_key"@);
    lemma_key_if_holds(once, "temperature"@, fields.temperature is Some, "temperature"@);
    lemma_key_if_holds(
        once,
        "max_completion_tokens"@,
        fields.max_completion_tokens is Some,
        "max_completion_tokens"@,
    );
    lemma_key_if_holds(once, "keyless"@, fields.keyless, "keyless"@);
    lemma_key_if_holds(
        once,
        "extra_headers"@,
        fields.extra_headers@.len() > 0,
        "extra_headers"@,
    );
}

proof fn lemma_texts_filter(items: Seq<TomlItem>, name: Seq<char>)
    ensures
        texts_without(items, name) == items.filter(
            |x: TomlItem| x is Text && x != TomlItem::Text(name),
        ),
    decreases items.len(),
{
    reveal(Seq::filter);
    if items.len() > 0 {
        lemma_texts_filter(items.drop_last(), name);
    } else {
        assert(texts_without(items, name) =~= items.filter(
            |x: TomlItem| x is Text && x != TomlItem::Text(name),
        ));
    }
}

/// The failover order after a removal is the order before it without the name: the others stay in
/// their order. An order that does not hold the name stays as it is, and so does what is no list.
pub proof fn removal_filters_the_order(root: Map<Seq<char>, TomlItem>, name: Seq<char>)
    ensures
        match item_at(entries_of(item_at(root, "failover"@)), "order"@) {
            TomlItem::Array(items) => {
                let after = item_at(
                    entries_of(item_at(removed(root, name), "failover"@)),
                    "order"@,
                );
                &&& items.contains(TomlItem::Text(name)) ==> after == TomlItem::Array(
                    items.filter(|x: TomlItem| x is Text && x != TomlItem::Text(name)),
                )
                &&& !items.contains(TomlItem::Text(name)) ==> after == TomlItem::Array(items)
            },
            other => item_at(entries_of(item_at(removed(root, name), "failover"@)), "order"@)
                == other,
        },
{
    lemma_field_names();
    match item_at(entries_of(item_at(root, "failover"@)), "order"@) {
        TomlItem::Array(items) => {
            lemma_texts_filter(items, name);
        },
        _ => {},
    }
}

/// An order of names that held the name loses it and nothing else.
pub proof fn removal_keeps_the_other_names_in_order(
    root: Map<Seq<char>, TomlItem>,
    name: Seq<char>,
    items: Seq<TomlItem>,
)
    requires
        item_at(entries_of(item_at(root, "failover"@)), "order"@) == TomlItem::Array(items),
        forall|i: int| 0 <= i < items.len() ==> (#[trigger] items[i]) is Text,
    ensures
        item_at(entries_of(item_at(removed(root, name), "failover"@)), "order"@)
            == TomlItem::Array(items.filter(|x: TomlItem| x != TomlItem::Text(name))),
{
    removal_filters_the_order(root, name);
    lemma_filters_agree(items, name);
    if !items.contains(TomlItem::Text(name)) {
        lemma_all_texts_stay(items, name);
        lemma_texts_filter(items, name);
    }
}

proof fn lemma_filters_agree(items: Seq<TomlItem>, name: Seq<char>)
    requires
        forall|i: int| 0 <= i < items.len() ==> (#[trigger] items[i]) is Text,
    ensures
        items.filter(|x: TomlItem| x is Text && x != TomlItem::Text(name)) == items.filter(
            |x: TomlItem| x != TomlItem::Text(name),
        ),
    decreases items.len(),
{
    reveal(Seq::filter);
    if items.len() > 0 {
        let front = items.drop_last();
        assert forall|i: int| 0 <= i < front.len() implies (#[trigger] front[i]) is Text by {
            assert(items[i] is Text);
        }
        assert(items[items.len() - 1] is Text);
        lemma_filters_agree(front, name);
    }
}

/// A removal takes out the section of the provider, and only that: whatever else stands under
/// `model` or at the root stays.
pub proof fn removal_takes_out_one_section(
    root: Map<Seq<char>, TomlItem>,
    name: Seq<char>,
    models: Map<Seq<char>, TomlItem>,
)
    ensures
        item_at(root, "model"@) == TomlItem::Table(models) ==> item_at(removed(root, name), "model"@)
            == TomlItem::Table(models.remove(name)),
        !(item_at(root, "model"@) is Table) ==> item_at(removed(root, name), "model"@) == item_at(
            root,
            "model"@,
        ),
{
    lemma_field_names();
}

/// A provider that is written is in the order afterwards: one that was there stays where it was, a
/// new one comes last, an order that is not there yet is made with it alone, and what is no list
/// stays as it is.
pub proof fn a_written_name_is_in_the_order(
    root: Map<Seq<char>, TomlItem>,
    name: Seq<char>,
    fields: ModelFields,
)
    requires
        can_upsert(root, name, fields),
    ensures
        ({
            let before = item_at(entries_of(item_at(root, "failover"@)), "order"@);
            let after = item_at(
                entries_of(item_at(upserted(root, name, fields), "failover"@)),
                "order"@,
            );
            match before {
                TomlItem::Nothing => after == TomlItem::Array(seq![TomlItem::Text(name)]),
                TomlItem::Array(items) => {
                    &&& items.contains(TomlItem::Text(name)) ==> after == before
                    &&& !items.contains(TomlItem::Text(name)) ==> after == TomlItem::Array(
                        items.push(TomlItem::Text(name)),
                    )
                },
                _ => after == before,
            }
        }),
        item_at(root, "failover"@) is Nothing ==> item_at(
            upserted(root, name, fields),
            "failover"@,
        ) is Table,
        item_at(root, "failover"@) is Inline ==> item_at(
            upserted(root, name, fields),
            "failover"@,
        ) is Inline,
        item_at(root, "failover"@) is Table ==> item_at(
            upserted(root, name, fields),
            "failover"@,
        ) is Table,
{
    lemma_field_names();
}

/// A reader finds in the section of a written provider just what was given: its endpoint and model,
/// its key, its protocol, its temperature, its token limit and its mark. No key given keeps the key
/// of a provider that needs one; no protocol given keeps the protocol.
pub proof fn a_written_provider_reads_back(
    root: Map<Seq<char>, TomlItem>,
    name: Seq<char>,
    fields: ModelFields,
    other: Seq<char>,
)
    requires
        can_upsert(root, name, fields),
        fields.temperature is Some ==> !(value_view(fields.temperature->0) is Nothing),
    ensures
        ({
            let old = entries_of(item_at(entries_of(item_at(root, "model"@)), name));
            let item = item_at(
                entries_of(item_at(upserted(root, name, fields), "model"@)),
                name,
            );
            let new = entries_of(item);
            &&& item is Table
            &&& item_at(new, "base_url"@) == TomlItem::Text(fields.base_url@)
            &&& item_at(new, "model"@) == TomlItem::Text(fields.model@)
            &&& fields.api_key is Some ==> item_at(new, "api_key"@) == TomlItem::Text(
                fields.api_key->0@,
            )
            &&& fields.api_key is None && fields.keyless ==> item_at(new, "api_key"@) is Nothing
            &&& fields.api_key is None && !fields.keyless ==> item_at(new, "api_key"@) == item_at(
                old,
                "api_key"@,
            )
            &&& fields.api_backend is Some ==> item_at(new, "api_backend"@) == TomlItem::Text(
                fields.api_backend->0@,
            )
            &&& fields.api_backend is None ==> item_at(new, "api_backend"@) == item_at(
                old,
                "api_backend"@,
            )
            &&& fields.temperature is Some ==> item_at(new, "temperature"@) == value_view(
                fields.temperature->0,
            )
            &&& fields.temperature is None ==> item_at(new, "temperature"@) is Nothing
            &&& fields.max_completion_tokens is Some ==> item_at(new, "max_completion_tokens"@)
                == TomlItem::Integer(fields.max_completion_tokens->0 as i64)
            &&& fields.max_completion_tokens is None ==> item_at(
                new,
                "max_completion_tokens"@,
            ) is Nothing
            &&& fields.keyless ==> item_at(new, "keyless"@) == TomlItem::Bool(true)
            &&& !fields.keyless ==> item_at(new, "keyless"@) is Nothing
            &&& fields.extra_headers@.len() == 0 ==> item_at(new, "extra_headers"@) is Nothing
            &&& fields.extra_headers@.len() > 0 ==> item_at(new, "extra_headers"@) is Table
            &&& other != "base_url"@ && other != "model"@ && other != "api_key"@ && other
                != "api_backend"@ && other != "temperature"@ && other != "max_completion_tokens"@
                && other != "keyless"@ && other != "extra_headers"@ ==> item_at(new, other)
                == item_at(old, other)
        }),
{
    lemma_field_names();
    upsert_reads_back(root, name, fields);
    section_reads_back(section_of(root, name), fields);
    if !is_field(other) {
        other_keys_stay(section_of(root, name), fields, other);
    }
}

/// Of the headers of a written provider each one given is there with its value, if no later one
/// has its name, and each that was there and is not given stays.
pub proof fn written_headers_read_back(
    root: Map<Seq<char>, TomlItem>,
    name: Seq<char>,
    fields: ModelFields,
    i: int,
    other: Seq<char>,
)
    requires
        can_upsert(root, name, fields),
        0 <= i < fields.extra_headers@.len(),
        forall|k: int|
            i < k < fields.extra_headers@.len() ==> (#[trigger] fields.extra_headers@[k]).0@
                != fields.extra_headers@[i].0@,
    ensures
        ({
            let old = entries_of(
                item_at(
                    entries_of(item_at(entries_of(item_at(root, "model"@)), name)),
                    "extra_headers"@,
                ),
            );
            let new = entries_of(
                item_at(
                    entries_of(
                        item_at(
                            entries_of(item_at(upserted(root, name, fields), "model"@)),
                            name,
                        ),
                    ),
                    "extra_headers"@,
                ),
            );
            &&& item_at(new, fields.extra_headers@[i].0@) == TomlItem::Text(
                fields.extra_headers@[i].1@,
            )
            &&& (forall|k: int|
                0 <= k < fields.extra_headers@.len() ==> (#[trigger] fields.extra_headers@[k]).0@
                    != other) ==> item_at(new, other) == item_at(old, other)
        }),
{
    lemma_field_names();
    upsert_reads_back(root, name, fields);
    let table = entries_of(item_at(section_of(root, name), "extra_headers"@));
    let headers = pair_texts(fields.extra_headers@);
    assert forall|k: int| i < k < headers.len() implies (#[trigger] headers[k]).0
        != headers[i].0 by {
        assert(fields.extra_headers@[k].0@ != fields.extra_headers@[i].0@);
    }
    headers_read_back(table, headers, i);
    if forall|k: int|
        0 <= k < fields.extra_headers@.len() ==> (#[trigger] fields.extra_headers@[k]).0@ != other {
        assert forall|k: int| 0 <= k < headers.len() implies (#[trigger] headers[k]).0 != other by {
            assert(fields.extra_headers@[k].0@ != other);
        }
        lemma_no_header(table, headers, other);
    }
}

/// A provider can be written where `model` and its section are tables or not there yet, the headers
/// are too if any are given, and `failover` has keys or is not there yet.
pub proof fn a_provider_can_be_written_among_tables(
    root: Map<Seq<char>, TomlItem>,
    name: Seq<char>,
    fields: ModelFields,
)
    ensures
        can_upsert(root, name, fields) == {
            let model = item_at(root, "model"@);
            let section = item_at(entries_of(model), name);
            let headers = item_at(entries_of(section), "extra_headers"@);
            let failover = item_at(root, "failover"@);
            &&& model is Nothing || model is Table
            &&& section is Nothing || section is Table
            &&& fields.extra_headers@.len() == 0 || headers is Nothing || headers is Table
            &&& failover is Nothing || failover is Table || failover is Inline
        },
{
}

/// An order that is set is read back name by name, in the order given, under a failover section
/// that keeps its form.
pub proof fn a_set_order_reads_back(
    root: Map<Seq<char>, TomlItem>,
    order: Seq<Seq<char>>,
)
    requires
        takes_keys(item_at(root, "failover"@)),
    ensures
        ({
            let after = item_at(reordered(root, order), "failover"@);
            let list = item_at(entries_of(after), "order"@);
            &&& list is Array
            &&& list->Array_0.len() == order.len()
            &&& forall|i: int|
                0 <= i < order.len() ==> #[trigger] list->Array_0[i] == TomlItem::Text(order[i])
            &&& item_at(root, "failover"@) is Table ==> after is Table
            &&& !(item_at(root, "failover"@) is Table) ==> after is Inline
        }),
{
}

/// A text that is an edited configuration is the writing of a document that says what the edit
/// says: the configuration that was read, with the provider written into it or taken out of it, or
/// with the new order.
pub proof fn an_edited_text_is_a_document(
    raw: Seq<char>,
    text: Seq<char>,
    name: Seq<char>,
    fields: ModelFields,
    order: Seq<Seq<char>>,
    root: Map<Seq<char>, TomlItem>,
)
    requires
        toml_parsed(raw) == Some(TomlItem::Table(root)),
    ensures
        is_upserted(raw, text, name, fields) ==> exists|doc: DocumentMut|
            document_view(doc) == TomlItem::Table(upserted(root, name, fields)) && text
                == #[trigger] document_text(doc) && upsert_keeps_writing(
                toml_form(raw),
                document_form(doc),
                name,
                fields,
            ),
        is_removed(raw, text, name) ==> exists|doc: DocumentMut|
            document_view(doc) == TomlItem::Table(removed(root, name)) && text
                == #[trigger] document_text(doc) && remove_keeps_writing(
                root,
                toml_form(raw),
                document_form(doc),
                name,
            ),
        is_reordered(raw, text, order) ==> exists|doc: DocumentMut|
            document_view(doc) == TomlItem::Table(reordered(root, order)) && text
                == #[trigger] document_text(doc) && order_replaced(
                toml_form(raw),
                document_form(doc),
            ),
        config_of(raw) == root,
{
    if is_upserted(raw, text, name, fields) {
        let doc = choose|doc: DocumentMut| #[trigger]
            writes_out(doc, text, upserted(config_of(raw), name, fields)) && upsert_keeps_writing(
                toml_form(raw),
                document_form(doc),
                name,
                fields,
            );
        assert(text == document_text(doc));
    }
    if is_removed(raw, text, name) {
        let doc = choose|doc: DocumentMut| #[trigger]
            writes_out(doc, text, removed(config_of(raw), name)) && remove_keeps_writing(
                config_of(raw),
                toml_form(raw),
                document_form(doc),
                name,
            );
        assert(text == document_text(doc));
    }
    if is_reordered(raw, text, order) {
        let doc = choose|doc: DocumentMut| #[trigger]
            writes_out(doc, text, reordered(config_of(raw), order)) && order_replaced(
                toml_form(raw),
                document_form(doc),
            );
        assert(text == document_text(doc));
    }
}

/// To set an order keeps all but the list as it was written, and of the list its place, its key and
/// what is written round it.
pub proof fn writing_survives_reordering(before: ItemForm, after: ItemForm, key: Seq<char>)
    requires
        order_replaced(before, after),
    ensures
        key != "failover"@ ==> form_at(after, key) == form_at(before, key) && writing_of(after, key)
            == writing_of(before, key),
        key != "order"@ ==> form_at(form_at(after, "failover"@), key) == form_at(
            form_at(before, "failover"@),
            key,
        ) && writing_of(form_at(after, "failover"@), key) == writing_of(
            form_at(before, "failover"@),
            key,
        ),
        keys_of(before).contains("failover"@) ==> keys_of(after) == keys_of(before),
        keys_of(before).contains(key) ==> writing_of(after, key) == writing_of(before, key),
        keys_of(form_at(before, "failover"@)).contains("order"@) ==> {
            &&& keys_of(form_at(after, "failover"@)) == keys_of(form_at(before, "failover"@))
            &&& writing_of(form_at(after, "failover"@), "order"@) == writing_of(
                form_at(before, "failover"@),
                "order"@,
            )
        },
        ({
            let was = form_at(form_at(before, "failover"@), "order"@);
            let now = form_at(form_at(after, "failover"@), "order"@);
            was is Leaf || was is Listed ==> around_of(now) == around_of(was)
        }),
{
    if key != "failover"@ {
        assert(same_entry(before, after, key));
    }
    if key != "order"@ {
        assert(same_entry(form_at(before, "failover"@), form_at(after, "failover"@), key));
    }
}

proof fn lemma_still_there(keys: Seq<Seq<char>>, gone: Seq<char>, i: int) -> (at: int)
    requires
        0 <= i < keys.len(),
        keys[i] != gone,
    ensures
        0 <= at < without_key(keys, gone).len(),
        without_key(keys, gone)[at] == keys[i],
    decreases keys.len(),
{
    reveal(Seq::filter);
    let front = keys.drop_last();
    if i < front.len() {
        lemma_still_there(front, gone, i)
    } else {
        without_key(keys, gone).len() - 1
    }
}

proof fn lemma_order_stays(keys: Seq<Seq<char>>, gone: Seq<char>, i: int, j: int) -> (at: (int, int))
    requires
        0 <= i < j < keys.len(),
        keys[i] != gone,
        keys[j] != gone,
    ensures
        0 <= at.0 < at.1 < without_key(keys, gone).len(),
        without_key(keys, gone)[at.0] == keys[i],
        without_key(keys, gone)[at.1] == keys[j],
    decreases keys.len(),
{
    reveal(Seq::filter);
    let front = keys.drop_last();
    if j < front.len() {
        lemma_order_stays(front, gone, i, j)
    } else {
        let a = lemma_still_there(front, gone, i);
        (a, without_key(keys, gone).len() - 1)
    }
}

proof fn lemma_order_stays_if(
    keys: Seq<Seq<char>>,
    key: Seq<char>,
    wanted: bool,
    i: int,
    j: int,
) -> (at: (int, int))
    requires
        0 <= i < j < keys.len(),
        wanted || keys[i] != key && keys[j] != key,
    ensures
        0 <= at.0 < at.1 < with_key_if(keys, key, wanted).len(),
        with_key_if(keys, key, wanted)[at.0] == keys[i],
        with_key_if(keys, key, wanted)[at.1] == keys[j],
{
    if wanted {
        (i, j)
    } else {
        lemma_order_stays(keys, key, i, j)
    }
}

/// Two keys of a section that were there and are not taken out stand in the same order after the
/// section is written.
pub proof fn section_keys_keep_their_order(
    before: ItemForm,
    after: ItemForm,
    fields: ModelFields,
    i: int,
    j: int,
) -> (at: (int, int))
    requires
        fields_written(before, after, fields),
        0 <= i < j < keys_of(before).len(),
        forall|k: int|
            (k == i || k == j) ==> {
                &&& #[trigger] keys_of(before)[k] == "api_key"@ ==> fields.api_key is Some
                    || !fields.keyless
                &&& keys_of(before)[k] == "temperature"@ ==> fields.temperature is Some
                &&& keys_of(before)[k] == "max_completion_tokens"@
                    ==> fields.max_completion_tokens is Some
                &&& keys_of(before)[k] == "keyless"@ ==> fields.keyless
                &&& keys_of(before)[k] == "extra_headers"@ ==> fields.extra_headers@.len() > 0
            },
    ensures
        0 <= at.0 < at.1 < keys_of(after).len(),
        keys_of(after)[at.0] == keys_of(before)[i],
        keys_of(after)[at.1] == keys_of(before)[j],
{
    let keys = keys_of(before);
    assert(keys[i] == keys_of(before)[i] && keys[j] == keys_of(before)[j]);
    let k2 = with_key(with_key(keys, "base_url"@), "model"@);
    let k3 = if written_key(fields) is Some {
        with_key_if(k2, "api_key"@, fields.api_key is Some)
    } else {
        k2
    };
    let a3 = if written_key(fields) is Some {
        lemma_order_stays_if(k2, "api_key"@, fields.api_key is Some, i, j)
    } else {
        (i, j)
    };
    let k4 = if fields.api_backend is Some {
        with_key(k3, "api_backend"@)
    } else {
        k3
    };
    let k5 = with_key_if(k4, "temperature"@, fields.temperature is Some);
    let a5 = lemma_order_stays_if(k4, "temperature"@, fields.temperature is Some, a3.0, a3.1);
    let k6 = with_key_if(k5, "max_completion_tokens"@, fields.max_completion_tokens is Some);
    let a6 = lemma_order_stays_if(
        k5,
        "max_completion_tokens"@,
        fields.max_completion_tokens is Some,
        a5.0,
        a5.1,
    );
    let k7 = with_key_if(k6, "keyless"@, fields.keyless);
    let a7 = lemma_order_stays_if(k6, "keyless"@, fields.keyless, a6.0, a6.1);
    lemma_order_stays_if(k7, "extra_headers"@, fields.extra_headers@.len() > 0, a7.0, a7.1)
}

/// How everything else is written when a provider is: each other key of the root, of `model` and of
/// `failover` with all below it, each other key of the section, and, of the endpoint and the model
/// that were there, the comments before the key and round the value.
pub proof fn what_is_not_written_stays_as_written(
    before: ItemForm,
    after: ItemForm,
    name: Seq<char>,
    fields: ModelFields,
    key: Seq<char>,
)
    requires
        upsert_keeps_writing(before, after, name, fields),
    ensures
        key != "model"@ && key != "failover"@ ==> form_at(after, key) == form_at(before, key)
            && writing_of(after, key) == writing_of(before, key),
        ({
            let was = form_at(before, "model"@);
            let now = form_at(after, "model"@);
            key != name ==> form_at(now, key) == form_at(was, key) && writing_of(now, key)
                == writing_of(was, key)
        }),
        ({
            let was = form_at(form_at(before, "model"@), name);
            let now = form_at(form_at(after, "model"@), name);
            &&& key != "base_url"@ && key != "model"@ && key != "api_key"@ && key != "api_backend"@
                && key != "temperature"@ && key != "max_completion_tokens"@ && key != "keyless"@
                && key != "extra_headers"@ ==> form_at(now, key) == form_at(was, key)
                && writing_of(now, key) == writing_of(was, key)
            &&& (key == "base_url"@ || key == "model"@) && keys_of(was).contains(key) ==> {
                &&& writing_of(now, key) == writing_of(was, key)
                &&& form_at(was, key) is Leaf || form_at(was, key) is Listed ==> around_of(
                    form_at(now, key),
                ) == around_of(form_at(was, key))
            }
            &&& key == "api_key"@ && fields.api_key is Some && keys_of(was).contains(key) ==> {
                &&& writing_of(now, key) == writing_of(was, key)
                &&& form_at(was, key) is Leaf || form_at(was, key) is Listed ==> around_of(
                    form_at(now, key),
                ) == around_of(form_at(was, key))
            }
            &&& key == "api_key"@ && fields.api_key is None && !fields.keyless ==> form_at(now, key)
                == form_at(was, key) && writing_of(now, key) == writing_of(was, key)
        }),
        ({
            let was = form_at(before, "failover"@);
            let now = form_at(after, "failover"@);
            key != "order"@ ==> form_at(now, key) == form_at(was, key) && writing_of(now, key)
                == writing_of(was, key)
        }),
        forall|i: int|
            0 <= i < keys_of(before).len() ==> i < keys_of(after).len() && #[trigger] keys_of(
                after,
            )[i] == keys_of(before)[i],
{
    lemma_field_names();
    writing_survives_upsert(before, after, name, fields, key);
    lemma_with_key_is_longer(keys_of(before), "model"@);
}

/// How everything else is written when a provider is removed: each key of the root stays in its
/// place, as does all but the section under `model` and all but the list under `failover`; the
/// order is as it was written where it did not hold the name.
pub proof fn what_is_not_removed_stays_as_written(
    root: Map<Seq<char>, TomlItem>,
    before: ItemForm,
    after: ItemForm,
    name: Seq<char>,
    key: Seq<char>,
)
    requires
        remove_keeps_writing(root, before, after, name),
    ensures
        keys_of(after) == keys_of(before),
        writing_of(after, key) == writing_of(before, key),
        key != "model"@ && key != "failover"@ ==> form_at(after, key) == form_at(before, key),
        ({
            let was = form_at(before, "model"@);
            let now = form_at(after, "model"@);
            key != name ==> form_at(now, key) == form_at(was, key) && writing_of(now, key)
                == writing_of(was, key)
        }),
        ({
            let was = form_at(before, "failover"@);
            let now = form_at(after, "failover"@);
            &&& key != "order"@ ==> form_at(now, key) == form_at(was, key) && writing_of(now, key)
                == writing_of(was, key)
            &&& !(item_at(entries_of(item_at(root, "failover"@)), "order"@) is Array && item_at(
                entries_of(item_at(root, "failover"@)),
                "order"@,
            )->Array_0.contains(TomlItem::Text(name))) ==> now == was
        }),
{
    if key != "model"@ && key != "failover"@ {
        assert(same_entry(before, after, key));
    }
    if key != "order"@ {
        writing_survives_removal(root, before, after, name, key);
    }
}

/// The sections that an edit goes through stay where they are in the document, with the comments at
/// their headers.
pub proof fn sections_stay_in_their_places(
    before: ItemForm,
    after: ItemForm,
    name: Seq<char>,
    fields: ModelFields,
)
    requires
        upsert_keeps_writing(before, after, name, fields),
    ensures
        before is Keyed ==> after is Keyed && after->Keyed_frame == before->Keyed_frame,
        ({
            let was = form_at(before, "model"@);
            let now = form_at(after, "model"@);
            was is Keyed ==> now is Keyed && now->Keyed_frame == was->Keyed_frame
        }),
        ({
            let was = form_at(form_at(before, "model"@), name);
            let now = form_at(form_at(after, "model"@), name);
            was is Keyed ==> now is Keyed && now->Keyed_frame == was->Keyed_frame
        }),
        ({
            let was = form_at(before, "failover"@);
            let now = form_at(after, "failover"@);
            was is Keyed ==> now is Keyed && now->Keyed_frame == was->Keyed_frame
        }),
        ({
            let was = form_at(form_at(before, "failover"@), "order"@);
            let now = form_at(form_at(after, "failover"@), "order"@);
            was is Listed ==> {
                &&& now is Listed
                &&& now->Listed_frame == was->Listed_frame
                &&& around_of(now) == around_of(was)
                &&& was->elements.is_prefix_of(now->elements)
            }
        }),
{
    let was = form_at(form_at(before, "failover"@), "order"@);
    if was is Listed {
        assert(was->elements =~= was->elements.subrange(0, was->elements.len() as int));
    }
}

} // verus!
