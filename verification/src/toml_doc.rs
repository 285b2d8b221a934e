//! TOML documents as `toml_edit` holds them, seen as nested maps.
//!
//! Two things are modelled: what a document says, and how it is written, that is, its keys in their
//! order with the comments and the white space round them. How the latter comes out as text is left
//! to `toml_edit`.
use toml_edit::{Array, Decor, DocumentMut, Item, Table, TomlError, Value};
use vstd::prelude::*;

verus! {

/// `toml_edit::Value`, carried as it is; [`value_view`] says what one holds.
#[verifier::external_type_specification]
#[verifier::external_body]
pub struct ExValue(toml_edit::Value);

/// `toml_edit::Item`, carried as it is; [`item_view`] says what one holds.
#[verifier::external_type_specification]
#[verifier::external_body]
pub struct ExItem(toml_edit::Item);

/// `toml_edit::Table`, carried as it is; [`table_view`] says what one holds.
#[verifier::external_type_specification]
#[verifier::external_body]
pub struct ExTable(toml_edit::Table);

/// `toml_edit::Array`, carried as it is; [`array_view`] says what one holds.
#[verifier::external_type_specification]
#[verifier::external_body]
pub struct ExArray(toml_edit::Array);

/// `toml_edit::DocumentMut`, carried as it is; [`document_view`] says what its root holds.
#[verifier::external_type_specification]
#[verifier::external_body]
pub struct ExDocumentMut(toml_edit::DocumentMut);

/// `toml_edit::Decor`, carried as it is; [`decor_text`] says what is written there.
#[verifier::external_type_specification]
#[verifier::external_body]
pub struct ExDecor(toml_edit::Decor);

/// The error of parsing a document; why a text is none is not looked at.
#[verifier::external_type_specification]
#[verifier::external_body]
pub struct ExTomlError(toml_edit::TomlError);

/// What an item of a document holds. A key whose item is `Nothing` counts as a key that is not
/// there.
pub enum TomlItem {
    Nothing,
    /// A table with a header of its own, or the root of a document.
    Table(Map<Seq<char>, TomlItem>),
    /// A table written inline.
    Inline(Map<Seq<char>, TomlItem>),
    Text(Seq<char>),
    Integer(i64),
    Bool(bool),
    Array(Seq<TomlItem>),
    /// A number with a fraction, a date or an array of tables, as it is written without the
    /// comments and the white space round it.
    Other(Seq<char>),
}

/// What an item holds.
pub uninterp spec fn item_view(item: Item) -> TomlItem;

/// What a value holds.
pub uninterp spec fn value_view(value: Value) -> TomlItem;

/// What a table holds.
pub uninterp spec fn table_view(table: Table) -> Map<Seq<char>, TomlItem>;

/// What an array holds.
pub uninterp spec fn array_view(array: Array) -> Seq<TomlItem>;

/// What the root of a document holds.
pub uninterp spec fn document_view(doc: DocumentMut) -> TomlItem;

/// How an item is written.
pub enum ItemForm {
    Absent,
    /// A table, inline or not. `frame` is what is written of the table itself: its place in the
    /// document, whether it has a header, and the comments and the white space round it. `keys`
    /// are in order. `writings` has for each key how the key is written, with the comments and the
    /// white space before and behind it: empty for a key that is written plainly. `items` has for
    /// each key how its item is written.
    Keyed {
        frame: Seq<char>,
        keys: Seq<Seq<char>>,
        writings: Map<Seq<char>, Seq<char>>,
        items: Map<Seq<char>, ItemForm>,
    },
    /// An array. `around` is what is written round it, `frame` what is written round its elements.
    Listed { around: Seq<char>, frame: Seq<char>, elements: Seq<toml_edit::Item> },
    /// Any other value, just as it is. `around` is what is written round it: the white space before
    /// it, and the white space and the comment behind it.
    Leaf { around: Seq<char>, item: toml_edit::Item },
    /// An array of tables, just as it is.
    Tables(toml_edit::Item),
}

/// What is written round a value.
pub uninterp spec fn decor_text(decor: Decor) -> Seq<char>;

/// How an item is written.
pub uninterp spec fn item_form(item: Item) -> ItemForm;

/// How a table is written.
pub uninterp spec fn table_form(table: Table) -> ItemForm;

/// How an array is written.
pub uninterp spec fn array_form(array: Array) -> ItemForm;

/// How a document is written, from its root on.
pub uninterp spec fn document_form(doc: DocumentMut) -> ItemForm;

/// How a text that is a TOML document is written.
pub uninterp spec fn toml_form(text: Seq<char>) -> ItemForm;

/// What a text holds as a TOML document, if it is one.
pub uninterp spec fn toml_parsed(text: Seq<char>) -> Option<TomlItem>;

/// A document as text.
pub uninterp spec fn document_text(doc: DocumentMut) -> Seq<char>;

/// The item under a key.
pub open spec fn item_at(table: Map<Seq<char>, TomlItem>, key: Seq<char>) -> TomlItem {
    if table.dom().contains(key) {
        table[key]
    } else {
        TomlItem::Nothing
    }
}

/// A table with `item` under `key`; nothing under a key takes the key away.
pub open spec fn with_item(
    table: Map<Seq<char>, TomlItem>,
    key: Seq<char>,
    item: TomlItem,
) -> Map<Seq<char>, TomlItem> {
    if item is Nothing {
        table.remove(key)
    } else {
        table.insert(key, item)
    }
}

/// Whether an item has keys, or can be given some.
pub open spec fn takes_keys(item: TomlItem) -> bool {
    item is Nothing || item is Table || item is Inline
}

/// The keys of an item, each with its item: none if it has no keys.
pub open spec fn entries_of(item: TomlItem) -> Map<Seq<char>, TomlItem> {
    match item {
        TomlItem::Table(entries) => entries,
        TomlItem::Inline(entries) => entries,
        _ => Map::empty(),
    }
}

/// An item of the same form with other keys. Where there was nothing an inline table comes.
pub open spec fn with_entries(item: TomlItem, entries: Map<Seq<char>, TomlItem>) -> TomlItem {
    if item is Table {
        TomlItem::Table(entries)
    } else {
        TomlItem::Inline(entries)
    }
}

/// The keys of a table, in order.
pub open spec fn keys_of(form: ItemForm) -> Seq<Seq<char>> {
    match form {
        ItemForm::Keyed { keys, .. } => keys,
        _ => Seq::empty(),
    }
}

/// How the item under a key is written.
pub open spec fn form_at(form: ItemForm, key: Seq<char>) -> ItemForm {
    match form {
        ItemForm::Keyed { items, .. } => if items.dom().contains(key) {
            items[key]
        } else {
            ItemForm::Absent
        },
        _ => ItemForm::Absent,
    }
}

/// How a key is written, with the comments and the white space round it: empty if it is written
/// plainly or is not there.
pub open spec fn writing_of(form: ItemForm, key: Seq<char>) -> Seq<char> {
    match form {
        ItemForm::Keyed { writings, .. } => if writings.dom().contains(key) {
            writings[key]
        } else {
            Seq::empty()
        },
        _ => Seq::empty(),
    }
}

/// Keys with `key` among them: a new one comes last.
pub open spec fn with_key(keys: Seq<Seq<char>>, key: Seq<char>) -> Seq<Seq<char>> {
    if keys.contains(key) {
        keys
    } else {
        keys.push(key)
    }
}

/// Keys without `key`.
pub open spec fn without_key(keys: Seq<Seq<char>>, key: Seq<char>) -> Seq<Seq<char>> {
    keys.filter(|k: Seq<char>| k != key)
}

/// A table with an item under a key. A key that is there keeps its place and its writing.
pub open spec fn form_with(form: ItemForm, key: Seq<char>, item: ItemForm) -> ItemForm {
    match form {
        ItemForm::Keyed { frame, keys, writings, items } => ItemForm::Keyed {
            frame,
            keys: with_key(keys, key),
            writings: if keys.contains(key) {
                writings
            } else {
                writings.insert(key, Seq::empty())
            },
            items: items.insert(key, item),
        },
        _ => form,
    }
}

/// Whether a form is that of a value with something round it.
pub open spec fn has_around(form: ItemForm) -> bool {
    form is Leaf || form is Listed
}

/// What is written round a value.
pub open spec fn around_of(form: ItemForm) -> Seq<char> {
    match form {
        ItemForm::Leaf { around, .. } => around,
        ItemForm::Listed { around, .. } => around,
        _ => Seq::empty(),
    }
}

/// Whether a value that takes the place of another has round it what the other had.
pub open spec fn around_kept(before: ItemForm, after: ItemForm) -> bool {
    has_around(before) ==> has_around(after) && around_of(after) == around_of(before)
}

/// A table without a key.
pub open spec fn form_without(form: ItemForm, key: Seq<char>) -> ItemForm {
    match form {
        ItemForm::Keyed { frame, keys, writings, items } => ItemForm::Keyed {
            frame,
            keys: without_key(keys, key),
            writings: writings.remove(key),
            items: items.remove(key),
        },
        _ => form,
    }
}

/// Whether an array has kept the elements that it had, and all that is written round them.
pub open spec fn elements_kept(before: ItemForm, after: ItemForm) -> bool {
    match (before, after) {
        (
            ItemForm::Listed { around: a, frame: f, elements: e },
            ItemForm::Listed { around: b, frame: g, elements: more },
        ) => a == b && f == g && e.is_prefix_of(more),
        _ => false,
    }
}

/// Whether a form is that of a table without keys.
pub open spec fn is_bare(form: ItemForm) -> bool {
    form matches ItemForm::Keyed { keys, writings, items, .. } && keys.len() == 0 && writings.dom()
        =~= Set::empty() && items.dom() =~= Set::empty()
}

/// `str::parse` into a [`DocumentMut`]: fails on texts that are no TOML documents; the root of a
/// document is a table. What a given text holds and how it is written is left to the names.
#[verifier::external_body]
pub(crate) fn parse_document(text: &str) -> (r: Result<DocumentMut, TomlError>)
    ensures
        match r {
            Ok(doc) => {
                &&& toml_parsed(text@) == Some(document_view(doc))
                &&& document_view(doc) is Table
                &&& document_form(doc) == toml_form(text@)
                &&& document_form(doc) is Keyed
            },
            Err(_) => toml_parsed(text@) is None,
        },
{
    text.parse::<DocumentMut>()
}

/// `DocumentMut::to_string`: the document as text, with the comments and the formatting that it
/// has. How it is written out is left to the name; that the text reads back as the same
/// document is not claimed, as tables that have become empty may vanish from it.
#[verifier::external_body]
pub(crate) fn document_to_text(doc: &DocumentMut) -> (text: String)
    requires
        document_view(*doc) is Table,
    ensures
        text@ == document_text(*doc),
{
    doc.to_string()
}

/// `IndexMut` of a [`DocumentMut`]: the place of a key at the root, whether it is there or not. It
/// panics where the root is no table.
#[verifier::external_body]
pub(crate) fn document_slot<'a>(doc: &'a mut DocumentMut, key: &str) -> (slot: &'a mut Item)
    requires
        document_view(*old(doc)) is Table,
    ensures
        item_view(*slot) == item_at(entries_of(document_view(*old(doc))), key@),
        document_view(*final(doc)) == TomlItem::Table(
            with_item(entries_of(document_view(*old(doc))), key@, item_view(*final(slot))),
        ),
        document_form(*old(doc)) is Keyed,
        item_form(*slot) == form_at(document_form(*old(doc)), key@),
        !(item_view(*slot) is Nothing) ==> keys_of(document_form(*old(doc))).contains(key@),
        document_form(*final(doc)) == form_with(
            document_form(*old(doc)),
            key@,
            item_form(*final(slot)),
        ),
{
    &mut doc[key]
}

/// `Table::get` at the root of a [`DocumentMut`]: the item under a key, if it is there. It panics
/// where the root is no table.
#[verifier::external_body]
pub(crate) fn document_item<'a>(doc: &'a DocumentMut, key: &str) -> (item: Option<&'a Item>)
    requires
        document_view(*doc) is Table,
    ensures
        match item {
            Some(i) => {
                &&& item_view(*i) == item_at(entries_of(document_view(*doc)), key@)
                &&& !(item_view(*i) is Nothing)
                &&& item_form(*i) == form_at(document_form(*doc), key@)
                &&& keys_of(document_form(*doc)).contains(key@)
            },
            None => item_at(entries_of(document_view(*doc)), key@) is Nothing,
        },
{
    doc.get(key)
}

/// `Item::get` with a key: the item under the key, if it is there.
#[verifier::external_body]
pub(crate) fn item_entry<'a>(item: &'a Item, key: &str) -> (entry: Option<&'a Item>)
    ensures
        match entry {
            Some(e) => {
                &&& item_view(*e) == item_at(entries_of(item_view(*item)), key@)
                &&& !(item_view(*e) is Nothing)
                &&& item_form(*e) == form_at(item_form(*item), key@)
                &&& keys_of(item_form(*item)).contains(key@)
            },
            None => item_at(entries_of(item_view(*item)), key@) is Nothing,
        },
{
    item.get(key)
}

/// `IndexMut` of an [`Item`]: the place of a key, whether it is there or not. An item that is not
/// there becomes an inline table. It panics on items that cannot have keys.
#[verifier::external_body]
pub(crate) fn item_slot<'a>(item: &'a mut Item, key: &str) -> (slot: &'a mut Item)
    requires
        takes_keys(item_view(*old(item))),
    ensures
        item_view(*slot) == item_at(entries_of(item_view(*old(item))), key@),
        item_view(*final(item)) == with_entries(
            item_view(*old(item)),
            with_item(entries_of(item_view(*old(item))), key@, item_view(*final(slot))),
        ),
        item_form(*slot) == form_at(item_form(*old(item)), key@),
        !(item_view(*slot) is Nothing) ==> keys_of(item_form(*old(item))).contains(key@),
        !(item_view(*old(item)) is Nothing) ==> item_form(*old(item)) is Keyed && item_form(
            *final(item),
        ) == form_with(item_form(*old(item)), key@, item_form(*final(slot))),
        item_view(*old(item)) is Nothing ==> item_form(*old(item)) is Absent,
        item_view(*old(item)) is Nothing ==> exists|bare: ItemForm| #[trigger]
            is_bare(bare) && item_form(*final(item)) == form_with(
                bare,
                key@,
                item_form(*final(slot)),
            ),
{
    &mut item[key]
}

/// `IndexMut` of a [`Table`]: the place of a key, whether it is there or not.
#[verifier::external_body]
pub(crate) fn table_slot<'a>(table: &'a mut Table, key: &str) -> (slot: &'a mut Item)
    ensures
        item_view(*slot) == item_at(table_view(*old(table)), key@),
        table_view(*final(table)) == with_item(
            table_view(*old(table)),
            key@,
            item_view(*final(slot)),
        ),
        item_form(*slot) == form_at(table_form(*old(table)), key@),
        !(item_view(*slot) is Nothing) ==> keys_of(table_form(*old(table))).contains(key@),
        table_form(*final(table)) == form_with(
            table_form(*old(table)),
            key@,
            item_form(*final(slot)),
        ),
{
    &mut table[key]
}

/// `Item::or_insert`: puts an item where there is none, and gives the item that is then there.
#[verifier::external_body]
pub(crate) fn item_or_insert<'a>(item: &'a mut Item, default: Item) -> (slot: &'a mut Item)
    ensures
        item_view(*slot) == if item_view(*old(item)) is Nothing {
            item_view(default)
        } else {
            item_view(*old(item))
        },
        item_view(*final(item)) == item_view(*final(slot)),
        item_view(*old(item)) is Nothing <==> item_form(*old(item)) is Absent,
        item_form(*slot) == if item_view(*old(item)) is Nothing {
            item_form(default)
        } else {
            item_form(*old(item))
        },
        item_form(*final(item)) == item_form(*final(slot)),
{
    item.or_insert(default)
}

/// `Item::as_table_mut`: the table that an item is, unless it is something else or inline.
#[verifier::external_body]
pub(crate) fn item_table_mut<'a>(item: &'a mut Item) -> (table: Option<&'a mut Table>)
    ensures
        match table {
            Some(t) => {
                &&& item_view(*old(item)) == TomlItem::Table(table_view(*t))
                &&& item_view(*final(item)) == TomlItem::Table(table_view(*final(t)))
                &&& item_form(*old(item)) == table_form(*t)
                &&& table_form(*t) is Keyed
                &&& item_form(*final(item)) == table_form(*final(t))
            },
            None => {
                &&& !(item_view(*old(item)) is Table)
                &&& item_view(*final(item)) == item_view(*old(item))
                &&& item_form(*final(item)) == item_form(*old(item))
            },
        },
{
    item.as_table_mut()
}

/// `Item::is_table`: whether an item is a table with a header of its own.
#[verifier::external_body]
pub(crate) fn is_table(item: &Item) -> (r: bool)
    ensures
        r == (item_view(*item) is Table),
{
    item.is_table()
}

/// `Item::is_table_like`: whether an item is a table, inline or not.
#[verifier::external_body]
pub(crate) fn is_table_like(item: &Item) -> (r: bool)
    ensures
        r == (item_view(*item) is Table || item_view(*item) is Inline),
{
    item.is_table_like()
}

/// `Item::as_array`: the array that an item is, unless it is something else.
#[verifier::external_body]
pub(crate) fn item_array<'a>(item: &'a Item) -> (array: Option<&'a Array>)
    ensures
        match array {
            Some(a) => item_view(*item) == TomlItem::Array(array_view(*a)),
            None => !(item_view(*item) is Array),
        },
{
    item.as_array()
}

/// `Item::as_array_mut`: the array that an item is, unless it is something else.
#[verifier::external_body]
pub(crate) fn item_array_mut<'a>(item: &'a mut Item) -> (array: Option<&'a mut Array>)
    ensures
        match array {
            Some(a) => {
                &&& item_view(*old(item)) == TomlItem::Array(array_view(*a))
                &&& item_view(*final(item)) == TomlItem::Array(array_view(*final(a)))
                &&& item_form(*old(item)) == array_form(*a)
                &&& item_form(*final(item)) == array_form(*final(a))
            },
            None => {
                &&& !(item_view(*old(item)) is Array)
                &&& item_view(*final(item)) == item_view(*old(item))
                &&& item_form(*final(item)) == item_form(*old(item))
            },
        },
{
    item.as_array_mut()
}

/// `Value::decor` of the value that an item is, as a clone: what is written round it.
#[verifier::external_body]
pub(crate) fn item_decor(item: &Item) -> (decor: Option<Decor>)
    ensures
        has_around(item_form(*item)) ==> decor is Some && decor_text(decor->0) == around_of(
            item_form(*item),
        ),
{
    match item.as_value() {
        Some(value) => Some(value.decor().clone()),
        None => None,
    }
}

/// `Value::decor_mut` of the value that an item is: writes something else round it.
#[verifier::external_body]
pub(crate) fn set_item_decor(item: &mut Item, decor: Decor)
    ensures
        item_view(*final(item)) == item_view(*old(item)),
        has_around(item_form(*old(item))) ==> has_around(item_form(*final(item))) && around_of(
            item_form(*final(item)),
        ) == decor_text(decor),
{
    if let Some(value) = item.as_value_mut() {
        *value.decor_mut() = decor;
    }
}

/// `Table::remove`: takes a key away; the others stay in order.
#[verifier::external_body]
pub(crate) fn table_remove(table: &mut Table, key: &str)
    ensures
        table_view(*final(table)) == table_view(*old(table)).remove(key@),
        table_form(*final(table)) == form_without(table_form(*old(table)), key@),
{
    table.remove(key);
}

/// `Table::new` as an item: an empty table with a header of its own.
#[verifier::external_body]
pub(crate) fn explicit_table() -> (item: Item)
    ensures
        item_view(item) == TomlItem::Table(Map::empty()),
        is_bare(item_form(item)),
{
    Item::Table(Table::new())
}

/// `toml_edit::value` of a string: an item that holds the text.
#[verifier::external_body]
pub(crate) fn text_item(text: &str) -> (item: Item)
    ensures
        item_view(item) == TomlItem::Text(text@),
        has_around(item_form(item)),
{
    toml_edit::value(text)
}

/// `toml_edit::value` of an integer: an item that holds it.
#[verifier::external_body]
pub(crate) fn integer_item(n: i64) -> (item: Item)
    ensures
        item_view(item) == TomlItem::Integer(n),
        has_around(item_form(item)),
{
    toml_edit::value(n)
}

/// `toml_edit::value` of a truth value: an item that holds it.
#[verifier::external_body]
pub(crate) fn bool_item(b: bool) -> (item: Item)
    ensures
        item_view(item) == TomlItem::Bool(b),
        has_around(item_form(item)),
{
    toml_edit::value(b)
}

/// `toml_edit::value` of an array: an item that holds it.
#[verifier::external_body]
pub(crate) fn array_item(array: Array) -> (item: Item)
    ensures
        item_view(item) == TomlItem::Array(array_view(array)),
        has_around(item_form(item)),
{
    toml_edit::value(array)
}

/// `toml_edit::value` of a clone of a value: an item that holds the same.
#[verifier::external_body]
pub(crate) fn value_item(value: &Value) -> (item: Item)
    ensures
        item_view(item) == value_view(*value),
        !(item_view(item) is Nothing),
        has_around(item_form(item)) || item_view(item) is Inline,
{
    toml_edit::value(value.clone())
}

/// `Array::new`: an array without elements.
#[verifier::external_body]
pub(crate) fn new_array() -> (array: Array)
    ensures
        array_view(array) == Seq::<TomlItem>::empty(),
{
    Array::new()
}

/// `Array::push` of a string: one more element, which holds the text; the others are as they were.
#[verifier::external_body]
pub(crate) fn push_text(array: &mut Array, text: &str)
    ensures
        array_view(*final(array)) == array_view(*old(array)).push(TomlItem::Text(text@)),
        elements_kept(array_form(*old(array)), array_form(*final(array))),
{
    array.push(text)
}

/// `Array::len`: how many elements an array has.
#[verifier::external_body]
pub(crate) fn array_len(array: &Array) -> (n: usize)
    ensures
        n == array_view(*array).len(),
{
    array.len()
}

/// `Array::get`: the value of an element, if there is such an element and it is a value.
#[verifier::external_body]
pub(crate) fn array_value<'a>(array: &'a Array, i: usize) -> (value: Option<&'a Value>)
    ensures
        match value {
            Some(v) => i < array_view(*array).len() && array_view(*array)[i as int] == value_view(
                *v,
            ),
            None => i < array_view(*array).len() ==> !(array_view(*array)[i as int] is Text),
        },
{
    array.get(i)
}

/// `Value::as_str`: the text that a value is, unless it is something else.
#[verifier::external_body]
pub(crate) fn value_text<'a>(value: &'a Value) -> (text: Option<&'a str>)
    ensures
        match text {
            Some(t) => value_view(*value) == TomlItem::Text(t@),
            None => !(value_view(*value) is Text),
        },
{
    value.as_str()
}

/// Puts a value where `slot` is, with what was written round the value that was there.
pub(crate) fn replace_value(slot: &mut Item, item: Item)
    ensures
        item_view(*final(slot)) == item_view(item),
        has_around(item_form(item)) ==> has_around(item_form(*final(slot))),
        has_around(item_form(item)) ==> around_kept(
            item_form(*old(slot)),
            item_form(*final(slot)),
        ),
{
    let kept = item_decor(slot);
    *slot = item;
    match kept {
        Some(decor) => {
            set_item_decor(slot, decor);
        },
        None => {},
    }
}

/// Puts a value under a key. A key that is there keeps its place, its writing and what was written
/// round its value.
pub(crate) fn write_value(table: &mut Table, key: &str, item: Item)
    ensures
        table_view(*final(table)) == with_item(table_view(*old(table)), key@, item_view(item)),
        table_form(*final(table)) == form_with(
            table_form(*old(table)),
            key@,
            form_at(table_form(*final(table)), key@),
        ),
        has_around(item_form(item)) ==> around_kept(
            form_at(table_form(*old(table)), key@),
            form_at(table_form(*final(table)), key@),
        ),
{
    replace_value(table_slot(table, key), item);
}

/// A key that is put among others is there, and the others still are.
pub(crate) proof fn lemma_with_key_holds(keys: Seq<Seq<char>>, key: Seq<char>, other: Seq<char>)
    ensures
        with_key(keys, key).contains(other) == (keys.contains(other) || other == key),
{
    let after = with_key(keys, key);
    if keys.contains(other) {
        let i = choose|i: int| 0 <= i < keys.len() && keys[i] == other;
        assert(after[i] == other);
    }
    if !keys.contains(key) {
        assert(after[keys.len() as int] == key);
    }
    if after.contains(other) && other != key {
        let i = choose|i: int| 0 <= i < after.len() && after[i] == other;
        assert(keys[i] == other);
    }
}

/// A key that is taken away is gone, and the others still are there.
pub(crate) proof fn lemma_without_key(keys: Seq<Seq<char>>, key: Seq<char>, other: Seq<char>)
    ensures
        without_key(keys, key).contains(other) == (keys.contains(other) && other != key),
        !keys.contains(key) ==> without_key(keys, key) == keys,
    decreases keys.len(),
{
    reveal(Seq::filter);
    let after = without_key(keys, key);
    if keys.len() > 0 {
        let front = keys.drop_last();
        let last = keys.last();
        lemma_without_key(front, key, other);
        assert(keys =~= front.push(last));
        assert(keys.contains(other) == (front.contains(other) || other == last)) by {
            assert(keys[keys.len() - 1] == last);
            if front.contains(other) {
                let i = choose|i: int| 0 <= i < front.len() && front[i] == other;
                assert(keys[i] == other);
            }
            if keys.contains(other) {
                let i = choose|i: int| 0 <= i < keys.len() && keys[i] == other;
                assert(i == front.len() || front[i] == other);
            }
        }
        let kept = without_key(front, key);
        if last != key {
            assert(after == kept.push(last));
            assert(after[kept.len() as int] == last);
            if kept.contains(other) {
                let i = choose|i: int| 0 <= i < kept.len() && kept[i] == other;
                assert(after[i] == other);
            }
            if after.contains(other) {
                let i = choose|i: int| 0 <= i < after.len() && after[i] == other;
                assert(i == kept.len() || kept[i] == other);
            }
        }
        if !keys.contains(key) {
            assert(keys[keys.len() - 1] != key);
            assert(!front.contains(key)) by {
                if front.contains(key) {
                    let i = choose|i: int| 0 <= i < front.len() && front[i] == key;
                    assert(keys[i] == key);
                }
            }
            lemma_without_key(front, key, key);
        }
    } else {
        assert(after =~= keys);
    }
}

/// What is put under a key is found there, and every other key finds what it found; nothing put
/// under a key takes it away. A table keeps its form, and where there was nothing an inline one
/// comes.
pub proof fn what_is_put_is_found(
    table: Map<Seq<char>, TomlItem>,
    key: Seq<char>,
    item: TomlItem,
    other: Seq<char>,
    outer: TomlItem,
)
    ensures
        item_at(with_item(table, key, item), key) == item,
        other != key ==> item_at(with_item(table, key, item), other) == item_at(table, other),
        !table.dom().contains(key) ==> item_at(table, key) is Nothing,
        table.dom().contains(key) ==> item_at(table, key) == table[key],
        entries_of(with_entries(outer, table)) == table,
        with_entries(outer, table) is Table == outer is Table,
        with_entries(outer, table) is Inline == !(outer is Table),
        entries_of(TomlItem::Table(table)) == table,
        entries_of(TomlItem::Inline(table)) == table,
        takes_keys(outer) == (outer is Nothing || outer is Table || outer is Inline),
{
}

} // verus!
