//! What holds of the `/providers` panel over any sequence of keys.
use crate::presets::preset_named;
use crate::providers::{is_usable, layered, ConfigModelOverride};
use crate::providers_keys::{
    after_confirm, after_key, after_paste, confirm_outcome, is_ignored, is_section_name,
    key_outcome, model_of, non_empty, preset_keyless, row_names, suggested_model,
};
use crate::providers_modal::{
    adding, can_swap, cleared, editing, has_selected, moved, provider_row, selected_row, swapped,
    EditField, KeyCode, KeyEvent, ModalMode, ModalView, OutcomeView,
};
use crate::sampler_config::SamplerConfig;
use crate::text::{opt_text, same_ignoring_case, trimmed};
use vstd::prelude::*;

verus! {

/// Whether the selection is on a row, or at the start of an empty panel.
pub open spec fn selection_holds(v: ModalView) -> bool {
    v.selected < v.rows.len() || v.selected == 0
}

/// Whether the rows of a panel can be counted in a machine word.
pub open spec fn countable(v: ModalView) -> bool {
    v.rows.len() <= usize::MAX
}

/// The selection stays on a row, whatever key comes.
pub proof fn keys_keep_the_selection(v: ModalView, key: KeyEvent)
    requires
        selection_holds(v),
        countable(v),
    ensures
        selection_holds(after_key(v, key)),
        after_key(v, key).rows.len() == v.rows.len(),
{
    let len = v.rows.len() as int;
    if len > 0 {
        assert(0 <= (v.selected + 1) % len < len);
        assert(0 <= (v.selected - 1) % len < len);
    }
}

/// No key changes which rows there are, or anything of a row; a swap only puts two in another
/// order.
pub proof fn keys_keep_the_rows(v: ModalView, key: KeyEvent)
    requires
        countable(v),
    ensures
        after_key(v, key).rows.to_multiset() == v.rows.to_multiset(),
        !(key_outcome(v, key) is Reorder) ==> after_key(v, key).rows == v.rows,
{
    swap_keeps_the_rows(v);
}

/// A swap keeps every row, and puts the selected one below the one that followed it. The selection
/// goes with its row.
pub proof fn swap_keeps_the_rows(v: ModalView)
    requires
        countable(v),
    ensures
        swapped(v).rows.to_multiset() == v.rows.to_multiset(),
        can_swap(v) ==> {
            &&& swapped(v).selected == v.selected + 1
            &&& selected_row(swapped(v)) == selected_row(v)
            &&& swapped(v).rows[v.selected as int] == v.rows[v.selected + 1]
            &&& forall|i: int|
                0 <= i < v.rows.len() && i != v.selected && i != v.selected + 1
                    ==> #[trigger] swapped(v).rows[i] == v.rows[i]
        },
        !can_swap(v) ==> swapped(v) == v,
{
    if can_swap(v) {
        let i = v.selected as int;
        vstd::seq_lib::to_multiset_update(v.rows, i, v.rows[i + 1]);
        let half = v.rows.update(i, v.rows[i + 1]);
        vstd::seq_lib::to_multiset_update(half, i + 1, v.rows[i]);
        let m = v.rows.to_multiset();
        v.rows.to_multiset_ensures();
        assert(m.contains(v.rows[i])) by {
            assert(v.rows.contains(v.rows[i]));
        }
        assert(m.insert(v.rows[i + 1]).remove(v.rows[i]).insert(v.rows[i]).remove(v.rows[i + 1])
            =~= m);
        assert(m.insert(v.rows[i + 1]).remove(v.rows[i]).contains(v.rows[i + 1]));
        assert(swapped(v).rows.to_multiset() =~= m);
    }
}

/// To swap the same two places again puts the rows back.
pub proof fn swapping_back_undoes(v: ModalView)
    requires
        countable(v),
        can_swap(v),
    ensures
        swapped(ModalView { selected: v.selected, ..swapped(v) }).rows == v.rows,
{
    assert(swapped(ModalView { selected: v.selected, ..swapped(v) }).rows =~= v.rows);
}

/// The order that is asked for after a swap is the order in which the rows then stand.
pub proof fn reorder_tells_the_rows(v: ModalView, key: KeyEvent)
    requires
        key_outcome(v, key) is Reorder,
    ensures
        key_outcome(v, key)->order == row_names(after_key(v, key).rows),
        row_names(after_key(v, key).rows).len() == v.rows.len(),
{
}

/// To move down and up again, or the other way round, comes back to the same row.
pub proof fn moving_back_undoes(v: ModalView, delta: int)
    requires
        has_selected(v),
        countable(v),
    ensures
        moved(moved(v, delta), -delta) == v,
        moved(v, v.rows.len() as int) == v,
{
    let len = v.rows.len() as int;
    let s = v.selected as int;
    let next = (s + delta) % len;
    vstd::arithmetic::div_mod::lemma_mod_bound(s + delta, len);
    vstd::arithmetic::div_mod::lemma_sub_mod_noop(s + delta, delta, len);
    vstd::arithmetic::div_mod::lemma_sub_mod_noop(next, delta, len);
    vstd::arithmetic::div_mod::lemma_mod_twice(s + delta, len);
    vstd::arithmetic::div_mod::lemma_small_mod(s as nat, len as nat);
    vstd::arithmetic::div_mod::lemma_mod_add_multiples_vanish(s, len);
}

/// The built-in `grok` is never removed, and only the selected row is.
pub proof fn grok_is_never_removed(v: ModalView, key: KeyEvent)
    requires
        key_outcome(v, key) is Remove,
    ensures
        !same_ignoring_case(key_outcome(v, key)->Remove_name, "grok"@),
        has_selected(v),
        key_outcome(v, key)->Remove_name == selected_row(v).name,
        after_key(v, key) == v,
{
}

/// While text is entered the panel does not close; escape gives the entry up and all that was
/// entered with it.
pub proof fn escape_cancels_before_it_closes(v: ModalView, key: KeyEvent)
    ensures
        key_outcome(v, key) is Close ==> v.mode is Normal && after_key(v, key) == v,
        v.mode is Editing && key.code == KeyCode::Esc && !is_ignored(v, key) ==> after_key(v, key)
            == cleared(v) && key_outcome(v, key) is Changed,
{
}

/// Pasted text goes into a focused text entry and nowhere else.
pub proof fn paste_only_enters_text(v: ModalView, text: Seq<char>)
    ensures
        after_paste(v, text) == (ModalView { input: after_paste(v, text).input, ..v }),
        v.mode is Normal ==> after_paste(v, text) == v,
        v.mode is Editing ==> after_paste(v, text).input == v.input + text,
{
}

/// The panel with `line` in its text entry.
pub open spec fn with_line(v: ModalView, line: Seq<char>) -> ModalView {
    ModalView { input: line, ..v }
}

/// To add a provider asks for a name, a base URL, a key and a model, and then asks for exactly
/// what was entered, without the white space round it. An empty key is none; an empty model is the
/// suggested one; the panel is then as before, without anything entered.
pub proof fn adding_collects_what_was_entered(
    v: ModalView,
    name: Seq<char>,
    base_url: Seq<char>,
    api_key: Seq<char>,
    model: Seq<char>,
)
    requires
        is_section_name(trimmed(name)),
        trimmed(base_url).len() > 0,
        !preset_keyless(trimmed(name)),
    ensures
        ({
            let named = after_confirm(with_line(adding(v), name));
            let placed = after_confirm(with_line(named, base_url));
            let keyed = after_confirm(with_line(placed, api_key));
            let last = with_line(keyed, model);
            &&& named.mode == ModalMode::Editing { add: true, field: EditField::BaseUrl }
            &&& placed.mode == ModalMode::Editing { add: true, field: EditField::ApiKey }
            &&& keyed.mode == ModalMode::Editing { add: true, field: EditField::Model }
            &&& keyed.input == suggested_model(preset_named(trimmed(name)), trimmed(name))
            &&& confirm_outcome(last) == OutcomeView::Upsert {
                name: trimmed(name),
                base_url: trimmed(base_url),
                api_key: non_empty(trimmed(api_key)),
                model: if trimmed(model).len() == 0 {
                    suggested_model(preset_named(trimmed(name)), trimmed(name))
                } else {
                    trimmed(model)
                },
                keyless: false,
            }
            &&& after_confirm(last) == cleared(v)
        }),
{
}

/// A provider that is known to need no key is added without being asked for one.
pub proof fn adding_keyless_skips_the_key(
    v: ModalView,
    name: Seq<char>,
    base_url: Seq<char>,
    model: Seq<char>,
)
    requires
        is_section_name(trimmed(name)),
        trimmed(base_url).len() > 0,
        preset_keyless(trimmed(name)),
        trimmed(model).len() > 0,
    ensures
        ({
            let named = after_confirm(with_line(adding(v), name));
            let placed = after_confirm(with_line(named, base_url));
            let last = with_line(placed, model);
            &&& named.input == preset_named(trimmed(name))->0.base_url
            &&& placed.mode == ModalMode::Editing { add: true, field: EditField::Model }
            &&& confirm_outcome(last) == OutcomeView::Upsert {
                name: trimmed(name),
                base_url: trimmed(base_url),
                api_key: None,
                model: trimmed(model),
                keyless: true,
            }
            &&& after_confirm(last) == cleared(v)
        }),
{
}

/// To edit a row shows its base URL, then asks for a key, then shows its model. Whoever confirms
/// what is shown and types no key keeps the model, and asks for no other key.
pub proof fn editing_keeps_what_is_not_typed(v: ModalView, base_url: Seq<char>, api_key: Seq<char>)
    requires
        has_selected(v),
        trimmed(base_url).len() > 0,
        trimmed(model_of(selected_row(v))).len() > 0,
    ensures
        ({
            let row = selected_row(v);
            let start = editing(v, EditField::BaseUrl);
            let placed = after_confirm(with_line(start, base_url));
            let keyed = after_confirm(with_line(placed, api_key));
            &&& start.input == row.base_url
            &&& placed.mode == ModalMode::Editing { add: false, field: EditField::ApiKey }
            &&& placed.input == Seq::<char>::empty()
            &&& keyed.mode == ModalMode::Editing { add: false, field: EditField::Model }
            &&& keyed.input == model_of(row)
            &&& confirm_outcome(keyed) == OutcomeView::Upsert {
                name: row.name,
                base_url: trimmed(base_url),
                api_key: non_empty(trimmed(api_key)),
                model: trimmed(model_of(row)),
                keyless: row.keyless || preset_keyless(row.name),
            }
            &&& after_confirm(keyed) == cleared(v)
        }),
{
}

/// A text entry that cannot be taken leaves the panel where it is, so that it can be corrected.
pub proof fn bad_entries_stay(v: ModalView, add: bool)
    ensures
        v.mode == (ModalMode::Editing { add, field: EditField::BaseUrl }) && trimmed(v.input).len()
            == 0 ==> after_confirm(v) == v && confirm_outcome(v) is Changed,
        v.mode == (ModalMode::Editing { add: true, field: EditField::ModelName })
            && !is_section_name(trimmed(v.input)) ==> after_confirm(v) == v && confirm_outcome(
            v,
        ) is Changed,
{
}

/// A configured row mirrors what the chain does with its provider, where its section resolves to
/// its own key and mark: the row shows a key or the lack of need for one just where the provider
/// gets into the chain, and it shows the endpoint that is used.
pub proof fn rows_mirror_the_chain(
    models: Map<Seq<char>, ConfigModelOverride>,
    resolved: Map<Seq<char>, SamplerConfig>,
    name: Seq<char>,
    active_model: Seq<char>,
)
    requires
        models.dom().contains(name),
        resolved.dom().contains(name),
        resolved[name]@.api_key == opt_text(models[name].api_key),
        resolved[name]@.keyless == models[name].keyless,
        models[name].base_url is Some ==> resolved[name]@.base_url == models[name].base_url->0@,
        !same_ignoring_case(name, "grok"@),
    ensures
        ({
            let row = provider_row(models, name, active_model);
            let used = layered(resolved[name]@, models, name);
            &&& is_usable(models, resolved, name) == (row.has_key || row.keyless)
            &&& row.keyless == used.keyless
            &&& models[name].base_url is Some || preset_named(name) is Some ==> row.base_url
                == used.base_url
        }),
{
}

} // verus!
