//! What each key does to the `/providers` panel, and what the panel shows of the configuration.
use crate::presets::{preset_named, PresetView};
use crate::providers::ConfigModelOverride;
use crate::providers_keys::{
    after_confirm, after_editing_key, after_key, after_normal_key, after_paste, at_model_step,
    confirm_outcome, editing_outcome, key_outcome, normal_outcome, row_names, suggested_model,
};
use crate::providers_modal::{
    adding, can_swap, cleared, editing, moved, opened, provider_row, row_views, rows_of, swapped,
    typed, EditField, KeyCode, KeyEvent, KeyEventKind, KeyModifiers, ModalMode, ModalView,
    OutcomeView, ProviderRow, ProvidersModalState, ProvidersOp, ProvidersOutcome, RowView,
};
use crate::text::{same_ignoring_case, trimmed};
use vstd::prelude::*;

verus! {

/// A row shows its provider's name; the endpoint that the user set, or the known one, or none; a key
/// where the user set one, where the provider is built in, or for `grok`; the lack of need for a
/// key as it is known, or as the user marked it; the model that the user set; and whether it is
/// selected in the session.
pub proof fn a_row_shows_its_provider(
    models: Map<Seq<char>, ConfigModelOverride>,
    name: Seq<char>,
    active: Seq<char>,
)
    ensures
        ({
            let row = provider_row(models, name, active);
            let set = models.dom().contains(name);
            let known = preset_named(name);
            &&& row.name == name
            &&& set && models[name].base_url is Some ==> row.base_url == models[name].base_url->0@
            &&& !(set && models[name].base_url is Some) && known is Some ==> row.base_url
                == known->0.base_url
            &&& !(set && models[name].base_url is Some) && known is None ==> row.base_url.len()
                == 0
            &&& row.has_key == {
                ||| set && models[name].api_key is Some
                ||| !set && known is None
                ||| same_ignoring_case(name, "grok"@)
            }
            &&& known is Some ==> row.keyless == known->0.keyless
            &&& known is None ==> row.keyless == (set && models[name].keyless)
            &&& set && models[name].model is Some ==> row.model == Some(models[name].model->0@)
            &&& !(set && models[name].model is Some) ==> row.model is None
            &&& row.is_active == (name == active)
        }),
{
}

/// There is one row for each name of the order, in order.
pub proof fn rows_stand_in_order(
    models: Map<Seq<char>, ConfigModelOverride>,
    order: Seq<Seq<char>>,
    active: Seq<char>,
    i: int,
)
    ensures
        rows_of(models, order, active).len() == order.len(),
        0 <= i < order.len() ==> rows_of(models, order, active)[i] == provider_row(
            models,
            order[i],
            active,
        ),
{
}

/// A panel opens on its first row, with nothing entered.
pub proof fn a_panel_opens_on_its_first_row(rows: Seq<RowView>, active: Seq<char>)
    ensures
        opened(rows, active).rows == rows,
        opened(rows, active).selected == 0,
        opened(rows, active).scroll_offset == 0,
        opened(rows, active).active_model == active,
        opened(rows, active).last_rollover is None,
        opened(rows, active).mode is Normal,
        opened(rows, active).input.len() == 0,
        opened(rows, active).base_url is None,
        opened(rows, active).name is None,
        opened(rows, active).api_key is None,
{
}

/// The arrows and the letters `j` and `k` move the selection by one row, from either end to the
/// other, and change nothing else.
pub proof fn arrows_move_by_one_row(v: ModalView, key: KeyEvent)
    requires
        v.mode is Normal,
        key.kind != KeyEventKind::Release,
        !key.modifiers.shift && !key.modifiers.control && !key.modifiers.alt
            && !key.modifiers.other,
        v.selected < v.rows.len() <= usize::MAX,
    ensures
        key.code == KeyCode::Down || key.code == KeyCode::Char('j') ==> {
            &&& after_key(v, key).selected == if v.selected + 1 < v.rows.len() {
                v.selected + 1
            } else {
                0
            }
            &&& after_key(v, key) == (ModalView { selected: after_key(v, key).selected, ..v })
            &&& key_outcome(v, key) is Changed
        },
        key.code == KeyCode::Up || key.code == KeyCode::Char('k') ==> {
            &&& after_key(v, key).selected == if v.selected > 0 {
                v.selected - 1
            } else {
                v.rows.len() - 1
            }
            &&& after_key(v, key) == (ModalView { selected: after_key(v, key).selected, ..v })
            &&& key_outcome(v, key) is Changed
        },
{
    let len = v.rows.len() as int;
    let s = v.selected as int;
    if s + 1 < len {
        vstd::arithmetic::div_mod::lemma_small_mod((s + 1) as nat, len as nat);
    } else {
        vstd::arithmetic::div_mod::lemma_mod_self_0(len);
    }
    if s > 0 {
        vstd::arithmetic::div_mod::lemma_small_mod((s - 1) as nat, len as nat);
    } else {
        vstd::arithmetic::div_mod::lemma_fundamental_div_mod_converse(s - 1, len, -1, len - 1);
    }
}

/// The letter `x` swaps the selected row with the one below, takes the selection along and asks for
/// the new order by name; at the last row it does nothing.
pub proof fn x_swaps_with_the_row_below(v: ModalView, key: KeyEvent)
    requires
        v.mode is Normal,
        key.kind != KeyEventKind::Release,
        !key.modifiers.shift && !key.modifiers.control && !key.modifiers.alt
            && !key.modifiers.other,
        key.code == KeyCode::Char('x'),
        v.rows.len() <= usize::MAX,
    ensures
        v.selected + 1 >= v.rows.len() ==> after_key(v, key) == v && key_outcome(
            v,
            key,
        ) is Unchanged,
        v.selected + 1 < v.rows.len() ==> {
            let i = v.selected as int;
            let after = after_key(v, key);
            &&& after.rows.len() == v.rows.len()
            &&& after.rows[i] == v.rows[i + 1]
            &&& after.rows[i + 1] == v.rows[i]
            &&& forall|k: int|
                0 <= k < v.rows.len() && k != i && k != i + 1 ==> #[trigger] after.rows[k]
                    == v.rows[k]
            &&& after.selected == i + 1
            &&& after == (ModalView { rows: after.rows, selected: after.selected, ..v })
            &&& key_outcome(v, key) is Reorder
            &&& key_outcome(v, key)->order.len() == v.rows.len()
            &&& forall|k: int|
                0 <= k < v.rows.len() ==> #[trigger] key_outcome(v, key)->order[k]
                    == after.rows[k].name
        },
{
}

/// The letter `a` starts to add a provider at its name, with nothing entered; the letter `e` starts
/// to edit the selected row at its endpoint, shown as it is, or at its key where it has none, with
/// nothing else entered.
pub proof fn a_adds_and_e_edits(v: ModalView, key: KeyEvent)
    requires
        v.mode is Normal,
        key.kind != KeyEventKind::Release,
        !key.modifiers.shift && !key.modifiers.control && !key.modifiers.alt
            && !key.modifiers.other,
    ensures
        key.code == KeyCode::Char('a') ==> {
            &&& after_key(v, key).mode == ModalMode::Editing {
                add: true,
                field: EditField::ModelName,
            }
            &&& after_key(v, key).input.len() == 0
            &&& key_outcome(v, key) is Changed
        },
        key.code == KeyCode::Char('e') && v.selected < v.rows.len() ==> {
            let row = v.rows[v.selected as int];
            &&& row.base_url.len() > 0 ==> after_key(v, key).mode == (ModalMode::Editing {
                add: false,
                field: EditField::BaseUrl,
            }) && after_key(v, key).input == row.base_url
            &&& row.base_url.len() == 0 ==> after_key(v, key).mode == (ModalMode::Editing {
                add: false,
                field: EditField::ApiKey,
            }) && after_key(v, key).input.len() == 0
            &&& key_outcome(v, key) is Changed
        },
        key.code == KeyCode::Char('e') && v.selected >= v.rows.len() ==> after_key(v, key) == v
            && key_outcome(v, key) is Unchanged,
        key.code == KeyCode::Char('a') || key.code == KeyCode::Char('e') && v.selected
            < v.rows.len() ==> {
            &&& after_key(v, key).base_url is None
            &&& after_key(v, key).name is None
            &&& after_key(v, key).api_key is None
            &&& after_key(v, key).rows == v.rows
            &&& after_key(v, key).selected == v.selected
            &&& after_key(v, key).scroll_offset == v.scroll_offset
            &&& after_key(v, key).active_model == v.active_model
            &&& after_key(v, key).last_rollover == v.last_rollover
        },
{
}

/// The letter `r` asks to remove the selected provider, unless it is `grok`; escape closes the
/// panel; no other key does anything, nor any but escape with a modifier, nor any that is let go.
pub proof fn r_removes_and_escape_closes(v: ModalView, key: KeyEvent)
    requires
        v.mode is Normal,
    ensures
        ({
            let plain = !key.modifiers.shift && !key.modifiers.control && !key.modifiers.alt
                && !key.modifiers.other;
            &&& key.kind == KeyEventKind::Release ==> after_key(v, key) == v && key_outcome(
                v,
                key,
            ) is Unchanged
            &&& key.kind != KeyEventKind::Release && key.code == KeyCode::Esc ==> after_key(v, key)
                == v && key_outcome(v, key) is Close
            &&& key.code != KeyCode::Esc && !plain ==> after_key(v, key) == v && key_outcome(
                v,
                key,
            ) is Unchanged
            &&& key.kind != KeyEventKind::Release && plain && key.code == KeyCode::Char('r') ==> {
                &&& after_key(v, key) == v
                &&& v.selected < v.rows.len() && !same_ignoring_case(
                    v.rows[v.selected as int].name,
                    "grok"@,
                ) ==> key_outcome(v, key) == OutcomeView::Remove {
                    name: v.rows[v.selected as int].name,
                }
                &&& v.selected >= v.rows.len() || same_ignoring_case(
                    v.rows[v.selected as int].name,
                    "grok"@,
                ) ==> key_outcome(v, key) is Unchanged
            }
            &&& (key.code == KeyCode::Enter || key.code == KeyCode::Backspace || key.code
                == KeyCode::Other) ==> after_key(v, key) == v && key_outcome(v, key) is Unchanged
            &&& (key.code is Char && key.code->Char_0 != 'j' && key.code->Char_0 != 'k'
                && key.code->Char_0 != 'x' && key.code->Char_0 != 'a' && key.code->Char_0 != 'e'
                && key.code->Char_0 != 'r') ==> after_key(v, key) == v && key_outcome(
                v,
                key,
            ) is Unchanged
        }),
{
}

/// While text is entered a character is added to it and backspace takes the last one away; escape
/// gives everything entered up; enter confirms; a key held with control or alt is not for the
/// entry.
pub proof fn typing_edits_the_entry(v: ModalView, key: KeyEvent)
    requires
        v.mode is Editing,
    ensures
        ({
            let mine = key.kind != KeyEventKind::Release && !key.modifiers.control
                && !key.modifiers.alt;
            &&& !mine ==> after_key(v, key) == v && key_outcome(v, key) is Unchanged
            &&& mine && key.code is Char ==> after_key(v, key) == (ModalView {
                input: v.input.push(key.code->Char_0),
                ..v
            }) && key_outcome(v, key) is Changed
            &&& mine && key.code == KeyCode::Backspace ==> after_key(v, key) == (ModalView {
                input: if v.input.len() == 0 {
                    v.input
                } else {
                    v.input.drop_last()
                },
                ..v
            }) && key_outcome(v, key) is Changed
            &&& mine && (key.code == KeyCode::Up || key.code == KeyCode::Down || key.code
                == KeyCode::Other) ==> after_key(v, key) == v && key_outcome(v, key) is Changed
            &&& mine && key.code == KeyCode::Esc ==> {
                &&& after_key(v, key).mode is Normal
                &&& after_key(v, key).input.len() == 0
                &&& after_key(v, key).base_url is None
                &&& after_key(v, key).name is None
                &&& after_key(v, key).api_key is None
                &&& after_key(v, key).rows == v.rows
                &&& after_key(v, key).selected == v.selected
                &&& after_key(v, key).active_model == v.active_model
                &&& key_outcome(v, key) is Changed
            }
            &&& mine && key.code == KeyCode::Enter ==> after_key(v, key) == after_confirm(v)
                && key_outcome(v, key) == confirm_outcome(v)
        }),
{
}

/// To confirm the name of a new provider takes it without the white space round it, if it is not
/// empty and holds no quote and no line break, and goes on to the endpoint, showing the known one.
pub proof fn a_name_is_confirmed(v: ModalView)
    requires
        v.mode == (ModalMode::Editing { add: true, field: EditField::ModelName }),
    ensures
        ({
            let text = trimmed(v.input);
            let good = text.len() > 0 && !text.contains('"') && !text.contains('\n');
            &&& confirm_outcome(v) is Changed
            &&& !good ==> after_confirm(v) == v
            &&& good ==> {
                &&& after_confirm(v).name == Some(text)
                &&& after_confirm(v).mode == ModalMode::Editing {
                    add: true,
                    field: EditField::BaseUrl,
                }
                &&& preset_named(text) is Some ==> after_confirm(v).input == preset_named(
                    text,
                )->0.base_url
                &&& preset_named(text) is None ==> after_confirm(v).input.len() == 0
                &&& after_confirm(v).base_url == v.base_url
                &&& after_confirm(v).api_key == v.api_key
                &&& after_confirm(v).rows == v.rows
                &&& after_confirm(v).selected == v.selected
            }
        }),
{
}

/// To confirm an endpoint takes it without the white space round it, if any is left, and goes on to
/// the key; a new provider that is known to need none goes on to the model.
pub proof fn an_endpoint_is_confirmed(v: ModalView, add: bool)
    requires
        v.mode == (ModalMode::Editing { add, field: EditField::BaseUrl }),
    ensures
        ({
            let text = trimmed(v.input);
            let skips = add && v.name is Some && preset_named(v.name->0) is Some && preset_named(
                v.name->0,
            )->0.keyless;
            &&& confirm_outcome(v) is Changed
            &&& text.len() == 0 ==> after_confirm(v) == v
            &&& text.len() > 0 ==> {
                &&& after_confirm(v).base_url == Some(text)
                &&& after_confirm(v).name == v.name
                &&& after_confirm(v).api_key == v.api_key
                &&& after_confirm(v).rows == v.rows
                &&& after_confirm(v).selected == v.selected
                &&& !skips ==> after_confirm(v).mode == (ModalMode::Editing {
                    add,
                    field: EditField::ApiKey,
                }) && after_confirm(v).input.len() == 0
                &&& skips ==> after_confirm(v).mode == (ModalMode::Editing {
                    add,
                    field: EditField::Model,
                }) && after_confirm(v).input == preset_named(v.name->0)->0.suggested_model
            }
        }),
{
}

/// To confirm a key takes it without the white space round it, or none if nothing is left, and goes
/// on to the model: a new provider's shows the one suggested for its name, a row's the one it has
/// or else the one suggested.
pub proof fn a_key_is_confirmed(v: ModalView, add: bool)
    requires
        v.mode == (ModalMode::Editing { add, field: EditField::ApiKey }),
    ensures
        ({
            let text = trimmed(v.input);
            let after = after_confirm(v);
            &&& confirm_outcome(v) is Changed
            &&& text.len() == 0 ==> after.api_key is None
            &&& text.len() > 0 ==> after.api_key == Some(text)
            &&& after.mode == (ModalMode::Editing { add, field: EditField::Model })
            &&& after.base_url == v.base_url
            &&& after.name == v.name
            &&& after.rows == v.rows
            &&& after.selected == v.selected
            &&& add && v.name is Some ==> after.input == suggested_model(
                preset_named(v.name->0),
                v.name->0,
            )
            &&& !add && v.selected < v.rows.len() ==> {
                let row = v.rows[v.selected as int];
                &&& row.model is Some ==> after.input == row.model->0
                &&& row.model is None ==> after.input == suggested_model(
                    preset_named(row.name),
                    row.name,
                )
            }
        }),
{
}

/// To confirm the model ends the flow and asks to write the provider: a new one under the name
/// entered, a row under its own; with the endpoint entered, or the row's; with the key entered, if
/// any; with the model entered without the white space round it, or the one that the row has or
/// that is suggested if nothing is left; and with the need for a key as it is known or shown.
pub proof fn a_model_is_confirmed(v: ModalView, add: bool)
    requires
        v.mode == (ModalMode::Editing { add, field: EditField::Model }),
    ensures
        ({
            let text = trimmed(v.input);
            let after = after_confirm(v);
            let outcome = confirm_outcome(v);
            &&& after.mode is Normal
            &&& after.input.len() == 0
            &&& after.base_url is None
            &&& after.name is None
            &&& after.api_key is None
            &&& after.rows == v.rows
            &&& after.selected == v.selected
            &&& add && v.name is None ==> outcome is Changed
            &&& add && v.name is Some ==> {
                let name = v.name->0;
                &&& outcome is Upsert
                &&& outcome->Upsert_name == name
                &&& v.base_url is Some ==> outcome->base_url == v.base_url->0
                &&& v.base_url is None ==> outcome->base_url.len() == 0
                &&& outcome->api_key == v.api_key
                &&& text.len() > 0 ==> outcome->model == text
                &&& text.len() == 0 ==> outcome->model == suggested_model(
                    preset_named(name),
                    name,
                )
                &&& outcome->keyless == (preset_named(name) is Some && preset_named(
                    name,
                )->0.keyless)
            }
            &&& !add && v.selected >= v.rows.len() ==> outcome is Changed
            &&& !add && v.selected < v.rows.len() ==> {
                let row = v.rows[v.selected as int];
                &&& outcome is Upsert
                &&& outcome->Upsert_name == row.name
                &&& v.base_url is Some ==> outcome->base_url == v.base_url->0
                &&& v.base_url is None ==> outcome->base_url == row.base_url
                &&& outcome->api_key == v.api_key
                &&& text.len() > 0 ==> outcome->model == text
                &&& text.len() == 0 && row.model is Some ==> outcome->model == row.model->0
                &&& text.len() == 0 && row.model is None ==> outcome->model == suggested_model(
                    preset_named(row.name),
                    row.name,
                )
                &&& outcome->keyless == (row.keyless || preset_named(row.name) is Some
                    && preset_named(row.name)->0.keyless)
            }
        }),
{
}

/// The model suggested for a provider is the known one, and for any other its name.
pub proof fn a_model_is_suggested(name: Seq<char>)
    ensures
        preset_named(name) is Some ==> suggested_model(preset_named(name), name) == preset_named(
            name,
        )->0.suggested_model,
        preset_named(name) is None ==> suggested_model(preset_named(name), name) == name,
{
}

/// To confirm while nothing is entered, or a name while a row is edited, does nothing.
pub proof fn there_is_nothing_to_confirm(v: ModalView)
    requires
        v.mode is Normal || v.mode == (ModalMode::Editing {
            add: false,
            field: EditField::ModelName,
        }),
    ensures
        after_confirm(v) == v,
        confirm_outcome(v) is Unchanged,
{
}

/// Text that is pasted while a field is entered goes behind what was entered.
pub proof fn pasted_text_goes_behind(v: ModalView, text: Seq<char>)
    ensures
        v.mode is Editing ==> after_paste(v, text) == (ModalView { input: v.input + text, ..v }),
        v.mode is Normal ==> after_paste(v, text) == v,
{
}

/// Rows, the panel and outcomes say what they hold.
pub proof fn the_panel_says_what_it_holds(
    row: ProviderRow,
    rows: Seq<ProviderRow>,
    views: Seq<RowView>,
    state: ProvidersModalState,
    outcome: ProvidersOutcome,
    i: int,
)
    ensures
        row@.name == row.name@,
        row@.base_url == row.base_url@,
        row@.has_key == row.has_key,
        row@.keyless == row.keyless,
        row@.is_active == row.is_active,
        row.model is None ==> row@.model is None,
        row.model is Some ==> row@.model == Some(row.model->0@),
        row_views(rows).len() == rows.len(),
        0 <= i < rows.len() ==> row_views(rows)[i] == rows[i]@,
        row_names(views).len() == views.len(),
        0 <= i < views.len() ==> row_names(views)[i] == views[i].name,
        state@.rows.len() == state.entries@.len(),
        0 <= i < state.entries@.len() ==> state@.rows[i] == state.entries@[i]@,
        state@.selected == state.selected,
        state@.scroll_offset == state.scroll_offset,
        state@.active_model == state.active_model@,
        state@.mode == state.mode,
        state@.input == state.input.line@,
        state.last_rollover is None ==> state@.last_rollover is None,
        state.last_rollover is Some ==> state@.last_rollover == Some(state.last_rollover->0@),
        state.pending_base_url is None ==> state@.base_url is None,
        state.pending_base_url is Some ==> state@.base_url == Some(state.pending_base_url->0@),
        state.pending_name is None ==> state@.name is None,
        state.pending_name is Some ==> state@.name == Some(state.pending_name->0@),
        state.pending_api_key is None ==> state@.api_key is None,
        state.pending_api_key is Some ==> state@.api_key == Some(state.pending_api_key->0@),
        match outcome {
            ProvidersOutcome::Close => outcome@ is Close,
            ProvidersOutcome::Changed => outcome@ is Changed,
            ProvidersOutcome::Unchanged => outcome@ is Unchanged,
            ProvidersOutcome::Op(
                ProvidersOp::Upsert { name, base_url, api_key, model, keyless },
            ) => {
                &&& outcome@ is Upsert
                &&& outcome@->Upsert_name == name@
                &&& outcome@->base_url == base_url@
                &&& api_key is None ==> outcome@->api_key is None
                &&& api_key is Some ==> outcome@->api_key == Some(api_key->0@)
                &&& outcome@->model == model@
                &&& outcome@->keyless == keyless
            },
            ProvidersOutcome::Op(ProvidersOp::Remove { name }) => outcome@ == OutcomeView::Remove {
                name: name@,
            },
            ProvidersOutcome::Op(ProvidersOp::Reorder { order }) => {
                &&& outcome@ is Reorder
                &&& outcome@->order.len() == order@.len()
                &&& forall|k: int|
                    0 <= k < order@.len() ==> #[trigger] outcome@->order[k] == order@[k]@
            },
        },
{
}

/// A key that is handled as one of the list moves the selection just so.
pub proof fn arrows_move_by_one_row_in_any_mode(v: ModalView, key: KeyEvent)
    requires
        !key.modifiers.shift && !key.modifiers.control && !key.modifiers.alt
            && !key.modifiers.other,
        v.selected < v.rows.len() <= usize::MAX,
    ensures
        key.code == KeyCode::Down || key.code == KeyCode::Char('j') ==> {
            &&& after_normal_key(v, key).selected == if v.selected + 1 < v.rows.len() {
                v.selected + 1
            } else {
                0
            }
            &&& after_normal_key(v, key) == (ModalView { selected: after_normal_key(v, key).selected, ..v })
            &&& normal_outcome(v, key) is Changed
        },
        key.code == KeyCode::Up || key.code == KeyCode::Char('k') ==> {
            &&& after_normal_key(v, key).selected == if v.selected > 0 {
                v.selected - 1
            } else {
                v.rows.len() - 1
            }
            &&& after_normal_key(v, key) == (ModalView { selected: after_normal_key(v, key).selected, ..v })
            &&& normal_outcome(v, key) is Changed
        },
{
    let len = v.rows.len() as int;
    let s = v.selected as int;
    if s + 1 < len {
        vstd::arithmetic::div_mod::lemma_small_mod((s + 1) as nat, len as nat);
    } else {
        vstd::arithmetic::div_mod::lemma_mod_self_0(len);
    }
    if s > 0 {
        vstd::arithmetic::div_mod::lemma_small_mod((s - 1) as nat, len as nat);
    } else {
        vstd::arithmetic::div_mod::lemma_fundamental_div_mod_converse(s - 1, len, -1, len - 1);
    }
}


/// A key that is handled as one of the list swaps rows just so.
pub proof fn x_swaps_with_the_row_below_in_any_mode(v: ModalView, key: KeyEvent)
    requires
        !key.modifiers.shift && !key.modifiers.control && !key.modifiers.alt
            && !key.modifiers.other,
        key.code == KeyCode::Char('x'),
        v.rows.len() <= usize::MAX,
    ensures
        v.selected + 1 >= v.rows.len() ==> after_normal_key(v, key) == v && normal_outcome(
            v,
            key,
        ) is Unchanged,
        v.selected + 1 < v.rows.len() ==> {
            let i = v.selected as int;
            let after = after_normal_key(v, key);
            &&& after.rows.len() == v.rows.len()
            &&& after.rows[i] == v.rows[i + 1]
            &&& after.rows[i + 1] == v.rows[i]
            &&& forall|k: int|
                0 <= k < v.rows.len() && k != i && k != i + 1 ==> #[trigger] after.rows[k]
                    == v.rows[k]
            &&& after.selected == i + 1
            &&& after == (ModalView { rows: after.rows, selected: after.selected, ..v })
            &&& normal_outcome(v, key) is Reorder
            &&& normal_outcome(v, key)->order.len() == v.rows.len()
            &&& forall|k: int|
                0 <= k < v.rows.len() ==> #[trigger] normal_outcome(v, key)->order[k]
                    == after.rows[k].name
        },
{
}


/// A key that is handled as one of the list starts an entry just so.
pub proof fn a_adds_and_e_edits_in_any_mode(v: ModalView, key: KeyEvent)
    requires
        !key.modifiers.shift && !key.modifiers.control && !key.modifiers.alt
            && !key.modifiers.other,
    ensures
        key.code == KeyCode::Char('a') ==> {
            &&& after_normal_key(v, key).mode == ModalMode::Editing {
                add: true,
                field: EditField::ModelName,
            }
            &&& after_normal_key(v, key).input.len() == 0
            &&& normal_outcome(v, key) is Changed
        },
        key.code == KeyCode::Char('e') && v.selected < v.rows.len() ==> {
            let row = v.rows[v.selected as int];
            &&& row.base_url.len() > 0 ==> after_normal_key(v, key).mode == (ModalMode::Editing {
                add: false,
                field: EditField::BaseUrl,
            }) && after_normal_key(v, key).input == row.base_url
            &&& row.base_url.len() == 0 ==> after_normal_key(v, key).mode == (ModalMode::Editing {
                add: false,
                field: EditField::ApiKey,
            }) && after_normal_key(v, key).input.len() == 0
            &&& normal_outcome(v, key) is Changed
        },
        key.code == KeyCode::Char('e') && v.selected >= v.rows.len() ==> after_normal_key(v, key) == v
            && normal_outcome(v, key) is Unchanged,
        key.code == KeyCode::Char('a') || key.code == KeyCode::Char('e') && v.selected
            < v.rows.len() ==> {
            &&& after_normal_key(v, key).base_url is None
            &&& after_normal_key(v, key).name is None
            &&& after_normal_key(v, key).api_key is None
            &&& after_normal_key(v, key).rows == v.rows
            &&& after_normal_key(v, key).selected == v.selected
            &&& after_normal_key(v, key).scroll_offset == v.scroll_offset
            &&& after_normal_key(v, key).active_model == v.active_model
            &&& after_normal_key(v, key).last_rollover == v.last_rollover
        },
{
}


/// A key that is handled as one of the list removes and closes just so.
pub proof fn r_removes_and_escape_closes_in_any_mode(v: ModalView, key: KeyEvent)
    ensures
        ({
            let plain = !key.modifiers.shift && !key.modifiers.control && !key.modifiers.alt
                && !key.modifiers.other;
            &&& key.code == KeyCode::Esc ==> after_normal_key(v, key)
                == v && normal_outcome(v, key) is Close
            &&& key.code != KeyCode::Esc && !plain ==> after_normal_key(v, key) == v && normal_outcome(
                v,
                key,
            ) is Unchanged
            &&& plain && key.code == KeyCode::Char('r') ==> {
                &&& after_normal_key(v, key) == v
                &&& v.selected < v.rows.len() && !same_ignoring_case(
                    v.rows[v.selected as int].name,
                    "grok"@,
                ) ==> normal_outcome(v, key) == OutcomeView::Remove {
                    name: v.rows[v.selected as int].name,
                }
                &&& v.selected >= v.rows.len() || same_ignoring_case(
                    v.rows[v.selected as int].name,
                    "grok"@,
                ) ==> normal_outcome(v, key) is Unchanged
            }
            &&& (key.code == KeyCode::Enter || key.code == KeyCode::Backspace || key.code
                == KeyCode::Other) ==> after_normal_key(v, key) == v && normal_outcome(v, key) is Unchanged
            &&& (key.code is Char && key.code->Char_0 != 'j' && key.code->Char_0 != 'k'
                && key.code->Char_0 != 'x' && key.code->Char_0 != 'a' && key.code->Char_0 != 'e'
                && key.code->Char_0 != 'r') ==> after_normal_key(v, key) == v && normal_outcome(
                v,
                key,
            ) is Unchanged
        }),
{
}


/// A key that is handled as one of the entry edits it just so.
pub proof fn typing_edits_the_entry_in_any_mode(v: ModalView, code: KeyCode, c: char)
    ensures
        code == KeyCode::Char(c) ==> after_editing_key(v, code) == (ModalView {
            input: v.input.push(c),
            ..v
        }),
        code == KeyCode::Backspace && v.input.len() > 0 ==> after_editing_key(v, code) == (
        ModalView { input: v.input.drop_last(), ..v }),
        code == KeyCode::Backspace && v.input.len() == 0 ==> after_editing_key(v, code) == v,
        code == KeyCode::Up || code == KeyCode::Down || code == KeyCode::Other
            ==> after_editing_key(v, code) == v,
        code == KeyCode::Enter ==> after_editing_key(v, code) == after_confirm(v)
            && editing_outcome(v, code) == confirm_outcome(v),
        code != KeyCode::Enter ==> editing_outcome(v, code) is Changed,
        code == KeyCode::Esc ==> after_editing_key(v, code) == cleared(v),
{
}

/// A line grows by the character typed, shrinks by one with backspace, and is left by other keys.
pub proof fn a_line_is_typed_at_its_end(line: Seq<char>, code: KeyCode, c: char)
    ensures
        typed(line, KeyCode::Char(c)) == line.push(c),
        typed(line.push(c), KeyCode::Backspace) == line,
        typed(Seq::empty(), KeyCode::Backspace).len() == 0,
        !(code is Char) && code != KeyCode::Backspace ==> typed(line, code) == line,
{
    assert(line.push(c).drop_last() =~= line);
}

/// To give an entry up, to start to add and to start to edit leave the rows, the selection and the
/// notice, and nothing of what was entered; the endpoint of the selected row is shown where it is
/// the field to be edited, and any other field starts blank.
pub proof fn an_entry_starts_and_ends_blank(v: ModalView, field: EditField)
    ensures
        ({
            let gone = cleared(v);
            &&& gone.mode is Normal
            &&& gone.input.len() == 0
            &&& gone.base_url is None && gone.name is None && gone.api_key is None
            &&& gone.rows == v.rows && gone.selected == v.selected
            &&& gone.scroll_offset == v.scroll_offset && gone.active_model == v.active_model
            &&& gone.last_rollover == v.last_rollover
            &&& adding(v) == (ModalView {
                mode: ModalMode::Editing { add: true, field: EditField::ModelName },
                ..gone
            })
            &&& editing(v, field) == (ModalView {
                mode: ModalMode::Editing { add: false, field },
                input: editing(v, field).input,
                ..gone
            })
            &&& field == EditField::BaseUrl && v.selected < v.rows.len() ==> editing(
                v,
                field,
            ).input == v.rows[v.selected as int].base_url
            &&& field != EditField::BaseUrl || v.selected >= v.rows.len() ==> editing(
                v,
                field,
            ).input.len() == 0
        }),
{
    assert(adding(v).input =~= cleared(v).input);
}

/// To go to the model field shows the model suggested for the name entered, or the one that the row
/// has, or else the one suggested for it, and changes nothing else.
pub proof fn the_model_field_is_filled_in(v: ModalView, add: bool)
    ensures
        at_model_step(v, add) == (ModalView {
            mode: ModalMode::Editing { add, field: EditField::Model },
            input: at_model_step(v, add).input,
            ..v
        }),
        add && v.name is Some ==> at_model_step(v, add).input == suggested_model(
            preset_named(v.name->0),
            v.name->0,
        ),
        add && v.name is None ==> at_model_step(v, add).input == suggested_model(
            preset_named(Seq::empty()),
            Seq::empty(),
        ),
        !add && v.selected >= v.rows.len() ==> at_model_step(v, add).input.len() == 0,
        !add && v.selected < v.rows.len() && v.rows[v.selected as int].model is Some
            ==> at_model_step(v, add).input == v.rows[v.selected as int].model->0,
        !add && v.selected < v.rows.len() && v.rows[v.selected as int].model is None
            ==> at_model_step(v, add).input == suggested_model(
            preset_named(v.rows[v.selected as int].name),
            v.rows[v.selected as int].name,
        ),
{
}

/// The model suggested is that of the preset, if there is one, and else the name.
pub proof fn a_preset_suggests_its_model(preset: PresetView, name: Seq<char>)
    ensures
        suggested_model(Some(preset), name) == preset.suggested_model,
        suggested_model(None, name) == name,
{
}

/// No modifier is held if neither shift nor control nor alt nor any other is.
pub proof fn modifiers_are_held_or_not(m: KeyModifiers)
    ensures
        m.none_held() == (!m.shift && !m.control && !m.alt && !m.other),
{
}

/// The selection moves round and round: it stays on a row, as many rows further as was asked, up to
/// whole rounds.
pub proof fn the_selection_moves_round(v: ModalView, delta: int) -> (rounds: int)
    requires
        0 < v.rows.len() <= usize::MAX,
    ensures
        moved(v, delta).selected < v.rows.len(),
        v.selected + delta == moved(v, delta).selected + rounds * v.rows.len(),
        moved(v, delta) == (ModalView { selected: moved(v, delta).selected, ..v }),
{
    let len = v.rows.len() as int;
    let sum = v.selected + delta;
    vstd::arithmetic::div_mod::lemma_fundamental_div_mod(sum, len);
    vstd::arithmetic::div_mod::lemma_mod_bound(sum, len);
    assert(len * (sum / len) == (sum / len) * len) by (nonlinear_arith);
    sum / len
}

/// A selection in an empty panel does not move.
pub proof fn nothing_moves_in_an_empty_panel(v: ModalView, delta: int)
    requires
        v.rows.len() == 0,
    ensures
        moved(v, delta) == v,
{
}

/// Two rows are swapped, and only two: the selected one and the one below, if there is one.
pub proof fn two_rows_are_swapped(v: ModalView)
    requires
        v.rows.len() <= usize::MAX,
    ensures
        can_swap(v) == (v.selected + 1 < v.rows.len()),
        v.selected + 1 >= v.rows.len() ==> swapped(v) == v,
        v.selected + 1 < v.rows.len() ==> {
            let i = v.selected as int;
            &&& swapped(v).rows.len() == v.rows.len()
            &&& swapped(v).rows[i] == v.rows[i + 1]
            &&& swapped(v).rows[i + 1] == v.rows[i]
            &&& forall|k: int|
                0 <= k < v.rows.len() && k != i && k != i + 1 ==> #[trigger] swapped(v).rows[k]
                    == v.rows[k]
            &&& swapped(v).selected == i + 1
            &&& swapped(v) == (ModalView {
                rows: swapped(v).rows,
                selected: swapped(v).selected,
                ..v
            })
        },
{
}

} // verus!
