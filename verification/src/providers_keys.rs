//! How keys and pasted text act on the `/providers` panel.
use crate::presets::{preset_for, preset_named, preset_view, PresetView, ProviderPreset};
use crate::providers_modal::{
    adding, can_swap, cleared, editing, entering, has_selected, moved, row_views, selected_row,
    swapped, typed, EditField, InputOutcome, KeyCode, KeyEvent, KeyEventKind, ModalMode, ModalView,
    OutcomeView, ProviderRow, ProvidersModalState, ProvidersOp, ProvidersOutcome, RowView,
};
use crate::text::{
    contains_char, eq_ignore_ascii_case, opt_text, same_ignoring_case, same_text, texts, trim,
    trimmed,
};
use vstd::prelude::*;
use vstd::string::*;

verus! {

/// The names of rows, in order.
pub open spec fn row_names(rows: Seq<RowView>) -> Seq<Seq<char>> {
    Seq::new(rows.len(), |i: int| rows[i].name)
}

fn names_in(rows: &Vec<ProviderRow>) -> (names: Vec<String>)
    ensures
        texts(names@) == row_names(row_views(rows@)),
{
    let mut names: Vec<String> = Vec::new();
    let mut i: usize = 0;
    while i < rows.len()
        invariant
            i <= rows@.len(),
            names@.len() == i,
            forall|k: int| 0 <= k < i ==> (#[trigger] names@[k])@ == rows@[k].name@,
        decreases rows@.len() - i,
    {
        names.push(rows[i].name.clone());
        i = i + 1;
    }
    assert(texts(names@) =~= row_names(row_views(rows@)));
    names
}

/// The panel after a key while no text is entered.
pub open spec fn after_normal_key(v: ModalView, key: KeyEvent) -> ModalView {
    if !key.modifiers.none_held() {
        v
    } else if key.code == KeyCode::Down || key.code == KeyCode::Char('j') {
        moved(v, 1)
    } else if key.code == KeyCode::Up || key.code == KeyCode::Char('k') {
        moved(v, -1)
    } else if key.code == KeyCode::Char('x') {
        swapped(v)
    } else if key.code == KeyCode::Char('a') {
        adding(v)
    } else if key.code == KeyCode::Char('e') && has_selected(v) {
        editing(
            v,
            if selected_row(v).base_url.len() > 0 {
                EditField::BaseUrl
            } else {
                EditField::ApiKey
            },
        )
    } else {
        v
    }
}

/// What comes of a key while no text is entered.
pub open spec fn normal_outcome(v: ModalView, key: KeyEvent) -> OutcomeView {
    if key.code == KeyCode::Esc {
        OutcomeView::Close
    } else if !key.modifiers.none_held() {
        OutcomeView::Unchanged
    } else {
        match key.code {
            KeyCode::Down | KeyCode::Up => OutcomeView::Changed,
            KeyCode::Char(c) => if c == 'j' || c == 'k' || c == 'a' {
                OutcomeView::Changed
            } else if c == 'x' && can_swap(v) {
                OutcomeView::Reorder { order: row_names(swapped(v).rows) }
            } else if c == 'e' && has_selected(v) {
                OutcomeView::Changed
            } else if c == 'r' && has_selected(v) && !same_ignoring_case(
                selected_row(v).name,
                "grok"@,
            ) {
                OutcomeView::Remove { name: selected_row(v).name }
            } else {
                OutcomeView::Unchanged
            },
            _ => OutcomeView::Unchanged,
        }
    }
}

/// Handles a key while no text is entered: to move, reorder, add, edit, remove and close. The
/// built-in `grok` takes its key from the session and is never removed.
pub fn handle_normal_key(state: &mut ProvidersModalState, key: &KeyEvent) -> (outcome:
    ProvidersOutcome)
    ensures
        final(state)@ == after_normal_key(old(state)@, *key),
        outcome@ == normal_outcome(old(state)@, *key),
{
    match key.code {
        KeyCode::Esc => {
            return ProvidersOutcome::Close;
        },
        _ => {},
    }
    if !key.modifiers.is_empty() {
        return ProvidersOutcome::Unchanged;
    }
    match key.code {
        KeyCode::Down => {
            state.move_selection(1);
            ProvidersOutcome::Changed
        },
        KeyCode::Up => {
            state.move_selection(-1);
            ProvidersOutcome::Changed
        },
        KeyCode::Char(c) => handle_normal_char(state, c, key),
        _ => ProvidersOutcome::Unchanged,
    }
}

fn handle_normal_char(state: &mut ProvidersModalState, c: char, key: &KeyEvent) -> (outcome:
    ProvidersOutcome)
    requires
        key.code == KeyCode::Char(c),
        key.modifiers.none_held(),
    ensures
        final(state)@ == after_normal_key(old(state)@, *key),
        outcome@ == normal_outcome(old(state)@, *key),
{
    if c == 'j' {
        state.move_selection(1);
        ProvidersOutcome::Changed
    } else if c == 'k' {
        state.move_selection(-1);
        ProvidersOutcome::Changed
    } else if c == 'x' {
        if state.swap_with_next().is_some() {
            let order = names_in(&state.entries);
            ProvidersOutcome::Op(ProvidersOp::Reorder { order })
        } else {
            ProvidersOutcome::Unchanged
        }
    } else if c == 'a' {
        state.begin_add();
        ProvidersOutcome::Changed
    } else if c == 'e' && state.selected < state.entries.len() {
        assert(state.entries@[state.selected as int]@ == selected_row(state@));
        let has_url = !is_blank(state.entries[state.selected].base_url.as_str());
        state.begin_edit(
            if has_url {
                EditField::BaseUrl
            } else {
                EditField::ApiKey
            },
        );
        ProvidersOutcome::Changed
    } else if c == 'r' && state.selected < state.entries.len() {
        assert(state.entries@[state.selected as int]@ == selected_row(state@));
        let name = state.entries[state.selected].name.clone();
        if eq_ignore_ascii_case(name.as_str(), "grok") {
            ProvidersOutcome::Unchanged
        } else {
            ProvidersOutcome::Op(ProvidersOp::Remove { name })
        }
    } else {
        ProvidersOutcome::Unchanged
    }
}

fn is_blank(s: &str) -> (r: bool)
    ensures
        r == (s@.len() == 0),
{
    proof {
        reveal_strlit("");
        if s@.len() == 0 {
            assert(s@ =~= ""@);
        }
    }
    same_text(s, "")
}

/// The model that is suggested for a provider: that of its preset, else the name itself.
pub open spec fn suggested_model(preset: Option<PresetView>, name: Seq<char>) -> Seq<char> {
    match preset {
        Some(p) => p.suggested_model,
        None => name,
    }
}

/// The model that is suggested for a provider: that of its preset, else the name itself.
pub fn default_model(preset: &Option<ProviderPreset>, name: &str) -> (model: String)
    ensures
        model@ == suggested_model(preset_view(*preset), name@),
{
    match preset {
        Some(p) => p.suggested_model.to_owned(),
        None => name.to_owned(),
    }
}

/// The model of a row: the one that is set, else the one suggested for it.
pub open spec fn model_of(row: RowView) -> Seq<char> {
    match row.model {
        Some(model) => model,
        None => suggested_model(preset_named(row.name), row.name),
    }
}

fn row_model(row: &ProviderRow) -> (model: String)
    ensures
        model@ == model_of(row@),
{
    match &row.model {
        Some(model) => model.clone(),
        None => default_model(&preset_for(row.name.as_str()), row.name.as_str()),
    }
}

/// The text of an optional text, empty if there is none.
pub open spec fn or_empty(text: Option<Seq<char>>) -> Seq<char> {
    match text {
        Some(t) => t,
        None => Seq::empty(),
    }
}

/// The panel at the model step. It shows the model that the row has, or the one suggested.
pub open spec fn at_model_step(v: ModalView, add: bool) -> ModalView {
    let line = if add {
        suggested_model(preset_named(or_empty(v.name)), or_empty(v.name))
    } else if has_selected(v) {
        model_of(selected_row(v))
    } else {
        Seq::empty()
    };
    entering(v, add, EditField::Model, line)
}

fn enter_line(state: &mut ProvidersModalState, add: bool, field: EditField, line: &str)
    ensures
        final(state)@ == entering(old(state)@, add, field, line@),
{
    state.input.set_text(line);
    state.mode = ModalMode::Editing { add, field };
}

fn text_or_empty(text: &Option<String>) -> (r: String)
    ensures
        r@ == or_empty(opt_text(*text)),
{
    match text {
        Some(t) => t.clone(),
        None => String::new(),
    }
}

/// Goes to the model step.
pub fn prefill_model_step(state: &mut ProvidersModalState, add: bool)
    ensures
        final(state)@ == at_model_step(old(state)@, add),
{
    let line = if add {
        let name = text_or_empty(&state.pending_name);
        default_model(&preset_for(name.as_str()), name.as_str())
    } else if state.selected < state.entries.len() {
        assert(state.entries@[state.selected as int]@ == selected_row(state@));
        row_model(&state.entries[state.selected])
    } else {
        String::new()
    };
    enter_line(state, add, EditField::Model, line.as_str());
}

/// Whether a text can be the name of a provider's section.
pub open spec fn is_section_name(text: Seq<char>) -> bool {
    text.len() > 0 && !text.contains('"') && !text.contains('\n')
}

/// Whether a provider is known to need no key.
pub open spec fn preset_keyless(name: Seq<char>) -> bool {
    preset_named(name) is Some && preset_named(name)->0.keyless
}

fn is_preset_keyless(name: &str) -> (r: bool)
    ensures
        r == preset_keyless(name@),
{
    match preset_for(name) {
        Some(p) => p.keyless,
        None => false,
    }
}

/// A text, unless it is empty.
pub open spec fn non_empty(text: Seq<char>) -> Option<Seq<char>> {
    if text.len() == 0 {
        None
    } else {
        Some(text)
    }
}

/// The panel after a text for `field` was confirmed while adding a provider.
pub open spec fn after_add_step(v: ModalView, field: EditField) -> ModalView {
    let text = trimmed(v.input);
    match field {
        EditField::ModelName => if is_section_name(text) {
            let url = match preset_named(text) {
                Some(p) => p.base_url,
                None => Seq::empty(),
            };
            entering(ModalView { name: Some(text), ..v }, true, EditField::BaseUrl, url)
        } else {
            v
        },
        EditField::BaseUrl => if text.len() == 0 {
            v
        } else if v.name is Some && preset_keyless(v.name->0) {
            at_model_step(ModalView { base_url: Some(text), ..v }, true)
        } else {
            entering(
                ModalView { base_url: Some(text), ..v },
                true,
                EditField::ApiKey,
                Seq::empty(),
            )
        },
        EditField::ApiKey => at_model_step(ModalView { api_key: non_empty(text), ..v }, true),
        EditField::Model => cleared(v),
    }
}

/// What comes of a text for `field` confirmed while adding a provider.
pub open spec fn add_outcome(v: ModalView, field: EditField) -> OutcomeView {
    let text = trimmed(v.input);
    if field == EditField::Model && v.name is Some {
        let name = v.name->0;
        OutcomeView::Upsert {
            name,
            base_url: or_empty(v.base_url),
            api_key: v.api_key,
            model: if text.len() == 0 {
                suggested_model(preset_named(name), name)
            } else {
                text
            },
            keyless: preset_keyless(name),
        }
    } else {
        OutcomeView::Changed
    }
}

/// The panel after a text for `field` was confirmed while editing a row.
pub open spec fn after_edit_step(v: ModalView, field: EditField) -> ModalView {
    let text = trimmed(v.input);
    match field {
        EditField::BaseUrl => if text.len() == 0 {
            v
        } else {
            entering(
                ModalView { base_url: Some(text), ..v },
                false,
                EditField::ApiKey,
                Seq::empty(),
            )
        },
        EditField::ApiKey => at_model_step(ModalView { api_key: non_empty(text), ..v }, false),
        EditField::Model => cleared(v),
        EditField::ModelName => v,
    }
}

/// What comes of a text for `field` confirmed while editing a row.
pub open spec fn edit_outcome(v: ModalView, field: EditField) -> OutcomeView {
    let text = trimmed(v.input);
    if field == EditField::ModelName {
        OutcomeView::Unchanged
    } else if field == EditField::Model && has_selected(v) {
        let row = selected_row(v);
        OutcomeView::Upsert {
            name: row.name,
            base_url: match v.base_url {
                Some(url) => url,
                None => row.base_url,
            },
            api_key: v.api_key,
            model: if text.len() == 0 {
                model_of(row)
            } else {
                text
            },
            keyless: row.keyless || preset_keyless(row.name),
        }
    } else {
        OutcomeView::Changed
    }
}

/// The panel after the text entered was confirmed.
pub open spec fn after_confirm(v: ModalView) -> ModalView {
    match v.mode {
        ModalMode::Normal => v,
        ModalMode::Editing { add, field } => if add {
            after_add_step(v, field)
        } else {
            after_edit_step(v, field)
        },
    }
}

/// What comes of confirming the text entered.
pub open spec fn confirm_outcome(v: ModalView) -> OutcomeView {
    match v.mode {
        ModalMode::Normal => OutcomeView::Unchanged,
        ModalMode::Editing { add, field } => if add {
            add_outcome(v, field)
        } else {
            edit_outcome(v, field)
        },
    }
}

fn confirm_add(state: &mut ProvidersModalState, field: EditField, text: String) -> (outcome:
    ProvidersOutcome)
    requires
        text@ == trimmed(old(state)@.input),
    ensures
        final(state)@ == after_add_step(old(state)@, field),
        outcome@ == add_outcome(old(state)@, field),
{
    match field {
        EditField::ModelName => {
            if is_blank(text.as_str()) || contains_char(text.as_str(), '"') || contains_char(
                text.as_str(),
                '\n',
            ) {
                return ProvidersOutcome::Changed;
            }
            let url = match preset_for(text.as_str()) {
                Some(p) => p.base_url.to_owned(),
                None => String::new(),
            };
            state.pending_name = Some(text);
            enter_line(state, true, EditField::BaseUrl, url.as_str());
            ProvidersOutcome::Changed
        },
        EditField::BaseUrl => {
            if is_blank(text.as_str()) {
                return ProvidersOutcome::Changed;
            }
            let keyless = match &state.pending_name {
                Some(name) => is_preset_keyless(name.as_str()),
                None => false,
            };
            state.pending_base_url = Some(text);
            if keyless {
                prefill_model_step(state, true);
            } else {
                let line = String::new();
                enter_line(state, true, EditField::ApiKey, line.as_str());
            }
            ProvidersOutcome::Changed
        },
        EditField::ApiKey => {
            state.pending_api_key = if is_blank(text.as_str()) {
                None
            } else {
                Some(text)
            };
            prefill_model_step(state, true);
            ProvidersOutcome::Changed
        },
        EditField::Model => {
            let pending = state.pending_name.clone();
            match pending {
                None => {
                    state.cancel_edit();
                    ProvidersOutcome::Changed
                },
                Some(name) => {
                    let preset = preset_for(name.as_str());
                    let keyless = match &preset {
                        Some(p) => p.keyless,
                        None => false,
                    };
                    let model = if is_blank(text.as_str()) {
                        default_model(&preset, name.as_str())
                    } else {
                        text
                    };
                    let base_url = text_or_empty(&state.pending_base_url);
                    let api_key = state.pending_api_key.clone();
                    state.cancel_edit();
                    ProvidersOutcome::Op(
                        ProvidersOp::Upsert { name, base_url, api_key, model, keyless },
                    )
                },
            }
        },
    }
}

fn confirm_edit(state: &mut ProvidersModalState, field: EditField, text: String) -> (outcome:
    ProvidersOutcome)
    requires
        text@ == trimmed(old(state)@.input),
    ensures
        final(state)@ == after_edit_step(old(state)@, field),
        outcome@ == edit_outcome(old(state)@, field),
{
    match field {
        EditField::BaseUrl => {
            if is_blank(text.as_str()) {
                return ProvidersOutcome::Changed;
            }
            state.pending_base_url = Some(text);
            let line = String::new();
            enter_line(state, false, EditField::ApiKey, line.as_str());
            ProvidersOutcome::Changed
        },
        EditField::ApiKey => {
            state.pending_api_key = if is_blank(text.as_str()) {
                None
            } else {
                Some(text)
            };
            prefill_model_step(state, false);
            ProvidersOutcome::Changed
        },
        EditField::Model => {
            if state.selected >= state.entries.len() {
                state.cancel_edit();
                return ProvidersOutcome::Changed;
            }
            assert(state.entries@[state.selected as int]@ == selected_row(state@));
            let row = &state.entries[state.selected];
            let name = row.name.clone();
            let keyless = row.keyless || is_preset_keyless(name.as_str());
            let model = if is_blank(text.as_str()) {
                row_model(row)
            } else {
                text
            };
            let base_url = match &state.pending_base_url {
                Some(url) => url.clone(),
                None => row.base_url.clone(),
            };
            let api_key = state.pending_api_key.clone();
            state.cancel_edit();
            ProvidersOutcome::Op(ProvidersOp::Upsert { name, base_url, api_key, model, keyless })
        },
        EditField::ModelName => ProvidersOutcome::Unchanged,
    }
}

/// Confirms the text entered: the flow goes on to its next field, or its last one gives the
/// change. A name or base URL that cannot be taken leaves the panel as it is.
pub fn confirm_field(state: &mut ProvidersModalState) -> (outcome: ProvidersOutcome)
    ensures
        final(state)@ == after_confirm(old(state)@),
        outcome@ == confirm_outcome(old(state)@),
{
    match state.mode {
        ModalMode::Normal => ProvidersOutcome::Unchanged,
        ModalMode::Editing { add, field } => {
            let text = trim(state.input.text());
            if add {
                confirm_add(state, field, text)
            } else {
                confirm_edit(state, field, text)
            }
        },
    }
}

/// The panel after a key while text is entered.
pub open spec fn after_editing_key(v: ModalView, code: KeyCode) -> ModalView {
    match code {
        KeyCode::Esc => cleared(v),
        KeyCode::Enter => after_confirm(v),
        _ => ModalView { input: typed(v.input, code), ..v },
    }
}

/// What comes of a key while text is entered.
pub open spec fn editing_outcome(v: ModalView, code: KeyCode) -> OutcomeView {
    match code {
        KeyCode::Enter => confirm_outcome(v),
        _ => OutcomeView::Changed,
    }
}

/// Handles a key while text is entered.
pub fn handle_editing_key(state: &mut ProvidersModalState, key: &KeyEvent) -> (outcome:
    ProvidersOutcome)
    ensures
        final(state)@ == after_editing_key(old(state)@, key.code),
        outcome@ == editing_outcome(old(state)@, key.code),
{
    match key.code {
        KeyCode::Esc => {
            state.cancel_edit();
            ProvidersOutcome::Changed
        },
        KeyCode::Enter => confirm_field(state),
        _ => {
            state.input.handle_key(key);
            ProvidersOutcome::Changed
        },
    }
}

/// Whether the panel takes no notice of a key: it is let go, or it is a shortcut that does not
/// belong to the text entry.
pub open spec fn is_ignored(v: ModalView, key: KeyEvent) -> bool {
    ||| key.kind == KeyEventKind::Release
    ||| v.mode is Editing && (key.modifiers.control || key.modifiers.alt)
}

/// The panel after a key.
pub open spec fn after_key(v: ModalView, key: KeyEvent) -> ModalView {
    if is_ignored(v, key) {
        v
    } else if v.mode is Editing {
        after_editing_key(v, key.code)
    } else {
        after_normal_key(v, key)
    }
}

/// What comes of a key.
pub open spec fn key_outcome(v: ModalView, key: KeyEvent) -> OutcomeView {
    if is_ignored(v, key) {
        OutcomeView::Unchanged
    } else if v.mode is Editing {
        editing_outcome(v, key.code)
    } else {
        normal_outcome(v, key)
    }
}

/// Handles a key.
pub fn handle_providers_key(state: &mut ProvidersModalState, key: &KeyEvent) -> (outcome:
    ProvidersOutcome)
    ensures
        final(state)@ == after_key(old(state)@, *key),
        outcome@ == key_outcome(old(state)@, *key),
{
    match key.kind {
        KeyEventKind::Release => {
            return ProvidersOutcome::Unchanged;
        },
        _ => {},
    }
    match state.mode {
        ModalMode::Editing { .. } => {
            if key.modifiers.control || key.modifiers.alt {
                return ProvidersOutcome::Unchanged;
            }
            handle_editing_key(state, key)
        },
        ModalMode::Normal => handle_normal_key(state, key),
    }
}

/// The panel after a paste: only a focused text entry takes it.
pub open spec fn after_paste(v: ModalView, text: Seq<char>) -> ModalView {
    if v.mode is Editing {
        ModalView { input: v.input + text, ..v }
    } else {
        v
    }
}

/// Pastes text into the text entry, where it is focused.
pub fn handle_providers_paste(state: &mut ProvidersModalState, text: &str) -> (outcome:
    InputOutcome)
    ensures
        final(state)@ == after_paste(old(state)@, text@),
        outcome == if old(state)@.mode is Editing {
            InputOutcome::Changed
        } else {
            InputOutcome::Unchanged
        },
{
    match state.mode {
        ModalMode::Editing { .. } => {
            state.input.insert_paste(text);
            InputOutcome::Changed
        },
        ModalMode::Normal => InputOutcome::Unchanged,
    }
}

} // verus!
