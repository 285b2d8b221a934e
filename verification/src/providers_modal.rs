//! The `/providers` panel: which rows it shows, how keys change it, and what the user confirms.
//!
//! Nothing is written here: handling a key gives a [`ProvidersOp`], and whoever runs the panel
//! performs it.
use crate::presets::{preset_for, preset_named, preset_view, ProviderPreset};
use crate::providers::{Config, ConfigModelOverride};
use crate::string_map::StringMap;
use crate::text::{
    eq_ignore_ascii_case, opt_text, same_ignoring_case, same_text, texts, without_last_char,
};
use vstd::arithmetic::div_mod::lemma_fundamental_div_mod_converse;
use vstd::prelude::*;
use vstd::string::*;

verus! {

/// One provider of the failover order.
#[derive(Debug, Clone)]
pub struct ProviderRow {
    /// The name of its `[model.<name>]` section.
    pub name: String,
    pub base_url: String,
    pub has_key: bool,
    /// Needs no key, as a local server.
    pub keyless: bool,
    /// The model id of its section, where one is set.
    pub model: Option<String>,
    /// Is the model that the session has selected.
    pub is_active: bool,
}

/// Which field a text entry is for.
#[derive(Debug, Clone, Copy, PartialEq, Eq, Structural)]
pub enum EditField {
    BaseUrl,
    ApiKey,
    /// The name of a new provider's section; only when adding.
    ModelName,
    /// The provider's model id.
    Model,
}

#[derive(Debug, Clone, Copy, PartialEq, Eq, Structural)]
pub enum ModalMode {
    Normal,
    /// The text entry is focused. With `add` a new provider is made (name, base URL, key, model);
    /// else the selected row is edited (base URL, key, model).
    Editing { add: bool, field: EditField },
}

/// A change that the user confirmed.
#[derive(Debug, Clone, PartialEq, Eq)]
pub enum ProvidersOp {
    Upsert {
        name: String,
        base_url: String,
        api_key: Option<String>,
        model: String,
        keyless: bool,
    },
    /// Never the built-in `grok`.
    Remove { name: String },
    /// The whole new order.
    Reorder { order: Vec<String> },
}

#[derive(Debug, Clone, PartialEq, Eq)]
pub enum ProvidersOutcome {
    Close,
    Changed,
    Unchanged,
    Op(ProvidersOp),
}

/// What came of a paste.
#[derive(Debug, Clone, Copy, PartialEq, Eq, Structural)]
pub enum InputOutcome {
    Changed,
    Unchanged,
}

/// The keys that the panel tells apart.
#[derive(Debug, Clone, Copy, PartialEq, Eq, Structural)]
pub enum KeyCode {
    Char(char),
    Up,
    Down,
    Enter,
    Esc,
    Backspace,
    Other,
}

/// The modifiers held with a key.
#[derive(Debug, Clone, Copy, PartialEq, Eq, Structural)]
pub struct KeyModifiers {
    pub shift: bool,
    pub control: bool,
    pub alt: bool,
    /// Any other modifier.
    pub other: bool,
}

impl KeyModifiers {
    /// Whether no modifier is held.
    pub open spec fn none_held(self) -> bool {
        !self.shift && !self.control && !self.alt && !self.other
    }

    /// Whether no modifier is held.
    pub fn is_empty(&self) -> (r: bool)
        ensures
            r == self.none_held(),
    {
        !self.shift && !self.control && !self.alt && !self.other
    }
}

#[derive(Debug, Clone, Copy, PartialEq, Eq, Structural)]
pub enum KeyEventKind {
    Press,
    Repeat,
    Release,
}

#[derive(Debug, Clone, Copy, PartialEq, Eq, Structural)]
pub struct KeyEvent {
    pub code: KeyCode,
    pub modifiers: KeyModifiers,
    pub kind: KeyEventKind,
}

/// A line of text that is typed at its end.
#[derive(Debug, Clone)]
pub struct LineEditor {
    pub line: String,
}

/// The line after a key: a character is added, backspace takes the last one away, and any other
/// key leaves it as it is.
pub open spec fn typed(line: Seq<char>, code: KeyCode) -> Seq<char> {
    match code {
        KeyCode::Char(c) => line.push(c),
        KeyCode::Backspace => if line.len() == 0 {
            line
        } else {
            line.drop_last()
        },
        _ => line,
    }
}

impl LineEditor {
    pub fn new() -> (r: Self)
        ensures
            r.line@ == Seq::<char>::empty(),
    {
        LineEditor { line: String::new() }
    }

    pub fn text(&self) -> (r: &str)
        ensures
            r@ == self.line@,
    {
        self.line.as_str()
    }

    pub fn set_text(&mut self, text: &str)
        ensures
            final(self).line@ == text@,
    {
        self.line = text.to_owned();
    }

    pub fn handle_key(&mut self, key: &KeyEvent)
        ensures
            final(self).line@ == typed(old(self).line@, key.code),
    {
        match key.code {
            KeyCode::Char(c) => {
                self.line.push(c);
            },
            KeyCode::Backspace => {
                self.line = without_last_char(self.line.as_str());
            },
            _ => {},
        }
    }

    pub fn insert_paste(&mut self, text: &str)
        ensures
            final(self).line@ == old(self).line@ + text@,
    {
        self.line.append(text);
    }
}

/// The state of the panel.
#[derive(Debug, Clone)]
pub struct ProvidersModalState {
    pub entries: Vec<ProviderRow>,
    pub selected: usize,
    pub scroll_offset: usize,
    pub active_model: String,
    pub last_rollover: Option<String>,
    pub mode: ModalMode,
    pub input: LineEditor,
    /// What was entered before in the current flow.
    pub pending_base_url: Option<String>,
    pub pending_name: Option<String>,
    /// A key that was typed; none keeps the key that is there.
    pub pending_api_key: Option<String>,
}

/// What a [`ProviderRow`] says.
pub struct RowView {
    pub name: Seq<char>,
    pub base_url: Seq<char>,
    pub has_key: bool,
    pub keyless: bool,
    pub model: Option<Seq<char>>,
    pub is_active: bool,
}

impl View for ProviderRow {
    type V = RowView;

    open spec fn view(&self) -> RowView {
        RowView {
            name: self.name@,
            base_url: self.base_url@,
            has_key: self.has_key,
            keyless: self.keyless,
            model: opt_text(self.model),
            is_active: self.is_active,
        }
    }
}

/// What the rows of a list say.
pub open spec fn row_views(rows: Seq<ProviderRow>) -> Seq<RowView> {
    Seq::new(rows.len(), |i: int| rows[i]@)
}

/// What a [`ProvidersModalState`] says.
pub struct ModalView {
    pub rows: Seq<RowView>,
    pub selected: usize,
    pub scroll_offset: usize,
    pub active_model: Seq<char>,
    pub last_rollover: Option<Seq<char>>,
    pub mode: ModalMode,
    pub input: Seq<char>,
    pub base_url: Option<Seq<char>>,
    pub name: Option<Seq<char>>,
    pub api_key: Option<Seq<char>>,
}

impl View for ProvidersModalState {
    type V = ModalView;

    open spec fn view(&self) -> ModalView {
        ModalView {
            rows: row_views(self.entries@),
            selected: self.selected,
            scroll_offset: self.scroll_offset,
            active_model: self.active_model@,
            last_rollover: opt_text(self.last_rollover),
            mode: self.mode,
            input: self.input.line@,
            base_url: opt_text(self.pending_base_url),
            name: opt_text(self.pending_name),
            api_key: opt_text(self.pending_api_key),
        }
    }
}

/// What a [`ProvidersOutcome`] says.
pub enum OutcomeView {
    Close,
    Changed,
    Unchanged,
    Upsert {
        name: Seq<char>,
        base_url: Seq<char>,
        api_key: Option<Seq<char>>,
        model: Seq<char>,
        keyless: bool,
    },
    Remove { name: Seq<char> },
    Reorder { order: Seq<Seq<char>> },
}

impl View for ProvidersOutcome {
    type V = OutcomeView;

    open spec fn view(&self) -> OutcomeView {
        match *self {
            ProvidersOutcome::Close => OutcomeView::Close,
            ProvidersOutcome::Changed => OutcomeView::Changed,
            ProvidersOutcome::Unchanged => OutcomeView::Unchanged,
            ProvidersOutcome::Op(
                ProvidersOp::Upsert { name, base_url, api_key, model, keyless },
            ) => OutcomeView::Upsert {
                name: name@,
                base_url: base_url@,
                api_key: opt_text(api_key),
                model: model@,
                keyless,
            },
            ProvidersOutcome::Op(ProvidersOp::Remove { name }) => OutcomeView::Remove {
                name: name@,
            },
            ProvidersOutcome::Op(ProvidersOp::Reorder { order }) => OutcomeView::Reorder {
                order: texts(order@),
            },
        }
    }
}

/// The row of one name of the order. Whether it has a key is judged without resolving credentials:
/// a model that is neither configured nor in the catalogue is built in, and the session has the
/// key.
pub open spec fn provider_row(
    models: Map<Seq<char>, ConfigModelOverride>,
    name: Seq<char>,
    active_model: Seq<char>,
) -> RowView {
    let configured = models.dom().contains(name);
    let model = models[name];
    let preset = preset_named(name);
    RowView {
        name,
        base_url: if configured && model.base_url is Some {
            model.base_url->0@
        } else if preset is Some {
            preset->0.base_url
        } else {
            Seq::empty()
        },
        has_key: {
            ||| configured && model.api_key is Some
            ||| !configured && preset is None
            ||| same_ignoring_case(name, "grok"@)
        },
        keyless: match preset {
            Some(p) => p.keyless,
            None => configured && model.keyless,
        },
        model: if configured {
            opt_text(model.model)
        } else {
            None
        },
        is_active: name == active_model,
    }
}

/// The rows of an order.
pub open spec fn rows_of(
    models: Map<Seq<char>, ConfigModelOverride>,
    order: Seq<Seq<char>>,
    active_model: Seq<char>,
) -> Seq<RowView> {
    Seq::new(order.len(), |i: int| provider_row(models, order[i], active_model))
}

fn row_for(models: &StringMap<ConfigModelOverride>, name: &str, active_model: &str) -> (row:
    ProviderRow)
    ensures
        row@ == provider_row(models@, name@, active_model@),
{
    let configured = models.get(name);
    let preset = preset_for(name);
    let own_url = match configured {
        Some(model) => model.base_url.clone(),
        None => None,
    };
    let base_url = match own_url {
        Some(url) => url,
        None => match &preset {
            Some(p) => p.base_url.to_owned(),
            None => String::new(),
        },
    };
    let has_key = match configured {
        Some(model) => model.api_key.is_some(),
        None => preset.is_none(),
    } || eq_ignore_ascii_case(name, "grok");
    let marked = match configured {
        Some(model) => model.keyless,
        None => false,
    };
    let keyless = match &preset {
        Some(p) => p.keyless,
        None => marked,
    };
    let model = match configured {
        Some(model) => model.model.clone(),
        None => None,
    };
    let is_active = same_text(name, active_model);
    ProviderRow { name: name.to_owned(), base_url, has_key, keyless, model, is_active }
}

/// One row for each name of the configured order, in order.
pub fn provider_rows(cfg: &Config, active_model: &str) -> (rows: Vec<ProviderRow>)
    ensures
        row_views(rows@) == rows_of(
            cfg.config_models@,
            texts(cfg.failover.order@),
            active_model@,
        ),
{
    let ghost order = texts(cfg.failover.order@);
    let mut rows: Vec<ProviderRow> = Vec::new();
    let mut i: usize = 0;
    while i < cfg.failover.order.len()
        invariant
            i <= cfg.failover.order@.len(),
            order == texts(cfg.failover.order@),
            rows@.len() == i,
            forall|k: int|
                0 <= k < i ==> (#[trigger] rows@[k])@ == provider_row(
                    cfg.config_models@,
                    order[k],
                    active_model@,
                ),
        decreases cfg.failover.order@.len() - i,
    {
        rows.push(row_for(&cfg.config_models, cfg.failover.order[i].as_str(), active_model));
        i = i + 1;
    }
    assert(row_views(rows@) =~= rows_of(cfg.config_models@, order, active_model@));
    rows
}

/// A panel that has just opened.
pub open spec fn opened(rows: Seq<RowView>, active_model: Seq<char>) -> ModalView {
    ModalView {
        rows,
        selected: 0,
        scroll_offset: 0,
        active_model,
        last_rollover: None,
        mode: ModalMode::Normal,
        input: Seq::empty(),
        base_url: None,
        name: None,
        api_key: None,
    }
}

/// Opens the panel on the configuration. One that could not be read gives an empty panel, in which
/// providers can still be added.
pub fn build_providers_modal_state(cfg: Option<&Config>, active_model: &str) -> (state:
    ProvidersModalState)
    ensures
        state@ == opened(
            match cfg {
                Some(c) => rows_of(
                    c.config_models@,
                    texts(c.failover.order@),
                    active_model@,
                ),
                None => Seq::empty(),
            },
            active_model@,
        ),
{
    let entries = match cfg {
        Some(c) => provider_rows(c, active_model),
        None => {
            let none: Vec<ProviderRow> = Vec::new();
            assert(row_views(none@) =~= Seq::empty());
            none
        },
    };
    ProvidersModalState {
        entries,
        selected: 0,
        scroll_offset: 0,
        active_model: active_model.to_owned(),
        last_rollover: None,
        mode: ModalMode::Normal,
        input: LineEditor::new(),
        pending_base_url: None,
        pending_name: None,
        pending_api_key: None,
    }
}

/// The panel with the selection moved by `delta` rows, round and round.
pub open spec fn moved(v: ModalView, delta: int) -> ModalView {
    if v.rows.len() == 0 {
        v
    } else {
        ModalView { selected: ((v.selected + delta) % (v.rows.len() as int)) as usize, ..v }
    }
}

/// Whether a row stands below the selected one.
pub open spec fn can_swap(v: ModalView) -> bool {
    v.selected + 1 < v.rows.len()
}

/// The panel with the selected row and the one below it swapped, and the selection on the row that
/// was moved.
pub open spec fn swapped(v: ModalView) -> ModalView {
    if can_swap(v) {
        let i = v.selected as int;
        ModalView {
            rows: v.rows.update(i, v.rows[i + 1]).update(i + 1, v.rows[i]),
            selected: (v.selected + 1) as usize,
            ..v
        }
    } else {
        v
    }
}

/// The panel with `line` in its text entry, for `field`.
pub open spec fn entering(v: ModalView, add: bool, field: EditField, line: Seq<char>) -> ModalView {
    ModalView { mode: ModalMode::Editing { add, field }, input: line, ..v }
}

/// The panel with nothing entered.
pub open spec fn cleared(v: ModalView) -> ModalView {
    ModalView {
        mode: ModalMode::Normal,
        input: Seq::empty(),
        base_url: None,
        name: None,
        api_key: None,
        ..v
    }
}

/// The panel at the start of adding a provider.
pub open spec fn adding(v: ModalView) -> ModalView {
    entering(cleared(v), true, EditField::ModelName, Seq::empty())
}

/// Whether a row is selected.
pub open spec fn has_selected(v: ModalView) -> bool {
    v.selected < v.rows.len()
}

/// The selected row.
pub open spec fn selected_row(v: ModalView) -> RowView {
    v.rows[v.selected as int]
}

/// The panel at the start of editing the selected row. The base URL is shown as it is; a key is
/// secret and stays blank.
pub open spec fn editing(v: ModalView, field: EditField) -> ModalView {
    let line = if field == EditField::BaseUrl && has_selected(v) {
        selected_row(v).base_url
    } else {
        Seq::empty()
    };
    entering(cleared(v), false, field, line)
}

impl ProvidersModalState {
    /// Moves the selection by `delta` rows; past either end it comes in at the other.
    pub fn move_selection(&mut self, delta: isize)
        ensures
            final(self)@ == moved(old(self)@, delta as int),
    {
        if self.entries.len() == 0 {
            return ;
        }
        let len: i128 = self.entries.len() as i128;
        let sum: i128 = self.selected as i128 + delta as i128;
        let next: i128 = if sum >= 0 {
            sum % len
        } else {
            let back: i128 = (-sum) % len;
            if back == 0 {
                0
            } else {
                len - back
            }
        };
        proof {
            lemma_wrapped(sum as int, len as int);
        }
        self.selected = next as usize;
    }

    /// Swaps the selected row with the one below and gives the two indices; at the last row
    /// nothing happens.
    pub fn swap_with_next(&mut self) -> (r: Option<(usize, usize)>)
        ensures
            final(self)@ == swapped(old(self)@),
            r == if can_swap(old(self)@) {
                Some((old(self)@.selected, (old(self)@.selected + 1) as usize))
            } else {
                None
            },
    {
        if self.selected >= self.entries.len() || self.entries.len() - self.selected <= 1 {
            return None;
        }
        let at = self.selected;
        let ghost before = row_views(self.entries@);
        let row = self.entries.remove(at);
        self.entries.insert(at + 1, row);
        assert(row_views(self.entries@) =~= before.update(at as int, before[at + 1]).update(
            at + 1,
            before[at as int],
        ));
        self.selected = at + 1;
        Some((at, at + 1))
    }

    /// Starts to add a provider.
    pub fn begin_add(&mut self)
        ensures
            final(self)@ == adding(old(self)@),
    {
        self.cancel_edit();
        self.mode = ModalMode::Editing { add: true, field: EditField::ModelName };
    }

    /// Starts to edit the selected row.
    pub fn begin_edit(&mut self, field: EditField)
        ensures
            final(self)@ == editing(old(self)@, field),
    {
        let line = if field == EditField::BaseUrl && self.selected < self.entries.len() {
            self.entries[self.selected].base_url.clone()
        } else {
            String::new()
        };
        self.cancel_edit();
        self.input.set_text(line.as_str());
        self.mode = ModalMode::Editing { add: false, field };
    }

    /// Gives the text entry up.
    pub fn cancel_edit(&mut self)
        ensures
            final(self)@ == cleared(old(self)@),
    {
        self.mode = ModalMode::Normal;
        self.input = LineEditor::new();
        self.pending_base_url = None;
        self.pending_name = None;
        self.pending_api_key = None;
    }

    /// The preset of a provider, whatever the case of its name.
    pub fn preset_for(&self, name: &str) -> (preset: Option<ProviderPreset>)
        ensures
            preset_view(preset) == preset_named(name@),
    {
        preset_for(name)
    }
}

proof fn lemma_wrapped(sum: int, len: int)
    requires
        len > 0,
    ensures
        0 <= sum % len < len,
        sum < 0 ==> sum % len == if (-sum) % len == 0 {
            0
        } else {
            len - (-sum) % len
        },
{
    if sum < 0 {
        let q = (-sum) / len;
        let back = (-sum) % len;
        assert(-sum == q * len + back) by (nonlinear_arith)
            requires
                q == (-sum) / len,
                back == (-sum) % len,
                len > 0,
        ;
        if back == 0 {
            assert(sum == (-q) * len + 0) by (nonlinear_arith)
                requires
                    -sum == q * len + back,
                    back == 0,
            ;
            lemma_fundamental_div_mod_converse(sum, len, -q, 0);
        } else {
            assert(sum == (-q - 1) * len + (len - back)) by (nonlinear_arith)
                requires
                    -sum == q * len + back,
            ;
            lemma_fundamental_div_mod_converse(sum, len, -q - 1, len - back);
        }
    }
}

} // verus!
