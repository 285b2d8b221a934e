//! Where everything of the `/providers` panel is drawn.
//!
//! The layout is a list of drawing steps in screen cells, to be carried out in order.
use crate::providers_keys::or_empty;
use crate::providers_modal::{
    has_selected, row_views, selected_row, EditField, ModalMode, ModalView, ProviderRow,
    ProvidersModalState, RowView,
};
use crate::text::{chars_of, joined};
use vstd::prelude::*;
use vstd::string::*;
use vstd::utf8::{encode_utf8, is_ascii_chars, is_ascii_chars_encode_utf8};

verus! {

/// A rectangle of screen cells.
#[derive(Debug, Clone, Copy, PartialEq, Eq, Structural)]
pub struct Area {
    pub x: u16,
    pub y: u16,
    pub width: u16,
    pub height: u16,
}

/// What a text stands for, from which its colours follow.
#[derive(Debug, Clone, Copy, PartialEq, Eq, Structural)]
pub enum Tone {
    /// A notice that a request went on to another provider.
    Rollover,
    /// The name of the selected model's provider.
    ActiveName,
    Name,
    Quiet,
    /// A key that is needed is missing.
    Missing,
    Prompt,
}

/// One drawing step.
#[derive(Debug)]
pub enum Draw {
    /// Gives an area its background, that of the selected row or that of the panel.
    Background { area: Area, selected: bool },
    /// Draws a text, cut off after `width` cells.
    Text { x: u16, y: u16, width: u16, text: String, tone: Tone, selected: bool },
    /// Draws the text of the text entry with a cursor behind it, cut off at its start.
    Entry { x: u16, y: u16, width: u16, text: String },
}

/// What a [`Draw`] says.
pub enum DrawView {
    Background { area: Area, selected: bool },
    Text { x: u16, y: u16, width: u16, text: Seq<char>, tone: Tone, selected: bool },
    Entry { x: u16, y: u16, width: u16, text: Seq<char> },
}

impl View for Draw {
    type V = DrawView;

    open spec fn view(&self) -> DrawView {
        match *self {
            Draw::Background { area, selected } => DrawView::Background { area, selected },
            Draw::Text { x, y, width, text, tone, selected } => DrawView::Text {
                x,
                y,
                width,
                text: text@,
                tone,
                selected,
            },
            Draw::Entry { x, y, width, text } => DrawView::Entry { x, y, width, text: text@ },
        }
    }
}

/// What the steps of a list say.
pub open spec fn draw_views(draws: Seq<Draw>) -> Seq<DrawView> {
    Seq::new(draws.len(), |i: int| draws[i]@)
}

/// A shortcut shown at the foot of the panel.
#[derive(Debug, Clone, Copy)]
pub struct Shortcut {
    pub label: &'static str,
    pub clickable: bool,
    pub id: usize,
}

/// The labels of the shortcuts.
pub open spec fn shortcut_labels(mode: ModalMode) -> Seq<Seq<char>> {
    if mode is Editing {
        seq!["Enter save"@, "Esc cancel"@]
    } else {
        seq![
            "\u{2191}/\u{2193} move"@,
            "x swap down"@,
            "a add"@,
            "e edit"@,
            "r remove"@,
            "Esc close"@,
        ]
    }
}

/// Whether `shortcuts` are plain labels with these texts.
pub open spec fn are_labels(shortcuts: Seq<Shortcut>, labels: Seq<Seq<char>>) -> bool {
    &&& shortcuts.len() == labels.len()
    &&& forall|i: int|
        0 <= i < labels.len() ==> (#[trigger] shortcuts[i]).label@ == labels[i]
            && !shortcuts[i].clickable && shortcuts[i].id == 0
}

fn plain_shortcut(label: &'static str) -> (r: Shortcut)
    ensures
        r.label@ == label@,
        !r.clickable,
        r.id == 0,
{
    Shortcut { label, clickable: false, id: 0 }
}

/// The shortcuts of a mode.
pub fn build_shortcuts(mode: &ModalMode) -> (shortcuts: Vec<Shortcut>)
    ensures
        are_labels(shortcuts@, shortcut_labels(*mode)),
{
    let mut shortcuts: Vec<Shortcut> = Vec::new();
    match mode {
        ModalMode::Editing { .. } => {
            shortcuts.push(plain_shortcut("Enter save"));
            shortcuts.push(plain_shortcut("Esc cancel"));
        },
        ModalMode::Normal => {
            shortcuts.push(plain_shortcut("\u{2191}/\u{2193} move"));
            shortcuts.push(plain_shortcut("x swap down"));
            shortcuts.push(plain_shortcut("a add"));
            shortcuts.push(plain_shortcut("e edit"));
            shortcuts.push(plain_shortcut("r remove"));
            shortcuts.push(plain_shortcut("Esc close"));
        },
    }
    shortcuts
}

/// The title of the panel.
pub fn panel_title(state: &ProvidersModalState) -> (title: String)
    ensures
        title@ == "Providers \u{2014} active: "@ + state@.active_model,
{
    joined("Providers \u{2014} active: ", state.active_model.as_str())
}

/// The prompt of the text entry.
pub open spec fn prompt_of(v: ModalView) -> Seq<char> {
    match v.mode {
        ModalMode::Normal => Seq::empty(),
        ModalMode::Editing { add, field } => match field {
            EditField::ModelName => if add {
                "name (e.g. openai, ollama-local): "@
            } else {
                Seq::empty()
            },
            EditField::BaseUrl => "base_url: "@,
            EditField::ApiKey => if add {
                "api_key (empty = none): "@
            } else if has_selected(v) && selected_row(v).has_key {
                "api_key (empty = keep current): "@
            } else {
                "api_key: "@
            },
            EditField::Model => if add {
                "model (Enter = default): "@
            } else {
                "model (empty = keep): "@
            },
        },
    }
}

/// The prompt of the text entry.
pub fn edit_prompt(state: &ProvidersModalState) -> (prompt: String)
    ensures
        prompt@ == prompt_of(state@),
{
    match state.mode {
        ModalMode::Normal => String::new(),
        ModalMode::Editing { add, field } => match field {
            EditField::ModelName => if add {
                "name (e.g. openai, ollama-local): ".to_owned()
            } else {
                String::new()
            },
            EditField::BaseUrl => "base_url: ".to_owned(),
            EditField::ApiKey => if add {
                "api_key (empty = none): ".to_owned()
            } else {
                let has_key = if state.selected < state.entries.len() {
                    assert(state.entries@[state.selected as int]@ == selected_row(state@));
                    state.entries[state.selected].has_key
                } else {
                    false
                };
                if has_key {
                    "api_key (empty = keep current): ".to_owned()
                } else {
                    "api_key: ".to_owned()
                }
            },
            EditField::Model => if add {
                "model (Enter = default): ".to_owned()
            } else {
                "model (empty = keep): ".to_owned()
            },
        },
    }
}

/// What the text entry shows of what was typed: a key is never shown, each of its characters is an
/// asterisk.
pub open spec fn entry_shown(v: ModalView) -> Seq<char> {
    if enters_key(v.mode) {
        Seq::new(v.input.len(), |i: int| '*')
    } else {
        v.input
    }
}

/// Whether a key is entered.
pub open spec fn enters_key(mode: ModalMode) -> bool {
    mode matches ModalMode::Editing { field, .. } && field == EditField::ApiKey
}

/// What the text entry shows: what was typed, or an asterisk for each character of a key.
pub fn entry_text(state: &ProvidersModalState) -> (shown: String)
    ensures
        shown@ == entry_shown(state@),
{
    match state.mode {
        ModalMode::Editing { field: EditField::ApiKey, .. } => masked(state.input.text()),
        _ => state.input.text().to_owned(),
    }
}

fn masked(text: &str) -> (r: String)
    ensures
        r@ == Seq::new(text@.len(), |i: int| '*'),
{
    let chars = chars_of(text);
    let mut r = String::new();
    let mut i: usize = 0;
    while i < chars.len()
        invariant
            i <= chars@.len(),
            chars@ == text@,
            r@.len() == i,
            forall|k: int| 0 <= k < i ==> #[trigger] r@[k] == '*',
        decreases chars@.len() - i,
    {
        r.push('*');
        i = i + 1;
    }
    assert(r@ =~= Seq::new(text@.len(), |i: int| '*'));
    r
}

/// How many bytes a text has in UTF-8, in the sixteen bits that the layout counts in.
pub open spec fn byte_width(text: Seq<char>) -> u16 {
    ((encode_utf8(text).len() as usize) % 0x1_0000) as u16
}

fn bytes_across(text: &str) -> (n: u16)
    ensures
        n == byte_width(text@),
{
    let bytes: usize = text.len();
    (bytes % 0x1_0000) as u16
}

/// Whether the panel has room for anything.
pub open spec fn is_roomy(area: Area) -> bool {
    area.height >= 1 && area.width >= 10
}

/// How many lines of the panel are left for rows: a notice takes one, and the text entry another.
pub open spec fn row_lines(v: ModalView, area: Area) -> int {
    let noted = if v.last_rollover is Some {
        1int
    } else {
        0
    };
    let entered = if v.mode is Editing {
        1int
    } else {
        0
    };
    if area.height > noted + entered {
        area.height - noted - entered
    } else {
        0
    }
}

/// The line of the first row.
pub open spec fn first_row_y(v: ModalView, area: Area) -> int {
    if v.last_rollover is Some {
        area.y + 1
    } else {
        area.y as int
    }
}

/// The first row that is shown: as before, unless the selected row would be out of sight.
pub open spec fn first_row(v: ModalView, area: Area) -> int {
    let lines = row_lines(v, area);
    let kept: int = if v.selected < v.scroll_offset {
        v.selected as int
    } else {
        v.scroll_offset as int
    };
    if v.selected >= kept + lines && lines > 0 {
        v.selected + 1 - lines
    } else {
        kept
    }
}

/// The row after the last one that is shown.
pub open spec fn row_end(v: ModalView, area: Area) -> int {
    let end = first_row(v, area) + row_lines(v, area);
    if end < v.rows.len() {
        end
    } else {
        v.rows.len() as int
    }
}

/// What is shown of a row's key.
pub open spec fn key_label(row: RowView) -> Seq<char> {
    if row.keyless {
        "keyless"@
    } else if row.has_key {
        "key set"@
    } else {
        "no key"@
    }
}

/// The width of [`key_label`].
pub open spec fn key_width(row: RowView) -> int {
    key_label(row).len() as int
}

/// How many cells lie between the start of a row and its base URL.
pub open spec fn url_shift(row: RowView) -> int {
    byte_width(row.name) + 3
}

/// How many cells are left for the base URL of a row.
pub open spec fn url_room(row: RowView, area: Area) -> int {
    area.width - key_width(row) - url_shift(row) - 1
}

/// The steps for a row at the line `y`: its background, its name with a marker if it is active,
/// the state of its key at the right, and its base URL where there is room.
pub open spec fn row_draws(row: RowView, area: Area, y: int, selected: bool) -> Seq<DrawView> {
    let marker = if row.is_active {
        "\u{25CF} "@
    } else {
        "  "@
    };
    let first = seq![
        DrawView::Background {
            area: Area { x: area.x, y: y as u16, width: area.width, height: 1 },
            selected,
        },
        DrawView::Text {
            x: area.x,
            y: y as u16,
            width: area.width,
            text: marker + row.name,
            tone: name_tone(row),
            selected,
        },
        DrawView::Text {
            x: (area.x + area.width - key_width(row)) as u16,
            y: y as u16,
            width: key_width(row) as u16,
            text: key_label(row),
            tone: key_tone(row),
            selected,
        },
    ];
    if url_room(row, area) > 1 {
        first.push(
            DrawView::Text {
                x: (area.x + url_shift(row)) as u16,
                y: y as u16,
                width: url_room(row, area) as u16,
                text: row.base_url,
                tone: Tone::Quiet,
                selected,
            },
        )
    } else {
        first
    }
}

/// The tone of a row's name.
pub open spec fn name_tone(row: RowView) -> Tone {
    if row.is_active {
        Tone::ActiveName
    } else {
        Tone::Name
    }
}

/// The tone of a row's key.
pub open spec fn key_tone(row: RowView) -> Tone {
    if row.has_key || row.keyless {
        Tone::Quiet
    } else {
        Tone::Missing
    }
}

/// The steps for the rows from the first one shown up to `end`.
pub open spec fn rows_draws(v: ModalView, area: Area, end: int) -> Seq<DrawView>
    decreases end - first_row(v, area),
{
    if end <= first_row(v, area) {
        Seq::empty()
    } else {
        rows_draws(v, area, end - 1) + row_draws(
            v.rows[end - 1],
            area,
            first_row_y(v, area) + (end - 1 - first_row(v, area)),
            end - 1 == v.selected,
        )
    }
}

/// The steps before the rows: the background, and the notice where there is one.
pub open spec fn head_draws(v: ModalView, area: Area) -> Seq<DrawView> {
    let ground = seq![DrawView::Background { area, selected: false }];
    match v.last_rollover {
        Some(note) => ground.push(
            DrawView::Text {
                x: area.x,
                y: area.y,
                width: area.width,
                text: note,
                tone: Tone::Rollover,
                selected: false,
            },
        ),
        None => ground,
    }
}

/// How many cells of the last line the prompt takes.
pub open spec fn prompt_width(v: ModalView, area: Area) -> int {
    if prompt_of(v).len() < area.width {
        prompt_of(v).len() as int
    } else {
        area.width as int
    }
}

/// The steps for the text entry on the last line.
pub open spec fn entry_draws(v: ModalView, area: Area) -> Seq<DrawView> {
    let y = (area.y + area.height - 1) as u16;
    let prompt = DrawView::Text {
        x: area.x,
        y,
        width: area.width,
        text: prompt_of(v),
        tone: Tone::Prompt,
        selected: false,
    };
    if !(v.mode is Editing) {
        Seq::empty()
    } else if prompt_width(v, area) < area.width {
        seq![
            prompt,
            DrawView::Entry {
                x: (area.x + prompt_width(v, area)) as u16,
                y,
                width: (area.width - prompt_width(v, area)) as u16,
                text: entry_shown(v),
            },
        ]
    } else {
        seq![prompt]
    }
}

/// All the steps of a panel in `area`. Without room nothing is drawn.
pub open spec fn panel_draws(v: ModalView, area: Area) -> Seq<DrawView> {
    if is_roomy(area) {
        head_draws(v, area) + rows_draws(v, area, row_end(v, area)) + entry_draws(v, area)
    } else {
        Seq::empty()
    }
}

/// The panel once it was drawn: the selected row has come into sight.
pub open spec fn after_drawing(v: ModalView, area: Area) -> ModalView {
    if is_roomy(area) {
        ModalView { scroll_offset: first_row(v, area) as usize, ..v }
    } else {
        v
    }
}

/// Whether there are rows to be shown from the first one on, if any, and all screen cells can be
/// counted in sixteen bits.
pub open spec fn fits_screen(v: ModalView, area: Area) -> bool {
    &&& first_row(v, area) <= v.rows.len()
    &&& area.x + area.width <= 0xffff
    &&& area.y + area.height <= 0xffff
    &&& forall|i: int|
        first_row(v, area) <= i < row_end(v, area) ==> area.x + url_shift(#[trigger] v.rows[i])
            <= 0xffff && key_width(v.rows[i]) + url_shift(v.rows[i]) + 1 <= 0xffff
}

fn label_width(row: &ProviderRow) -> (width: u16)
    ensures
        width == key_width(row@),
        width <= 7,
{
    proof {
        lemma_key_width(row@);
    }
    if row.keyless || row.has_key {
        7
    } else {
        6
    }
}

proof fn lemma_key_width(row: RowView)
    ensures
        key_width(row) == if row.keyless || row.has_key {
            7int
        } else {
            6
        },
{
    reveal_strlit("keyless");
    reveal_strlit("key set");
    reveal_strlit("no key");
}

fn push_row(draws: &mut Vec<Draw>, row: &ProviderRow, area: &Area, y: u16, selected: bool)
    requires
        is_roomy(*area),
        area.x + area.width <= 0xffff,
        area.x + url_shift(row@) <= 0xffff,
        key_width(row@) + url_shift(row@) + 1 <= 0xffff,
    ensures
        draw_views(final(draws)@) == draw_views(old(draws)@) + row_draws(
            row@,
            *area,
            y as int,
            selected,
        ),
{
    let ghost before = draw_views(draws@);
    draws.push(
        Draw::Background {
            area: Area { x: area.x, y, width: area.width, height: 1 },
            selected,
        },
    );
    let marker = if row.is_active {
        "\u{25CF} "
    } else {
        "  "
    };
    let tone = if row.is_active {
        Tone::ActiveName
    } else {
        Tone::Name
    };
    draws.push(
        Draw::Text {
            x: area.x,
            y,
            width: area.width,
            text: joined(marker, row.name.as_str()),
            tone,
            selected,
        },
    );
    let label = if row.keyless {
        "keyless"
    } else if row.has_key {
        "key set"
    } else {
        "no key"
    };
    let tone = if row.has_key || row.keyless {
        Tone::Quiet
    } else {
        Tone::Missing
    };
    let key_w: u16 = label_width(row);
    draws.push(
        Draw::Text {
            x: area.x + (area.width - key_w),
            y,
            width: key_w,
            text: label.to_owned(),
            tone,
            selected,
        },
    );
    let shift: u16 = bytes_across(row.name.as_str()) + 3;
    let taken: u16 = key_w + shift + 1;
    if area.width > taken && area.width - taken > 1 {
        draws.push(
            Draw::Text {
                x: area.x + shift,
                y,
                width: area.width - taken,
                text: row.base_url.clone(),
                tone: Tone::Quiet,
                selected,
            },
        );
    }
    assert(draw_views(draws@) =~= before + row_draws(row@, *area, y as int, selected));
}

fn push_entry(draws: &mut Vec<Draw>, state: &ProvidersModalState, area: &Area)
    requires
        is_roomy(*area),
        area.x + area.width <= 0xffff,
        area.y + area.height <= 0xffff,
        state@.mode is Editing,
    ensures
        draw_views(final(draws)@) == draw_views(old(draws)@) + entry_draws(state@, *area),
{
    let ghost before = draw_views(draws@);
    let y: u16 = area.y + (area.height - 1);
    let prompt = edit_prompt(state);
    proof {
        lemma_prompt_is_short(state@);
    }
    let bytes: usize = prompt.as_str().len();
    draws.push(
        Draw::Text {
            x: area.x,
            y,
            width: area.width,
            text: prompt,
            tone: Tone::Prompt,
            selected: false,
        },
    );
    if bytes < area.width as usize {
        let prompt_w: u16 = bytes as u16;
        draws.push(
            Draw::Entry {
                x: area.x + prompt_w,
                y,
                width: area.width - prompt_w,
                text: entry_text(state),
            },
        );
    }
    assert(draw_views(draws@) =~= before + entry_draws(state@, *area));
}

fn lines_for_rows(state: &ProvidersModalState, area: &Area) -> (lines: u16)
    ensures
        lines == row_lines(state@, *area),
{
    let mut lines: u16 = area.height;
    if state.last_rollover.is_some() && lines > 0 {
        lines = lines - 1;
    }
    match state.mode {
        ModalMode::Editing { .. } => {
            if lines > 0 {
                lines = lines - 1;
            }
        },
        ModalMode::Normal => {},
    }
    lines
}

fn first_shown(state: &ProvidersModalState, area: &Area) -> (start: usize)
    ensures
        start == first_row(state@, *area),
{
    let available: usize = lines_for_rows(state, area) as usize;
    let mut start: usize = state.scroll_offset;
    if state.selected < start {
        start = state.selected;
    }
    if available > 0 && state.selected - start >= available {
        start = state.selected - (available - 1);
    }
    start
}

fn shown_rows(state: &ProvidersModalState, area: &Area) -> (r: (usize, usize))
    requires
        first_row(state@, *area) <= state@.rows.len(),
    ensures
        r.0 == first_row(state@, *area),
        r.1 == row_end(state@, *area),
        r.0 <= r.1 <= state@.rows.len(),
{
    let available: usize = lines_for_rows(state, area) as usize;
    let start: usize = first_shown(state, area);
    let len: usize = state.entries.len();
    let end: usize = if len - start <= available {
        len
    } else {
        start + available
    };
    (start, end)
}

/// Whether the panel can be laid out in `area`.
pub fn can_render(state: &ProvidersModalState, area: &Area) -> (r: bool)
    ensures
        r == (is_roomy(*area) ==> fits_screen(state@, *area)),
{
    if area.height < 1 || area.width < 10 {
        return true;
    }
    if area.width > 0xffff - area.x || area.height > 0xffff - area.y {
        return false;
    }
    if first_shown(state, area) > state.entries.len() {
        return false;
    }
    let (start, end) = shown_rows(state, area);
    let mut i: usize = start;
    while i < end
        invariant
            start <= i <= end,
            end <= state.entries@.len(),
            start == first_row(state@, *area),
            end == row_end(state@, *area),
            area.x + area.width <= 0xffff,
            area.y + area.height <= 0xffff,
            first_row(state@, *area) <= state@.rows.len(),
            is_roomy(*area),
            forall|k: int|
                start <= k < i ==> area.x + url_shift(#[trigger] state@.rows[k]) <= 0xffff
                    && key_width(state@.rows[k]) + url_shift(state@.rows[k]) + 1 <= 0xffff,
        decreases end - i,
    {
        assert(state@.rows[i as int] == state.entries@[i as int]@);
        let name_w: u32 = bytes_across(state.entries[i].name.as_str()) as u32;
        let key_w: u32 = label_width(&state.entries[i]) as u32;
        if area.x as u32 + name_w + 3 > 0xffff || key_w + name_w + 4 > 0xffff {
            return false;
        }
        i = i + 1;
    }
    true
}

/// Lays the panel out in `area` and brings the selected row into sight.
pub fn render_providers_modal(state: &mut ProvidersModalState, area: &Area) -> (draws: Vec<Draw>)
    requires
        is_roomy(*area) ==> fits_screen(old(state)@, *area),
    ensures
        draw_views(draws@) == panel_draws(old(state)@, *area),
        final(state)@ == after_drawing(old(state)@, *area),
{
    let ghost v = state@;
    let mut draws: Vec<Draw> = Vec::new();
    assert(draw_views(draws@) =~= Seq::empty());
    if area.height < 1 || area.width < 10 {
        return draws;
    }
    draws.push(Draw::Background { area: *area, selected: false });
    let mut y: u16 = area.y;
    match &state.last_rollover {
        Some(note) => {
            draws.push(
                Draw::Text {
                    x: area.x,
                    y,
                    width: area.width,
                    text: note.clone(),
                    tone: Tone::Rollover,
                    selected: false,
                },
            );
            y = y + 1;
        },
        None => {},
    }
    assert(draw_views(draws@) =~= head_draws(v, *area));
    let (start, end) = shown_rows(state, area);
    state.scroll_offset = start;
    let mut i: usize = start;
    assert(draw_views(draws@) =~= head_draws(v, *area) + rows_draws(v, *area, start as int));
    while i < end
        invariant
            start <= i <= end,
            end <= state.entries@.len(),
            end - start <= row_lines(v, *area),
            start == first_row(v, *area),
            end == row_end(v, *area),
            v.rows == row_views(state.entries@),
            v.selected == state.selected,
            is_roomy(*area),
            fits_screen(v, *area),
            y == first_row_y(v, *area),
            y + row_lines(v, *area) <= 0xffff,
            state@ == after_drawing(v, *area),
            draw_views(draws@) == head_draws(v, *area) + rows_draws(v, *area, i as int),
        decreases end - i,
    {
        let row_y: u16 = y + (i - start) as u16;
        let ghost before = draw_views(draws@);
        assert(v.rows[i as int] == state.entries@[i as int]@);
        push_row(&mut draws, &state.entries[i], area, row_y, i == state.selected);
        i = i + 1;
        assert(draw_views(draws@) =~= head_draws(v, *area) + rows_draws(v, *area, i as int));
    }
    match state.mode {
        ModalMode::Editing { .. } => {
            push_entry(&mut draws, state, area);
            assert(entry_draws(state@, *area) == entry_draws(v, *area));
        },
        ModalMode::Normal => {
            assert(entry_draws(v, *area) =~= Seq::empty());
        },
    }
    assert(draw_views(draws@) =~= panel_draws(v, *area));
    draws
}

proof fn lemma_prompt_is_short(v: ModalView)
    ensures
        prompt_of(v).len() <= 64,
        encode_utf8(prompt_of(v)).len() == prompt_of(v).len(),
{
    reveal_strlit("name (e.g. openai, ollama-local): ");
    reveal_strlit("base_url: ");
    reveal_strlit("api_key (empty = none): ");
    reveal_strlit("api_key (empty = keep current): ");
    reveal_strlit("api_key: ");
    reveal_strlit("model (Enter = default): ");
    reveal_strlit("model (empty = keep): ");
    let prompt = prompt_of(v);
    assert(is_ascii_chars(prompt));
    is_ascii_chars_encode_utf8(prompt);
}

/// Whether a step stays inside an area.
pub open spec fn stays_inside(draw: DrawView, area: Area) -> bool {
    match draw {
        DrawView::Background { area: part, .. } => {
            &&& area.x <= part.x && part.x + part.width <= area.x + area.width
            &&& area.y <= part.y && part.y + part.height <= area.y + area.height
        },
        DrawView::Text { x, y, width, .. } | DrawView::Entry { x, y, width, .. } => {
            &&& area.x <= x && x + width <= area.x + area.width
            &&& area.y <= y < area.y + area.height
        },
    }
}

/// Whether all of a list of steps stay inside an area.
pub open spec fn all_inside(draws: Seq<DrawView>, area: Area) -> bool {
    forall|i: int| 0 <= i < draws.len() ==> stays_inside(#[trigger] draws[i], area)
}

proof fn lemma_rows_inside(v: ModalView, area: Area, end: int)
    requires
        is_roomy(area),
        fits_screen(v, area),
        end <= row_end(v, area),
    ensures
        all_inside(rows_draws(v, area, end), area),
    decreases end - first_row(v, area),
{
    if end > first_row(v, area) {
        lemma_rows_inside(v, area, end - 1);
        let row = v.rows[end - 1];
        let y = first_row_y(v, area) + (end - 1 - first_row(v, area));
        let before = rows_draws(v, area, end - 1);
        let added = row_draws(row, area, y, end - 1 == v.selected);
        lemma_key_width(row);
        assert(area.x + url_shift(v.rows[end - 1]) <= 0xffff);
        assert(all_inside(added, area));
    }
}

/// Nothing is ever drawn outside of the panel's area.
pub proof fn drawing_stays_inside(v: ModalView, area: Area)
    requires
        is_roomy(area) ==> fits_screen(v, area),
    ensures
        all_inside(panel_draws(v, area), area),
{
    if is_roomy(area) {
        lemma_rows_inside(v, area, row_end(v, area));
        lemma_prompt_is_short(v);
    }
}

/// Where any row can be shown, the selected one is.
pub proof fn selected_row_is_shown(v: ModalView, area: Area)
    requires
        has_selected(v),
        row_lines(v, area) > 0,
    ensures
        first_row(v, area) <= v.selected < row_end(v, area),
{
}

/// A panel whose selection is on a row has rows to be shown, or none at all.
pub proof fn selection_gives_rows(v: ModalView, area: Area)
    requires
        has_selected(v) || v.selected == 0,
    ensures
        first_row(v, area) <= v.rows.len(),
{
}

/// The rows shown stand above the text entry, and as many are shown as there are lines, if there
/// are enough of them.
pub proof fn rows_leave_the_entry_free(v: ModalView, area: Area, i: int)
    requires
        is_roomy(area),
        first_row(v, area) <= i < row_end(v, area),
    ensures
        first_row_y(v, area) + (i - first_row(v, area)) < area.y + area.height - (
        if v.mode is Editing {
            1int
        } else {
            0
        }),
{
}

/// To draw the panel again changes nothing more.
pub proof fn drawing_is_stable(v: ModalView, area: Area)
    ensures
        after_drawing(after_drawing(v, area), area) == after_drawing(v, area),
{
}

/// The base URL of a row ends before the state of its key begins.
pub proof fn url_leaves_the_key_free(row: RowView, area: Area)
    requires
        url_room(row, area) > 1,
    ensures
        url_shift(row) + url_room(row, area) < area.width - key_width(row),
        byte_width(row.name) + 2 < url_shift(row),
{
}

proof fn lemma_same_rows(v: ModalView, w: ModalView, area: Area, end: int)
    requires
        w == (ModalView { input: w.input, api_key: w.api_key, ..v }),
    ensures
        rows_draws(v, area, end) == rows_draws(w, area, end),
    decreases end - first_row(v, area),
{
    if end > first_row(v, area) {
        lemma_same_rows(v, w, area, end - 1);
    }
}

/// Keys are never printed: what is drawn while a key is entered depends on nothing of it but its
/// length, and a key that was entered before shows nowhere.
pub proof fn drawing_tells_nothing_of_keys(v: ModalView, w: ModalView, area: Area)
    requires
        w == (ModalView { input: w.input, api_key: w.api_key, ..v }),
        if enters_key(v.mode) {
            w.input.len() == v.input.len()
        } else {
            w.input == v.input
        },
    ensures
        panel_draws(v, area) == panel_draws(w, area),
{
    lemma_same_rows(v, w, area, row_end(v, area));
    assert(entry_shown(v) =~= entry_shown(w));
    assert(entry_draws(v, area) =~= entry_draws(w, area));
}

} // verus!
