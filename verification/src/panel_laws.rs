//! What is drawn of the `/providers` panel, and where.
use crate::providers_modal::{EditField, ModalMode, ModalView, RowView};
use crate::providers_panel::{
    after_drawing, are_labels, draw_views, entry_draws, entry_shown, first_row, fits_screen,
    head_draws, panel_draws, prompt_of, row_draws, row_end, row_lines, rows_draws, shortcut_labels,
    Area, Draw, DrawView, Shortcut, Tone,
};
use vstd::prelude::*;
use vstd::utf8::encode_utf8;

verus! {

/// What a field asks for. To edit a key says whether one is there to be kept.
pub proof fn a_field_is_asked_for(v: ModalView, add: bool, field: EditField)
    requires
        v.mode == (ModalMode::Editing { add, field }),
    ensures
        field == EditField::BaseUrl ==> prompt_of(v) == "base_url: "@,
        add && field == EditField::ModelName ==> prompt_of(v)
            == "name (e.g. openai, ollama-local): "@,
        !add && field == EditField::ModelName ==> prompt_of(v).len() == 0,
        add && field == EditField::ApiKey ==> prompt_of(v) == "api_key (empty = none): "@,
        !add && field == EditField::ApiKey ==> prompt_of(v) == if v.selected < v.rows.len()
            && v.rows[v.selected as int].has_key {
            "api_key (empty = keep current): "@
        } else {
            "api_key: "@
        },
        add && field == EditField::Model ==> prompt_of(v) == "model (Enter = default): "@,
        !add && field == EditField::Model ==> prompt_of(v) == "model (empty = keep): "@,
{
}

/// The entry shows what was typed, but for a key: of that it shows one asterisk for each character.
pub proof fn an_entry_shows_what_was_typed(v: ModalView)
    ensures
        entry_shown(v).len() == v.input.len(),
        v.mode is Editing && v.mode->field == EditField::ApiKey ==> forall|i: int|
            0 <= i < v.input.len() ==> #[trigger] entry_shown(v)[i] == '*',
        !(v.mode is Editing && v.mode->field == EditField::ApiKey) ==> entry_shown(v) == v.input,
{
}

/// The rows have the lines that a notice and a text entry leave them. What is in sight stays where
/// it is; a selection out of sight comes in at the nearest edge; and rows are shown as far as there
/// are lines and rows.
pub proof fn the_selection_comes_in_at_the_nearest_edge(v: ModalView, area: Area)
    ensures
        ({
            let taken: int = (if v.last_rollover is Some {
                1int
            } else {
                0
            }) + (if v.mode is Editing {
                1int
            } else {
                0
            });
            let lines: int = if area.height > taken {
                area.height - taken
            } else {
                0
            };
            let first = first_row(v, area);
            &&& row_lines(v, area) == lines
            &&& lines > 0 && v.scroll_offset <= v.selected < v.scroll_offset + lines ==> first
                == v.scroll_offset
            &&& v.selected < v.scroll_offset ==> first == v.selected
            &&& lines > 0 && v.selected >= v.scroll_offset + lines ==> first == v.selected + 1
                - lines
            &&& lines == 0 && v.selected >= v.scroll_offset ==> first == v.scroll_offset
            &&& row_end(v, area) <= v.rows.len()
            &&& row_end(v, area) <= first + lines
            &&& row_end(v, area) == v.rows.len() || row_end(v, area) == first + lines
            &&& area.height >= 1 && area.width >= 10 ==> after_drawing(v, area) == (ModalView {
                scroll_offset: first as usize,
                ..v
            })
            &&& area.height < 1 || area.width < 10 ==> after_drawing(v, area) == v
        }),
{
}

/// A panel with room is its ground and notice, then its rows, then its text entry; one without room
/// is not drawn.
pub proof fn a_panel_is_drawn_from_top_to_bottom(v: ModalView, area: Area)
    ensures
        area.height < 1 || area.width < 10 ==> panel_draws(v, area).len() == 0,
        area.height >= 1 && area.width >= 10 ==> panel_draws(v, area) == head_draws(v, area)
            + rows_draws(v, area, row_end(v, area)) + entry_draws(v, area),
        head_draws(v, area).len() >= 1,
        head_draws(v, area)[0] == (DrawView::Background { area, selected: false }),
        v.last_rollover is None ==> head_draws(v, area).len() == 1,
        v.last_rollover is Some ==> head_draws(v, area).len() == 2 && head_draws(v, area)[1] == (
        DrawView::Text {
            x: area.x,
            y: area.y,
            width: area.width,
            text: v.last_rollover->0,
            tone: Tone::Rollover,
            selected: false,
        }),
{
}

/// The rows are drawn one below the other, from the first one shown on, under the notice where there
/// is one; the selected one is drawn as such.
pub proof fn rows_are_drawn_one_below_the_other(v: ModalView, area: Area, i: int)
    requires
        first_row(v, area) <= i,
    ensures
        rows_draws(v, area, first_row(v, area)).len() == 0,
        rows_draws(v, area, i + 1) == rows_draws(v, area, i) + row_draws(
            v.rows[i],
            area,
            area.y + (if v.last_rollover is Some {
                1int
            } else {
                0
            }) + (i - first_row(v, area)),
            i == v.selected,
        ),
{
}

/// A row is drawn on its line: its ground; its name behind a mark if it is active, which also sets
/// its tone; at the right whether it needs no key, has one or lacks one, the lack in a tone of its
/// own; and behind the name, if more than one cell is left between the two, its endpoint.
pub proof fn a_row_is_drawn_on_its_line(row: RowView, area: Area, y: int, selected: bool)
    requires
        area.x + area.width <= 0xffff,
        area.width >= 10,
        0 <= y <= 0xffff,
    ensures
        ({
            let draws = row_draws(row, area, y, selected);
            let label = if row.keyless {
                "keyless"@
            } else if row.has_key {
                "key set"@
            } else {
                "no key"@
            };
            let before = (encode_utf8(row.name).len() as usize) as int % 0x1_0000 + 3;
            let room = area.width - label.len() - before - 1;
            &&& draws.len() == if room > 1 {
                4int
            } else {
                3
            }
            &&& draws[0] == (DrawView::Background {
                area: Area { x: area.x, y: y as u16, width: area.width, height: 1 },
                selected,
            })
            &&& draws[1] == (DrawView::Text {
                x: area.x,
                y: y as u16,
                width: area.width,
                text: if row.is_active {
                    "\u{25CF} "@ + row.name
                } else {
                    "  "@ + row.name
                },
                tone: if row.is_active {
                    Tone::ActiveName
                } else {
                    Tone::Name
                },
                selected,
            })
            &&& draws[2] == (DrawView::Text {
                x: (area.x + area.width - label.len()) as u16,
                y: y as u16,
                width: label.len() as u16,
                text: label,
                tone: if row.keyless || row.has_key {
                    Tone::Quiet
                } else {
                    Tone::Missing
                },
                selected,
            })
            &&& room > 1 ==> draws[3] == (DrawView::Text {
                x: (area.x + before) as u16,
                y: y as u16,
                width: room as u16,
                text: row.base_url,
                tone: Tone::Quiet,
                selected,
            })
        }),
{
}

/// The text entry is drawn on the last line while text is entered: its prompt, and behind it, where
/// the prompt leaves any cell, what is shown of the text.
pub proof fn the_entry_is_drawn_on_the_last_line(v: ModalView, area: Area)
    requires
        area.height >= 1,
        area.x + area.width <= 0xffff,
        area.y + area.height <= 0xffff,
    ensures
        v.mode is Normal ==> entry_draws(v, area).len() == 0,
        v.mode is Editing ==> {
            let draws = entry_draws(v, area);
            let y = (area.y + area.height - 1) as u16;
            &&& draws.len() == if prompt_of(v).len() < area.width {
                2int
            } else {
                1
            }
            &&& draws[0] == (DrawView::Text {
                x: area.x,
                y,
                width: area.width,
                text: prompt_of(v),
                tone: Tone::Prompt,
                selected: false,
            })
            &&& prompt_of(v).len() < area.width ==> draws[1] == (DrawView::Entry {
                x: (area.x + prompt_of(v).len()) as u16,
                y,
                width: (area.width - prompt_of(v).len()) as u16,
                text: entry_shown(v),
            })
        },
{
}

/// The shortcuts shown are those that work: to save and to cancel while text is entered, else to
/// move, swap, add, edit, remove and close. None can be clicked.
pub proof fn shortcuts_are_those_that_work(
    shortcuts: Seq<Shortcut>,
    mode: ModalMode,
    i: int,
)
    requires
        are_labels(shortcuts, shortcut_labels(mode)),
        0 <= i < shortcuts.len(),
    ensures
        mode is Editing ==> shortcuts.len() == 2 && shortcuts[i].label@ == if i == 0 {
            "Enter save"@
        } else {
            "Esc cancel"@
        },
        mode is Normal ==> shortcuts.len() == 6 && shortcuts[i].label@ == if i == 0 {
            "\u{2191}/\u{2193} move"@
        } else if i == 1 {
            "x swap down"@
        } else if i == 2 {
            "a add"@
        } else if i == 3 {
            "e edit"@
        } else if i == 4 {
            "r remove"@
        } else {
            "Esc close"@
        },
        !shortcuts[i].clickable,
        shortcuts[i].id == 0,
{
    assert(shortcuts[i].label@ == shortcut_labels(mode)[i]);
}

/// A panel can be drawn where the rows to be shown are there and every cell that is reckoned with
/// has a number of sixteen bits.
pub proof fn a_panel_fits_where_its_cells_have_numbers(v: ModalView, area: Area)
    ensures
        fits_screen(v, area) == {
            &&& first_row(v, area) <= v.rows.len()
            &&& area.x + area.width <= 0xffff
            &&& area.y + area.height <= 0xffff
            &&& forall|i: int|
                first_row(v, area) <= i < row_end(v, area) ==> {
                    let row = #[trigger] v.rows[i];
                    let before = (encode_utf8(row.name).len() as usize) as int % 0x1_0000 + 3;
                    let label: nat = if row.keyless {
                        "keyless"@.len()
                    } else if row.has_key {
                        "key set"@.len()
                    } else {
                        "no key"@.len()
                    };
                    area.x + before <= 0xffff && label + before + 1 <= 0xffff
                }
        },
{
}

/// A list of steps says what its steps are, one by one.
pub proof fn steps_say_what_they_draw(draws: Seq<Draw>, i: int)
    ensures
        draw_views(draws).len() == draws.len(),
        0 <= i < draws.len() ==> draw_views(draws)[i] == match draws[i] {
            Draw::Background { area, selected } => DrawView::Background { area, selected },
            Draw::Text { x, y, width, text, tone, selected } => DrawView::Text {
                x,
                y,
                width,
                text: text@,
                tone,
                selected,
            },
            Draw::Entry { x, y, width, text } => DrawView::Entry { x, y, width, text: text@ },
        },
{
}

/// Where nothing is entered nothing is asked for.
pub proof fn nothing_is_asked_for_in_the_list(v: ModalView)
    requires
        v.mode is Normal,
    ensures
        prompt_of(v).len() == 0,
{
}

} // verus!
