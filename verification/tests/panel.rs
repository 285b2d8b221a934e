use provider_failover::providers_modal::{
    EditField, LineEditor, ModalMode, ProviderRow, ProvidersModalState,
};
use provider_failover::providers_panel::{
    build_shortcuts, can_render, edit_prompt, entry_text, panel_title, render_providers_modal, Area, Draw, Tone,
};

fn state(names: &[&str]) -> ProvidersModalState {
    ProvidersModalState {
        entries: names
            .iter()
            .map(|n| ProviderRow {
                name: n.to_string(),
                base_url: "http://u".into(),
                has_key: true,
                keyless: false,
                model: None,
                is_active: false,
            })
            .collect(),
        selected: 0,
        scroll_offset: 0,
        active_model: "grok".into(),
        last_rollover: None,
        mode: ModalMode::Normal,
        input: LineEditor::new(),
        pending_base_url: None,
        pending_name: None,
        pending_api_key: None,
    }
}

fn texts(draws: &[Draw]) -> Vec<(u16, u16, u16, &str, Tone, bool)> {
    draws
        .iter()
        .filter_map(|d| match d {
            Draw::Text { x, y, width, text, tone, selected } => {
                Some((*x, *y, *width, text.as_str(), *tone, *selected))
            }
            _ => None,
        })
        .collect()
}

#[test]
fn rows_show_name_key_and_url() {
    let mut st = state(&["grok", "ab"]);
    st.entries[0].is_active = true;
    st.entries[1].has_key = false;
    let area = Area { x: 2, y: 3, width: 40, height: 5 };
    assert!(can_render(&st, &area));
    let draws = render_providers_modal(&mut st, &area);
    assert_eq!(
        texts(&draws),
        [
            (2, 3, 40, "\u{25CF} grok", Tone::ActiveName, true),
            (35, 3, 7, "key set", Tone::Quiet, true),
            (9, 3, 25, "http://u", Tone::Quiet, true),
            (2, 4, 40, "  ab", Tone::Name, false),
            (36, 4, 6, "no key", Tone::Missing, false),
            (7, 4, 28, "http://u", Tone::Quiet, false),
        ]
    );
    match &draws[0] {
        Draw::Background { area: ground, selected } => {
            assert_eq!(*ground, area);
            assert!(!selected);
        }
        _ => panic!("expected the background first"),
    }
}

#[test]
fn keyless_rows_say_so_and_long_names_push_the_url_out() {
    let mut st = state(&["a-rather-long-provider-name"]);
    st.entries[0].keyless = true;
    st.entries[0].has_key = false;
    let area = Area { x: 0, y: 0, width: 30, height: 2 };
    let draws = render_providers_modal(&mut st, &area);
    assert_eq!(
        texts(&draws),
        [
            (0, 0, 30, "  a-rather-long-provider-name", Tone::Name, true),
            (23, 0, 7, "keyless", Tone::Quiet, true),
        ]
    );
}

#[test]
fn the_selected_row_comes_into_sight() {
    let mut st = state(&["a", "b", "c", "d", "e"]);
    let area = Area { x: 0, y: 0, width: 30, height: 2 };
    st.selected = 3;
    render_providers_modal(&mut st, &area);
    assert_eq!(st.scroll_offset, 2);
    st.selected = 1;
    let draws = render_providers_modal(&mut st, &area);
    assert_eq!(st.scroll_offset, 1);
    let names: Vec<&str> = texts(&draws).iter().map(|t| t.3).filter(|t| t.starts_with("  ")).collect();
    assert_eq!(names, ["  b", "  c"]);
}

#[test]
fn notice_and_entry_take_lines() {
    let mut st = state(&["a", "b", "c"]);
    st.last_rollover = Some("a went on to b".into());
    st.mode = ModalMode::Editing { add: false, field: EditField::BaseUrl };
    let area = Area { x: 1, y: 1, width: 20, height: 3 };
    let draws = render_providers_modal(&mut st, &area);
    let shown = texts(&draws);
    assert_eq!(shown[0], (1, 1, 20, "a went on to b", Tone::Rollover, false));
    assert_eq!(shown[1], (1, 2, 20, "  a", Tone::Name, true));
    assert_eq!(*shown.last().unwrap(), (1, 3, 20, "base_url: ", Tone::Prompt, false));
    match draws.last().unwrap() {
        Draw::Entry { x, y, width, .. } => assert_eq!((*x, *y, *width), (11, 3, 10)),
        _ => panic!("expected the text entry last"),
    }
}

fn entry_of(st: &mut ProvidersModalState) -> String {
    let area = Area { x: 0, y: 0, width: 60, height: 4 };
    match render_providers_modal(st, &area).pop().unwrap() {
        Draw::Entry { text, .. } => text,
        _ => panic!("expected the text entry last"),
    }
}

#[test]
fn a_key_is_shown_masked() {
    let mut st = state(&["a"]);
    st.input.set_text("sk-test");
    for add in [true, false] {
        st.mode = ModalMode::Editing { add, field: EditField::ApiKey };
        assert_eq!(entry_of(&mut st), "*******");
        let area = Area { x: 0, y: 0, width: 60, height: 4 };
        let draws = render_providers_modal(&mut st, &area);
        assert!(texts(&draws).iter().all(|t| !t.3.contains("sk-test")));
    }
    st.mode = ModalMode::Editing { add: true, field: EditField::Model };
    assert_eq!(entry_of(&mut st), "sk-test");
    assert_eq!(entry_text(&st), "sk-test");
}

#[test]
fn a_prompt_as_wide_as_the_panel_leaves_no_entry() {
    let mut st = state(&[]);
    st.mode = ModalMode::Editing { add: false, field: EditField::BaseUrl };
    let area = Area { x: 0, y: 0, width: 10, height: 1 };
    let draws = render_providers_modal(&mut st, &area);
    assert!(!draws.iter().any(|d| matches!(d, Draw::Entry { .. })));
}

#[test]
fn without_room_nothing_is_drawn() {
    let mut st = state(&["a", "b"]);
    st.selected = 1;
    st.scroll_offset = 7;
    for area in [
        Area { x: 0, y: 0, width: 9, height: 5 },
        Area { x: 0, y: 0, width: 30, height: 0 },
    ] {
        assert!(can_render(&st, &area));
        assert!(render_providers_modal(&mut st, &area).is_empty());
        assert_eq!(st.scroll_offset, 7);
    }
}

#[test]
fn what_cannot_be_counted_in_cells_is_refused() {
    let mut st = state(&["a"]);
    let area = Area { x: 65500, y: 0, width: 35, height: 1 };
    assert!(can_render(&st, &area));
    assert!(!can_render(&st, &Area { width: 36, ..area }));
    st.entries[0].name = "n".repeat(33);
    assert!(!can_render(&st, &area));
    st.selected = 3;
    assert!(can_render(&st, &Area { x: 0, y: 0, width: 20, height: 4 }));
    assert!(!can_render(&st, &Area { x: 0, y: 0, width: 20, height: 2 }));
}

#[test]
fn prompts_follow_the_field() {
    let mut st = state(&["a"]);
    let mut prompt = |add, field| {
        st.mode = ModalMode::Editing { add, field };
        edit_prompt(&st)
    };
    assert_eq!(prompt(true, EditField::ModelName), "name (e.g. openai, ollama-local): ");
    assert_eq!(prompt(true, EditField::BaseUrl), "base_url: ");
    assert_eq!(prompt(true, EditField::ApiKey), "api_key (empty = none): ");
    assert_eq!(prompt(true, EditField::Model), "model (Enter = default): ");
    assert_eq!(prompt(false, EditField::BaseUrl), "base_url: ");
    assert_eq!(prompt(false, EditField::ApiKey), "api_key (empty = keep current): ");
    assert_eq!(prompt(false, EditField::Model), "model (empty = keep): ");
    assert_eq!(prompt(false, EditField::ModelName), "");
    st.entries[0].has_key = false;
    st.mode = ModalMode::Editing { add: false, field: EditField::ApiKey };
    assert_eq!(edit_prompt(&st), "api_key: ");
    st.mode = ModalMode::Normal;
    assert_eq!(edit_prompt(&st), "");
}

#[test]
fn title_and_shortcuts() {
    let st = state(&[]);
    assert_eq!(panel_title(&st), "Providers \u{2014} active: grok");
    let labels = |mode: &ModalMode| -> Vec<&'static str> {
        build_shortcuts(mode).iter().map(|s| s.label).collect()
    };
    assert_eq!(
        labels(&ModalMode::Normal),
        ["\u{2191}/\u{2193} move", "x swap down", "a add", "e edit", "r remove", "Esc close"]
    );
    assert_eq!(
        labels(&ModalMode::Editing { add: true, field: EditField::Model }),
        ["Enter save", "Esc cancel"]
    );
    assert!(build_shortcuts(&ModalMode::Normal).iter().all(|s| !s.clickable && s.id == 0));
}
