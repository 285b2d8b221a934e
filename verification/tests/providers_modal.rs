use provider_failover::presets::presets;
use provider_failover::providers::{Config, ConfigModelOverride, FailoverConfig};
use provider_failover::providers_keys::{handle_providers_key, handle_providers_paste};
use provider_failover::providers_modal::{
    build_providers_modal_state, provider_rows, EditField, InputOutcome, KeyCode, KeyEvent,
    KeyEventKind, KeyModifiers, LineEditor, ModalMode, ProviderRow, ProvidersModalState,
    ProvidersOp, ProvidersOutcome,
};
use provider_failover::string_map::StringMap;

const NO_MODIFIERS: KeyModifiers =
    KeyModifiers { shift: false, control: false, alt: false, other: false };

fn state_with_rows(n: usize) -> ProvidersModalState {
    ProvidersModalState {
        entries: (0..n)
            .map(|i| ProviderRow {
                name: format!("prov{i}"),
                base_url: format!("http://p{i}.example"),
                has_key: i % 2 == 1,
                is_active: false,
                keyless: false,
                model: None,
            })
            .collect(),
        selected: 0,
        scroll_offset: 0,
        active_model: "grok".into(),
        last_rollover: None,
        mode: ModalMode::Normal,
        input: LineEditor::new(),
        pending_base_url: None,
        pending_name: None,
        pending_api_key: None,
    }
}

fn key(code: KeyCode) -> KeyEvent {
    KeyEvent { code, modifiers: NO_MODIFIERS, kind: KeyEventKind::Press }
}

fn type_text(st: &mut ProvidersModalState, text: &str) {
    for ch in text.chars() {
        let _ = handle_providers_key(st, &key(KeyCode::Char(ch)));
    }
}

#[test]
fn selection_moves_and_wraps_backward() {
    let mut st = state_with_rows(3);
    st.move_selection(5);
    assert_eq!(st.selected, 2);
    st.move_selection(-9);
    assert_eq!(st.selected, 2);
    st.move_selection(-2);
    assert_eq!(st.selected, 0);
}

#[test]
fn selection_wraps_forward() {
    let mut st = state_with_rows(3);
    st.move_selection(-1);
    assert_eq!(st.selected, 2);
}

#[test]
fn selection_on_empty_is_noop() {
    let mut st = state_with_rows(0);
    st.move_selection(1);
    assert_eq!(st.selected, 0);
}

#[test]
fn selection_moves_by_the_largest_steps() {
    let mut st = state_with_rows(3);
    st.move_selection(isize::MAX);
    assert_eq!(st.selected as i128, (isize::MAX as i128).rem_euclid(3));
    let mut st = state_with_rows(3);
    st.selected = 1;
    st.move_selection(isize::MIN);
    assert_eq!(st.selected as i128, (1 + isize::MIN as i128).rem_euclid(3));
}

#[test]
fn swap_updates_order_and_reports_indices() {
    let mut st = state_with_rows(2);
    let swapped = st.swap_with_next();
    assert_eq!(swapped, Some((0, 1)));
    assert_eq!(st.entries[0].name, "prov1");
    assert_eq!(st.entries[1].name, "prov0");
}

#[test]
fn moves_and_swaps_can_be_undone() {
    let mut st = state_with_rows(3);
    st.selected = 1;
    st.move_selection(7);
    st.move_selection(-7);
    assert_eq!(st.selected, 1);
    st.swap_with_next();
    assert_eq!((st.selected, st.entries[2].name.as_str()), (2, "prov1"));
    st.move_selection(-1);
    st.swap_with_next();
    let names: Vec<&str> = st.entries.iter().map(|r| r.name.as_str()).collect();
    assert_eq!(names, ["prov0", "prov1", "prov2"]);
}

#[test]
fn swap_at_last_row_is_noop() {
    let mut st = state_with_rows(2);
    st.selected = 1;
    assert_eq!(st.swap_with_next(), None);
}

#[test]
fn add_and_edit_modes_transition() {
    let mut st = state_with_rows(1);
    assert_eq!(
        handle_providers_key(&mut st, &key(KeyCode::Char('a'))),
        ProvidersOutcome::Changed
    );
    assert_eq!(st.mode, ModalMode::Editing { add: true, field: EditField::ModelName });
    handle_providers_key(&mut st, &key(KeyCode::Esc));
    assert_eq!(st.mode, ModalMode::Normal);
    assert_eq!(
        handle_providers_key(&mut st, &key(KeyCode::Char('e'))),
        ProvidersOutcome::Changed
    );
    assert_eq!(st.mode, ModalMode::Editing { add: false, field: EditField::BaseUrl });
}

#[test]
fn x_swap_emits_reorder_op() {
    let mut st = state_with_rows(2);
    let outcome = handle_providers_key(&mut st, &key(KeyCode::Char('x')));
    assert_eq!(
        outcome,
        ProvidersOutcome::Op(ProvidersOp::Reorder { order: vec!["prov1".into(), "prov0".into()] })
    );
    assert_eq!(st.selected, 1);
}

#[test]
fn remove_grok_is_refused() {
    let mut st = state_with_rows(2);
    st.entries[0].name = "grok".into();
    let outcome = handle_providers_key(&mut st, &key(KeyCode::Char('r')));
    assert_eq!(outcome, ProvidersOutcome::Unchanged);
}

#[test]
fn remove_grok_is_refused_in_any_case() {
    let mut st = state_with_rows(1);
    st.entries[0].name = "GroK".into();
    let outcome = handle_providers_key(&mut st, &key(KeyCode::Char('r')));
    assert_eq!(outcome, ProvidersOutcome::Unchanged);
}

#[test]
fn remove_custom_emits_op() {
    let mut st = state_with_rows(1);
    let outcome = handle_providers_key(&mut st, &key(KeyCode::Char('r')));
    assert_eq!(
        outcome,
        ProvidersOutcome::Op(ProvidersOp::Remove { name: "prov0".into() })
    );
}

#[test]
fn esc_in_normal_closes() {
    let mut st = state_with_rows(1);
    assert_eq!(
        handle_providers_key(&mut st, &key(KeyCode::Esc)),
        ProvidersOutcome::Close
    );
}

#[test]
fn add_flow_collects_name_url_key() {
    let mut st = state_with_rows(1);
    handle_providers_key(&mut st, &key(KeyCode::Char('a')));
    // Type the preset name; Enter prefills base_url from the preset.
    type_text(&mut st, "openai");
    assert_eq!(
        handle_providers_key(&mut st, &key(KeyCode::Enter)),
        ProvidersOutcome::Changed
    );
    assert_eq!(st.mode, ModalMode::Editing { add: true, field: EditField::BaseUrl });
    assert_eq!(st.input.text(), "https://api.openai.com/v1");
    assert_eq!(
        handle_providers_key(&mut st, &key(KeyCode::Enter)),
        ProvidersOutcome::Changed
    );
    assert_eq!(st.mode, ModalMode::Editing { add: true, field: EditField::ApiKey });
    type_text(&mut st, "sk-test");
    // api_key confirm moves to the model step, prefilled with the preset's suggested model.
    assert_eq!(
        handle_providers_key(&mut st, &key(KeyCode::Enter)),
        ProvidersOutcome::Changed
    );
    assert_eq!(st.mode, ModalMode::Editing { add: true, field: EditField::Model });
    let default_model = presets()
        .iter()
        .find(|p| p.short_key == "openai")
        .map(|p| p.suggested_model.to_string())
        .unwrap();
    assert_eq!(st.input.text(), default_model);
    // Enter accepts the prefill.
    let outcome = handle_providers_key(&mut st, &key(KeyCode::Enter));
    assert_eq!(
        outcome,
        ProvidersOutcome::Op(ProvidersOp::Upsert {
            name: "openai".into(),
            base_url: "https://api.openai.com/v1".into(),
            api_key: Some("sk-test".into()),
            model: default_model,
            keyless: false,
        })
    );
    assert_eq!(st.mode, ModalMode::Normal);
}

#[test]
fn add_flow_model_step_accepts_custom_model() {
    let mut st = state_with_rows(1);
    handle_providers_key(&mut st, &key(KeyCode::Char('a')));
    type_text(&mut st, "openai");
    let _ = handle_providers_key(&mut st, &key(KeyCode::Enter)); // name
    let _ = handle_providers_key(&mut st, &key(KeyCode::Enter)); // base_url
    type_text(&mut st, "sk-x");
    let _ = handle_providers_key(&mut st, &key(KeyCode::Enter)); // api_key
    st.input.set_text(""); // replace the preset prefill
    type_text(&mut st, "gpt-4o-mini");
    let outcome = handle_providers_key(&mut st, &key(KeyCode::Enter)); // model
    match outcome {
        ProvidersOutcome::Op(ProvidersOp::Upsert { model, api_key, .. }) => {
            assert_eq!(model, "gpt-4o-mini");
            assert_eq!(api_key, Some("sk-x".into()));
        }
        other => panic!("expected Upsert op, got {other:?}"),
    }
}

#[test]
fn add_flow_keyless_skips_api_key_step() {
    let mut st = state_with_rows(1);
    handle_providers_key(&mut st, &key(KeyCode::Char('a')));
    type_text(&mut st, "ollama-local");
    let _ = handle_providers_key(&mut st, &key(KeyCode::Enter)); // name
    let _ = handle_providers_key(&mut st, &key(KeyCode::Enter)); // base_url
    assert_eq!(
        st.mode,
        ModalMode::Editing { add: true, field: EditField::Model },
        "keyless preset must skip the api_key step"
    );
    let outcome = handle_providers_key(&mut st, &key(KeyCode::Enter)); // model
    match outcome {
        ProvidersOutcome::Op(ProvidersOp::Upsert { api_key, keyless, .. }) => {
            assert_eq!(api_key, None);
            assert!(keyless);
        }
        other => panic!("expected Upsert op, got {other:?}"),
    }
}

#[test]
fn add_flow_stays_on_entries_that_cannot_be_taken() {
    let mut st = state_with_rows(0);
    handle_providers_key(&mut st, &key(KeyCode::Char('a')));
    let name_step = ModalMode::Editing { add: true, field: EditField::ModelName };
    for bad in ["", "   ", "a\"b", "a\nb"] {
        st.input.set_text(bad);
        let outcome = handle_providers_key(&mut st, &key(KeyCode::Enter));
        assert_eq!(outcome, ProvidersOutcome::Changed);
        assert_eq!(st.mode, name_step);
    }
    st.input.set_text("  my box\t");
    handle_providers_key(&mut st, &key(KeyCode::Enter));
    assert_eq!(st.pending_name.as_deref(), Some("my box"));
    assert_eq!(st.input.text(), "", "an unknown provider has no base URL");
    handle_providers_key(&mut st, &key(KeyCode::Enter));
    assert_eq!(st.mode, ModalMode::Editing { add: true, field: EditField::BaseUrl });
}

#[test]
fn add_flow_of_an_unknown_provider_suggests_its_name() {
    let mut st = state_with_rows(0);
    handle_providers_key(&mut st, &key(KeyCode::Char('a')));
    type_text(&mut st, "my-box");
    handle_providers_key(&mut st, &key(KeyCode::Enter));
    type_text(&mut st, " http://box:8080/v1 ");
    handle_providers_key(&mut st, &key(KeyCode::Enter));
    handle_providers_key(&mut st, &key(KeyCode::Enter));
    assert_eq!(st.input.text(), "my-box");
    st.input.set_text("  ");
    let outcome = handle_providers_key(&mut st, &key(KeyCode::Enter));
    assert_eq!(
        outcome,
        ProvidersOutcome::Op(ProvidersOp::Upsert {
            name: "my-box".into(),
            base_url: "http://box:8080/v1".into(),
            api_key: None,
            model: "my-box".into(),
            keyless: false,
        })
    );
}

/// The edit flow prefills base_url with the row's current value; change it by clearing the field
/// first (backspaces).
fn clear_prefill(st: &mut ProvidersModalState) {
    assert!(!st.input.text().is_empty(), "base_url should be prefilled");
    while !st.input.text().is_empty() {
        let _ = handle_providers_key(st, &key(KeyCode::Backspace));
    }
    assert!(st.input.text().is_empty());
}

#[test]
fn edit_flow_prefills_current_base_url() {
    let mut st = state_with_rows(1);
    handle_providers_key(&mut st, &key(KeyCode::Char('e')));
    assert_eq!(st.input.text(), "http://p0.example");
    // Enter accepts the prefill unchanged: Upsert keeps the same url.
    let _ = handle_providers_key(&mut st, &key(KeyCode::Enter)); // base_url
    let _ = handle_providers_key(&mut st, &key(KeyCode::Enter)); // api_key keep
    let outcome = handle_providers_key(&mut st, &key(KeyCode::Enter)); // model
    match outcome {
        ProvidersOutcome::Op(ProvidersOp::Upsert { base_url, .. }) => {
            assert_eq!(base_url, "http://p0.example");
        }
        other => panic!("expected Upsert op, got {other:?}"),
    }
}

#[test]
fn edit_flow_preserves_existing_model() {
    let mut st = state_with_rows(1);
    st.entries[0].model = Some("my-model-v2".into());
    handle_providers_key(&mut st, &key(KeyCode::Char('e')));
    clear_prefill(&mut st);
    type_text(&mut st, "https://proxy.example/v1");
    let _ = handle_providers_key(&mut st, &key(KeyCode::Enter)); // base_url
    let _ = handle_providers_key(&mut st, &key(KeyCode::Enter)); // api_key empty = keep
    // Model step prefilled with the existing model; empty Enter keeps it.
    assert_eq!(st.mode, ModalMode::Editing { add: false, field: EditField::Model });
    assert_eq!(st.input.text(), "my-model-v2");
    let outcome = handle_providers_key(&mut st, &key(KeyCode::Enter));
    match outcome {
        ProvidersOutcome::Op(ProvidersOp::Upsert { model, base_url, .. }) => {
            assert_eq!(model, "my-model-v2");
            assert_eq!(base_url, "https://proxy.example/v1");
        }
        other => panic!("expected Upsert op, got {other:?}"),
    }
}

#[test]
fn edit_flow_keeps_key_when_left_empty() {
    let mut st = state_with_rows(1);
    st.entries[0].has_key = true;
    handle_providers_key(&mut st, &key(KeyCode::Char('e')));
    clear_prefill(&mut st);
    type_text(&mut st, "https://proxy.example/v1");
    let _ = handle_providers_key(&mut st, &key(KeyCode::Enter));
    // Empty api_key input keeps the existing key.
    let _ = handle_providers_key(&mut st, &key(KeyCode::Enter));
    // Empty model input keeps the row's model (prefill accepted).
    let outcome = handle_providers_key(&mut st, &key(KeyCode::Enter));
    match outcome {
        ProvidersOutcome::Op(ProvidersOp::Upsert { base_url, api_key, .. }) => {
            assert_eq!(base_url, "https://proxy.example/v1");
            assert_eq!(api_key, None);
        }
        other => panic!("expected Upsert op, got {other:?}"),
    }
}

#[test]
fn edit_flow_of_a_row_without_url_starts_at_the_key() {
    let mut st = state_with_rows(1);
    st.entries[0].base_url = String::new();
    st.entries[0].keyless = true;
    handle_providers_key(&mut st, &key(KeyCode::Char('e')));
    assert_eq!(st.mode, ModalMode::Editing { add: false, field: EditField::ApiKey });
    type_text(&mut st, " k ");
    handle_providers_key(&mut st, &key(KeyCode::Enter));
    assert_eq!(st.input.text(), "prov0");
    let outcome = handle_providers_key(&mut st, &key(KeyCode::Enter));
    assert_eq!(
        outcome,
        ProvidersOutcome::Op(ProvidersOp::Upsert {
            name: "prov0".into(),
            base_url: "".into(),
            api_key: Some("k".into()),
            model: "prov0".into(),
            keyless: true,
        })
    );
}

#[test]
fn esc_during_edit_cancels_not_closes() {
    let mut st = state_with_rows(1);
    handle_providers_key(&mut st, &key(KeyCode::Char('a')));
    assert_eq!(
        handle_providers_key(&mut st, &key(KeyCode::Esc)),
        ProvidersOutcome::Changed
    );
    assert_eq!(st.mode, ModalMode::Normal);
    // Second Esc now closes.
    assert_eq!(
        handle_providers_key(&mut st, &key(KeyCode::Esc)),
        ProvidersOutcome::Close
    );
}

#[test]
fn paste_only_in_editing() {
    let mut st = state_with_rows(1);
    assert!(matches!(handle_providers_paste(&mut st, "x"), InputOutcome::Unchanged));
    handle_providers_key(&mut st, &key(KeyCode::Char('a')));
    assert!(matches!(handle_providers_paste(&mut st, "openai"), InputOutcome::Changed));
    assert_eq!(st.input.text(), "openai");
}

#[test]
fn released_keys_and_foreign_shortcuts_are_ignored() {
    let mut st = state_with_rows(2);
    let released =
        KeyEvent { code: KeyCode::Esc, modifiers: NO_MODIFIERS, kind: KeyEventKind::Release };
    assert_eq!(handle_providers_key(&mut st, &released), ProvidersOutcome::Unchanged);
    let ctrl = KeyModifiers { shift: false, control: true, alt: false, other: false };
    let ctrl_x = KeyEvent { code: KeyCode::Char('x'), modifiers: ctrl, kind: KeyEventKind::Press };
    assert_eq!(handle_providers_key(&mut st, &ctrl_x), ProvidersOutcome::Unchanged);
    assert_eq!(st.entries[0].name, "prov0");
    handle_providers_key(&mut st, &key(KeyCode::Char('a')));
    let ctrl_esc = KeyEvent { code: KeyCode::Esc, modifiers: ctrl, kind: KeyEventKind::Press };
    assert_eq!(handle_providers_key(&mut st, &ctrl_esc), ProvidersOutcome::Unchanged);
    assert_eq!(st.mode, ModalMode::Editing { add: true, field: EditField::ModelName });
    let shift = KeyModifiers { shift: true, control: false, alt: false, other: false };
    let big = KeyEvent { code: KeyCode::Char('Q'), modifiers: shift, kind: KeyEventKind::Repeat };
    assert_eq!(handle_providers_key(&mut st, &big), ProvidersOutcome::Changed);
    assert_eq!(st.input.text(), "Q");
}

#[test]
fn keys_without_a_row_do_nothing() {
    let mut st = state_with_rows(0);
    for c in ['e', 'r', 'x', 'z'] {
        assert_eq!(
            handle_providers_key(&mut st, &key(KeyCode::Char(c))),
            ProvidersOutcome::Unchanged
        );
    }
    assert_eq!(handle_providers_key(&mut st, &key(KeyCode::Down)), ProvidersOutcome::Changed);
    assert_eq!(st.selected, 0);
}

fn cfg_from(toml_src: &str) -> Config {
    let doc = toml_src.parse::<toml_edit::DocumentMut>().unwrap();
    let order = doc["failover"]["order"]
        .as_array()
        .unwrap()
        .iter()
        .map(|v| v.as_str().unwrap().to_string())
        .collect();
    let mut config_models = StringMap::new();
    for (name, section) in doc["model"].as_table().unwrap().iter() {
        let text = |key: &str| section.get(key).and_then(|v| v.as_str()).map(str::to_string);
        config_models.insert(
            name.to_string(),
            ConfigModelOverride {
                base_url: text("base_url"),
                api_key: text("api_key"),
                model: text("model"),
                keyless: section.get("keyless").and_then(|v| v.as_bool()).unwrap_or(false),
            },
        );
    }
    Config { failover: FailoverConfig { order }, config_models }
}

fn configured() -> Config {
    cfg_from(
        r#"
[failover]
order = ["grok", "openai", "ollama-local"]

[model.openai]
api_key = "sk-test"
base_url = "https://custom.openai/v1"
model = "gpt-x"

[model.ollama-local]
keyless = true
"#,
    )
}

#[test]
fn rows_reflect_order_and_key_state() {
    let cfg = configured();
    let rows = provider_rows(&cfg, "grok");
    assert_eq!(rows.len(), 3);
    assert_eq!(rows[0].name, "grok");
    assert!(rows[0].has_key && rows[0].is_active);
    // User base_url wins over the preset default.
    assert_eq!(rows[1].base_url, "https://custom.openai/v1");
    assert_eq!(rows[1].model.as_deref(), Some("gpt-x"));
    assert!(rows[1].has_key && !rows[1].is_active);
    assert!(rows[2].keyless && !rows[2].has_key);
    assert_eq!(rows[2].base_url, "http://localhost:11434/v1");
}

#[test]
fn panel_opens_with_and_without_a_configuration() {
    let cfg = configured();
    let st = build_providers_modal_state(Some(&cfg), "openai");
    assert_eq!(st.entries.len(), 3);
    assert!(st.entries[1].is_active);
    assert_eq!(st.active_model, "openai");
    let st = build_providers_modal_state(None, "openai");
    assert!(st.entries.is_empty());
    assert_eq!(st.mode, ModalMode::Normal);
    assert_eq!((st.selected, st.scroll_offset), (0, 0));
}
