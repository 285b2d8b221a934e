use provider_failover::providers_io::{
    remove_model_entry_at, reorder_failover_at, upsert_model_entry_at, EditError, ModelFields,
};

fn sample_fields(model: &str, key: &str) -> ModelFields {
    ModelFields {
        base_url: "https://api.openai.com/v1".into(),
        api_key: Some(key.into()),
        api_backend: Some("chat_completions".into()),
        model: model.into(),
        temperature: None,
        max_completion_tokens: None,
        keyless: false,
        extra_headers: vec![],
    }
}

#[test]
fn upsert_preserves_comments_and_appends_order() {
    let raw = "# my comments\n[model.grok]\nname = \"grok\"\n\n# keep me\n";
    let out = upsert_model_entry_at(raw, "openai", &sample_fields("gpt-5", "sk-x")).unwrap();
    assert!(out.contains("# my comments"), "leading comment must survive");
    assert!(out.contains("# keep me"), "trailing comment must survive");
    assert!(out.contains("[model.openai]"));
    assert!(out.contains("api_key = \"sk-x\""));
    assert!(out.contains("\"openai\""), "name appended to failover.order");
}

#[test]
fn upsert_existing_entry_does_not_duplicate_order() {
    let raw = "[failover]\norder = [\"openai\"]\n\n[model.openai]\nmodel = \"old\"\n";
    let out = upsert_model_entry_at(raw, "openai", &sample_fields("gpt-5", "sk-y")).unwrap();
    assert_eq!(out.matches("\"openai\"").count(), 1, "no duplicate in order");
    assert!(out.contains("gpt-5"));
}

#[test]
fn keyless_and_extra_headers_round_trip() {
    let mut fields = sample_fields("llama3.1", "");
    fields.api_key = None;
    fields.keyless = true;
    fields.extra_headers = vec![("HTTP-Referer".into(), "https://github.com/".into())];
    let out = upsert_model_entry_at("", "ollama-local", &fields).unwrap();
    assert!(out.contains("keyless = true"));
    assert!(!out.contains("api_key"), "no api_key line for keyless entry");
    assert!(out.contains("HTTP-Referer"));
    // Flip back to keyed: keyless flag and headers must be removed.
    let keyed = sample_fields("llama3.1", "sk-z");
    let out = upsert_model_entry_at(&out, "ollama-local", &keyed).unwrap();
    assert!(!out.contains("keyless"));
    assert!(!out.contains("HTTP-Referer"));
    assert!(out.contains("api_key = \"sk-z\""));
}

#[test]
fn remove_and_reorder_work() {
    let raw = "[failover]\norder = [\"a\", \"b\"]\n\n[model.a]\nmodel = \"ma\"\n\n[model.b]\nmodel = \"mb\"\n";
    let out = remove_model_entry_at(raw, "a").unwrap().unwrap();
    assert!(!out.contains("[model.a]"));
    assert!(out.contains("[model.b]"));
    assert!(!out.contains("\"a\""), "'a' removed from order too");

    let out = reorder_failover_at(&out, &vec!["b".into(), "c".into()]).unwrap();
    assert!(out.contains("order = [\"b\", \"c\"]"));
}

#[test]
fn remove_missing_entry_is_noop_success() {
    let out = remove_model_entry_at("# only comments\n", "ghost").unwrap().unwrap();
    assert_eq!(out, "# only comments\n");
}

#[test]
fn remove_from_nothing_writes_nothing() {
    assert_eq!(remove_model_entry_at("", "ghost"), Ok(None));
}

#[test]
fn remove_of_a_missing_name_leaves_odd_orders_alone() {
    let raw = "[failover]\norder = [1, \"a\"] # mixed\n";
    assert_eq!(remove_model_entry_at(raw, "ghost").unwrap().unwrap(), raw);
    let out = remove_model_entry_at(raw, "a").unwrap().unwrap();
    assert!(out.contains("order = []"));
    let single = "model = 3\nfailover = 4\n";
    assert_eq!(remove_model_entry_at(single, "a").unwrap().unwrap(), single);
}

#[test]
fn a_key_that_is_not_typed_again_is_kept() {
    let raw = "[model.openai]\napi_key = \"sk-old\"\nname = \"mine\"\ntemperature = 0.3\n";
    let mut fields = sample_fields("gpt-5", "");
    fields.api_key = None;
    fields.api_backend = None;
    let out = upsert_model_entry_at(raw, "openai", &fields).unwrap();
    assert!(out.contains("api_key = \"sk-old\""));
    assert!(out.contains("name = \"mine\""));
    assert!(!out.contains("temperature"));
    assert!(!out.contains("api_backend"));
    fields.keyless = true;
    let out = upsert_model_entry_at(&out, "openai", &fields).unwrap();
    assert!(!out.contains("api_key"));
}

#[test]
fn numbers_are_written_as_numbers() {
    let mut fields = sample_fields("m", "k");
    fields.temperature = Some(toml_edit::Value::from(0.5));
    fields.max_completion_tokens = Some(u32::MAX);
    let out = upsert_model_entry_at("", "x", &fields).unwrap();
    assert!(out.contains("temperature = 0.5"));
    assert!(out.contains("max_completion_tokens = 4294967295"));
    let doc = out.parse::<toml_edit::DocumentMut>().unwrap();
    assert_eq!(doc["model"]["x"]["max_completion_tokens"].as_integer(), Some(4294967295));
    assert_eq!(doc["failover"]["order"][0].as_str(), Some("x"));
}

#[test]
fn writing_twice_changes_nothing_and_removing_undoes() {
    let raw = "[failover]\norder = [\"a\"]\n\n[model.a]\nmodel = \"ma\"\n";
    let fields = sample_fields("m", "k");
    let once = upsert_model_entry_at(raw, "b", &fields).unwrap();
    let twice = upsert_model_entry_at(&once, "b", &fields).unwrap();
    assert_eq!(once, twice);
    let out = remove_model_entry_at(&once, "b").unwrap().unwrap();
    assert_eq!(out, raw);
}

#[test]
fn headers_are_added_to_those_there() {
    let raw = "[model.x.extra_headers]\nA = \"1\"\nB = \"2\"\n";
    let mut fields = sample_fields("m", "k");
    fields.extra_headers = vec![("B".into(), "3".into()), ("C".into(), "4".into())];
    let out = upsert_model_entry_at(raw, "x", &fields).unwrap();
    let doc = out.parse::<toml_edit::DocumentMut>().unwrap();
    let headers = &doc["model"]["x"]["extra_headers"];
    assert_eq!(headers["A"].as_str(), Some("1"));
    assert_eq!(headers["B"].as_str(), Some("3"));
    assert_eq!(headers["C"].as_str(), Some("4"));
}

#[test]
fn reorder_makes_a_missing_section_and_takes_names_as_they_are() {
    let out = reorder_failover_at("", &vec!["b".into(), "b".into()]).unwrap();
    assert!(out.contains("order = [\"b\", \"b\"]"));
    let inline = "failover = { order = [\"a\"], note = 1 }\n";
    let out = reorder_failover_at(inline, &vec![]).unwrap();
    let doc = out.parse::<toml_edit::DocumentMut>().unwrap();
    assert_eq!(doc["failover"]["order"].as_array().unwrap().len(), 0);
    assert_eq!(doc["failover"]["note"].as_integer(), Some(1));
}

#[test]
fn texts_that_are_no_toml_are_refused() {
    let fields = sample_fields("m", "k");
    assert_eq!(upsert_model_entry_at("= =", "x", &fields), Err(EditError::NotToml));
    assert_eq!(remove_model_entry_at("= =", "x"), Err(EditError::NotToml));
    assert_eq!(reorder_failover_at("= =", &vec![]), Err(EditError::NotToml));
}

#[test]
fn what_has_to_be_a_table_is_checked() {
    let mut fields = sample_fields("m", "k");
    for raw in ["model = 1\n", "[model]\nx = 1\n", "failover = 1\n", "model = {}\n"] {
        assert_eq!(upsert_model_entry_at(raw, "x", &fields), Err(EditError::NotATable), "{raw}");
    }
    let odd = "[model.x]\nextra_headers = 1\n";
    assert!(upsert_model_entry_at(odd, "x", &fields).is_ok());
    fields.extra_headers = vec![("a".into(), "b".into())];
    assert_eq!(upsert_model_entry_at(odd, "x", &fields), Err(EditError::NotATable));
    assert_eq!(reorder_failover_at("failover = 1\n", &vec![]), Err(EditError::NotATable));
}

#[test]
fn an_order_that_is_no_list_stays() {
    let raw = "[failover]\norder = \"a\"\n";
    let out = upsert_model_entry_at(raw, "x", &sample_fields("m", "k")).unwrap();
    assert!(out.contains("order = \"a\""));
}

#[test]
fn what_is_not_touched_stays_as_it_was_written() {
    let raw = "# top\ntheme = \"dark\" # mine\n\n[model.a] # first\n# about a\nmodel   = \"ma\"\n\n\
               [model.openai]\nbase_url = \"old\"\nname = \"n\" # keep\n\n\
               [failover] # order\norder = [\n  \"a\", # one\n]\n# end\n";
    let out = upsert_model_entry_at(raw, "openai", &sample_fields("m", "k")).unwrap();
    assert!(out.starts_with(
        "# top\ntheme = \"dark\" # mine\n\n[model.a] # first\n# about a\nmodel   = \"ma\"\n\n\
         [model.openai]\nbase_url = \"https://api.openai.com/v1\"\nname = \"n\" # keep\n"
    ));
    assert!(out.contains("[failover] # order\norder = [\n  \"a\""));
    assert!(out.ends_with("# end\n"));
    let out = remove_model_entry_at(raw, "openai").unwrap().unwrap();
    assert!(!out.contains("openai"));
    assert!(out.contains("order = [\n  \"a\", # one\n]\n# end\n"));
    let out = reorder_failover_at(raw, &vec!["x".into()]).unwrap();
    assert!(out.contains("[failover] # order\norder = [\"x\"]"));
    assert!(out.contains("[model.a] # first\n# about a\n"));
}

#[test]
fn comments_at_overwritten_keys_stay() {
    let raw = "[model.openai]\n# where it is\nbase_url = \"old\" # a proxy\n\
               # which one\nmodel   =  \"m0\"   # mine\n\n\
               [model.openai.extra_headers]\n# who\nA = \"1\" # me\n\n\
               [failover]\n# tried in this order\norder = [\"openai\"] # all\n";
    let mut fields = sample_fields("m1", "k");
    fields.extra_headers = vec![("A".into(), "2".into())];
    let out = upsert_model_entry_at(raw, "openai", &fields).unwrap();
    assert!(out.starts_with(
        "[model.openai]\n# where it is\nbase_url = \"https://api.openai.com/v1\" # a proxy\n\
         # which one\nmodel   =  \"m1\"   # mine\n"
    ));
    assert!(out.contains("# who\nA = \"2\" # me\n"));
    assert!(out.contains("# tried in this order\norder = [\"openai\"] # all\n"));
    let out = reorder_failover_at(raw, &vec!["b".into()]).unwrap();
    assert!(out.contains("# tried in this order\norder = [\"b\"] # all\n"));
}
