use provider_failover::conversation::{
    AssistantItem, ContentPart, ConversationItem, ConversationRequest, SystemItem, ToolCall,
    ToolResultItem, ToolSpec, UserItem,
};
use provider_failover::gemini::{stream_gemini, GeminiStreamEvent, StreamInput};
use provider_failover::gemini_build::{
    build_gemini_request, function_call_part, merge_consecutive_same_role, Role, Turn,
};
use provider_failover::json::{from_value, parse, Json};
use provider_failover::sampling::{RequestId, SamplingError, SamplingEvent};
use serde_json::Value;

fn sys(text: &str) -> ConversationItem {
    ConversationItem::System(SystemItem { content: text.to_string() })
}

fn user(text: &str) -> ConversationItem {
    ConversationItem::User(UserItem { content: vec![ContentPart::Text { text: text.to_string() }] })
}

fn user_request_items(items: Vec<ConversationItem>) -> ConversationRequest {
    ConversationRequest { items, ..Default::default() }
}

fn body_of(req: &ConversationRequest) -> Value {
    build_gemini_request(req)
}

fn calling(content: &str, calls: &[(&str, &str, &str)]) -> ConversationItem {
    ConversationItem::Assistant(AssistantItem {
        content: content.to_string(),
        tool_calls: calls
            .iter()
            .map(|(id, name, arguments)| ToolCall {
                id: id.to_string(),
                name: name.to_string(),
                arguments: arguments.to_string(),
            })
            .collect(),
        model_id: None,
    })
}

fn result(id: &str, content: &str) -> ConversationItem {
    ConversationItem::ToolResult(ToolResultItem {
        tool_call_id: id.to_string(),
        content: content.to_string(),
    })
}

#[test]
fn system_user_and_sampling_params_map() {
    let req = ConversationRequest {
        items: vec![sys("be terse"), user("hi")],
        temperature: Some(from_value(Value::from(0.5f32))),
        top_p: Some(from_value(Value::from(0.9f32))),
        max_output_tokens: Some(256),
        ..Default::default()
    };
    let body = body_of(&req);
    assert_eq!(body["systemInstruction"]["parts"][0]["text"], "be terse");
    assert_eq!(body["contents"][0]["role"], "user");
    assert_eq!(body["contents"][0]["parts"][0]["text"], "hi");
    assert_eq!(body["generationConfig"]["temperature"], 0.5);
    assert!(
        (body["generationConfig"]["topP"].as_f64().unwrap() - 0.9).abs() < 1e-6,
        "topP was {}",
        body["generationConfig"]["topP"]
    );
    assert_eq!(body["generationConfig"]["maxOutputTokens"], 256);
    assert!(body.get("tools").is_none());
}

#[test]
fn tool_result_resolves_name_from_prior_tool_call() {
    let req = user_request_items(vec![
        user("weather?"),
        calling("", &[("call-1", "get_weather", "{\"city\":\"Lisbon\"}")]),
        result("call-1", "sunny"),
    ]);
    let body = body_of(&req);
    let model_turn = &body["contents"][1];
    assert_eq!(model_turn["role"], "model");
    assert_eq!(model_turn["parts"][0]["functionCall"]["name"], "get_weather");
    assert_eq!(model_turn["parts"][0]["functionCall"]["args"]["city"], "Lisbon");
    assert_eq!(
        body["contents"][2]["parts"][0]["functionResponse"]["name"],
        "get_weather"
    );
    assert_eq!(
        body["contents"][2]["parts"][0]["functionResponse"]["response"]["result"],
        "sunny"
    );
}

#[test]
fn tools_map_to_function_declarations() {
    let mut req = user_request_items(vec![user("hi")]);
    req.tools = vec![ToolSpec {
        name: "get_weather".into(),
        description: Some("Get current weather".into()),
        parameters: parse(r#"{"type":"object"}"#).unwrap(),
    }];
    let body = body_of(&req);
    assert_eq!(body["tools"][0]["function_declarations"][0]["name"], "get_weather");
    assert_eq!(
        body["tools"][0]["function_declarations"][0]["description"],
        "Get current weather"
    );
    assert_eq!(
        body["tools"][0]["function_declarations"][0]["parameters"]["type"],
        "object"
    );
}

#[test]
fn consecutive_user_turns_merge() {
    let req = user_request_items(vec![user("a"), user("b")]);
    let body = body_of(&req);
    let contents = body["contents"].as_array().unwrap();
    assert_eq!(contents.len(), 1, "merged: {contents:?}");
    assert_eq!(contents[0]["parts"].as_array().unwrap().len(), 2);
}

#[test]
fn the_whole_body_is_written_in_order() {
    let mut req = user_request_items(vec![
        sys("s"),
        user("u"),
        calling("t", &[("1", "f", "junk"), ("2", "g", "[1]")]),
        result("2", "r"),
        result("9", "q"),
        ConversationItem::Reasoning("dropped".into()),
        ConversationItem::BackendToolCall("dropped".into()),
        ConversationItem::User(UserItem {
            content: vec![ContentPart::Image { url: "dropped".into() }],
        }),
        calling("", &[]),
    ]);
    req.tools = vec![ToolSpec {
        name: "f".into(),
        description: None,
        parameters: parse("null").unwrap(),
    }];
    req.max_output_tokens = Some(7);
    assert_eq!(
        build_gemini_request(&req).to_string(),
        concat_texts(&[
            r#"{"contents":[{"role":"user","parts":[{"text":"u"}]},"#,
            r#"{"role":"model","parts":[{"text":"t"},"#,
            r#"{"functionCall":{"name":"f","args":{}}},"#,
            r#"{"functionCall":{"name":"g","args":[1]}}]},"#,
            r#"{"role":"user","parts":["#,
            r#"{"functionResponse":{"name":"g","response":{"result":"r"}}},"#,
            r#"{"functionResponse":{"name":"","response":{"result":"q"}}}]}],"#,
            r#""systemInstruction":{"parts":[{"text":"s"}]},"#,
            r#""generationConfig":{"maxOutputTokens":7},"#,
            r#""tools":[{"function_declarations":[{"name":"f","description":"","parameters":null}]}]}"#,
        ])
    );
}

fn concat_texts(texts: &[&str]) -> String {
    texts.concat()
}

#[test]
fn an_empty_request_has_only_contents() {
    assert_eq!(build_gemini_request(&ConversationRequest::default()).to_string(), r#"{"contents":[]}"#);
}

#[test]
fn the_latest_call_with_an_id_names_its_result() {
    let req = user_request_items(vec![
        calling("", &[("1", "old", "{}"), ("1", "new", "{}")]),
        result("1", "r"),
    ]);
    let body = body_of(&req);
    assert_eq!(body["contents"][1]["parts"][0]["functionResponse"]["name"], "new");
}

#[test]
fn turns_merge_only_next_to_each_other() {
    let turn = |role, text: &str| Turn { role, parts: vec![Json::Text(text.to_string())] };
    let mut turns = vec![
        turn(Role::User, "a"),
        turn(Role::User, "b"),
        turn(Role::Model, "c"),
        turn(Role::User, "d"),
    ];
    merge_consecutive_same_role(&mut turns);
    let sizes: Vec<usize> = turns.iter().map(|t| t.parts.len()).collect();
    assert_eq!(sizes, [2, 1, 1]);
    assert!(matches!(turns[2].role, Role::User));
    let mut none: Vec<Turn> = vec![];
    merge_consecutive_same_role(&mut none);
    assert!(none.is_empty());
}

#[test]
fn calls_without_readable_arguments_have_none() {
    assert_eq!(
        function_call_part("f", None).to_text(),
        r#"{"functionCall":{"name":"f","args":{}}}"#
    );
}

#[test]
fn an_answer_streams_back_for_a_request() {
    let body = body_of(&user_request_items(vec![sys("be terse"), user("say hi")]));
    assert_eq!(body["systemInstruction"]["parts"][0]["text"], "be terse");
    assert_eq!(body["contents"][0]["parts"][0]["text"], "say hi");
    assert!(body.get("tools").is_none(), "no tools declared");
    let (mut stream, _) = stream_gemini(RequestId::new("t"), false, 30, 0, 0, 0);
    for json in [
        r#"{"candidates":[{"content":{"parts":[{"text":"he"}]}}]}"#,
        r#"{"candidates":[{"content":{"parts":[{"text":"llo"}],"role":"model"}}],"usageMetadata":{"promptTokenCount":5,"candidatesTokenCount":2,"totalTokenCount":7}}"#,
        r#"{"candidates":[{"finishReason":"STOP","content":{"parts":[],"role":"model"}}]}"#,
    ] {
        stream.step(StreamInput::Event(GeminiStreamEvent::Chunk(parse(json).unwrap())), 1);
    }
    match &stream.step(StreamInput::End, 2)[0] {
        SamplingEvent::Completed { response, .. } => {
            let usage = response.usage.unwrap();
            assert_eq!(usage.prompt_tokens, 5);
            match &response.items[0] {
                ConversationItem::Assistant(a) => assert_eq!(a.content, "hello"),
                _ => panic!("expected an assistant item"),
            }
        }
        _ => panic!("expected Completed"),
    }
}

#[test]
fn a_quota_error_in_the_stream_is_told() {
    let json = "{\"error\":{\"code\":429,\"message\":\"quota exceeded\",\"status\":\"RESOURCE_EXHAUSTED\"}}";
    let (mut stream, _) = stream_gemini(RequestId::new("gemini-err"), false, 30, 0, 0, 0);
    let chunk = StreamInput::Event(GeminiStreamEvent::Chunk(parse(json).unwrap()));
    match &stream.step(chunk, 1)[..] {
        [SamplingEvent::Failed { error: SamplingError::Api { message, .. }, .. }] => {
            assert!(message.contains("quota exceeded"), "message was {message}");
        }
        _ => panic!("expected one failure"),
    }
}
