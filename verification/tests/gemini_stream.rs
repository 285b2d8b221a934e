use provider_failover::conversation::{AssistantItem, ConversationItem};
use provider_failover::gemini::{
    stream_gemini, GeminiStream, GeminiStreamEvent, StreamInput,
};
use provider_failover::json::parse;
use provider_failover::sampling::{
    ConversationResponse, RequestId, SamplingError, SamplingEvent, StopReason,
};

const SECOND: u64 = 1_000_000_000;

fn rid() -> RequestId {
    RequestId::new("gemini-req")
}

fn chunk(json: &str) -> StreamInput {
    StreamInput::Event(GeminiStreamEvent::Chunk(parse(json).unwrap()))
}

fn open() -> (GeminiStream, Vec<SamplingEvent>) {
    stream_gemini(rid(), false, 60, 0, 0, 1_700_000_000_000)
}

fn collect(inputs: Vec<StreamInput>) -> Vec<SamplingEvent> {
    let (mut stream, mut events) = open();
    for input in inputs {
        events.append(&mut stream.step(input, SECOND));
    }
    events.append(&mut stream.step(StreamInput::End, SECOND));
    events
}

fn assistant(response: &ConversationResponse) -> &AssistantItem {
    match &response.items[0] {
        ConversationItem::Assistant(a) => a,
        _ => panic!("expected an assistant item"),
    }
}

fn completed(events: &[SamplingEvent]) -> &ConversationResponse {
    match events.last().unwrap() {
        SamplingEvent::Completed { response, .. } => response,
        _ => panic!("expected Completed"),
    }
}

#[test]
fn text_chunks_stream_then_complete() {
    let events = collect(vec![
        chunk(r#"{"candidates":[{"content":{"parts":[{"text":"he"}]}}]}"#),
        chunk(
            r#"{"candidates":[{"content":{"parts":[{"text":"llo"}]}}],
                "usageMetadata":{"promptTokenCount":5,"candidatesTokenCount":2,"totalTokenCount":7}}"#,
        ),
        chunk(r#"{"candidates":[{"finishReason":"STOP"}]}"#),
    ]);
    assert!(matches!(events[0], SamplingEvent::StreamStarted { .. }));
    assert!(matches!(events[1], SamplingEvent::FirstToken { .. }));
    let response = completed(&events);
    assert_eq!(assistant(response).content, "hello");
    assert_eq!(response.stop_reason, Some(StopReason::Stop));
    let u = response.usage.as_ref().unwrap();
    assert_eq!((u.prompt_tokens, u.completion_tokens, u.total_tokens), (5, 2, 7));
    assert_eq!(events.len(), 5);
    assert_eq!(response.message_chunks_emitted, 2);
}

#[test]
fn error_object_fails_the_stream() {
    let events = collect(vec![chunk(
        r#"{"error": {"code": 429, "message": "quota exceeded", "status": "RESOURCE_EXHAUSTED"}}"#,
    )]);
    match events.last().unwrap() {
        SamplingEvent::Failed { error: SamplingError::Api { status, message, .. }, .. } => {
            assert!(message.contains("quota exceeded"));
            assert_eq!(*status, 429);
        }
        _ => panic!("expected Failed"),
    }
    assert!(!events.iter().any(|e| matches!(e, SamplingEvent::Completed { .. })));
}

#[test]
fn function_call_accumulates_and_forces_tool_calls_stop() {
    let events = collect(vec![chunk(
        r#"{"candidates":[{"content":{"parts":[
            {"functionCall":{"name":"get_weather","args":{"city":"Lisbon"}}},
            {"text":"checking"}
        ]}}]}"#,
    )]);
    let response = completed(&events);
    let a = assistant(response);
    assert_eq!(a.content, "checking");
    assert_eq!(a.tool_calls.len(), 1);
    assert_eq!(a.tool_calls[0].name, "get_weather");
    assert!(a.tool_calls[0].arguments.contains("Lisbon"));
    assert_eq!(response.stop_reason, Some(StopReason::ToolCalls));
}

#[test]
fn max_tokens_finish_reason_maps_to_length() {
    let events = collect(vec![chunk(r#"{"candidates":[{"finishReason":"MAX_TOKENS"}]}"#)]);
    assert_eq!(completed(&events).stop_reason, Some(StopReason::Length));
}

#[test]
fn finish_reasons_map() {
    for (given, wanted) in [
        ("SAFETY", StopReason::ContentFilter),
        ("RECITATION", StopReason::Stop),
        ("STOP", StopReason::Stop),
    ] {
        let json = format!("{{\"candidates\":[{{\"finishReason\":\"{given}\"}}]}}");
        assert_eq!(completed(&collect(vec![chunk(&json)])).stop_reason, Some(wanted));
    }
    assert_eq!(completed(&collect(vec![])).stop_reason, None);
}

#[test]
fn calls_are_numbered_over_chunks_and_written_as_json() {
    let call = r#"{"candidates":[{"finishReason":"STOP","content":{"parts":[
        {"functionCall":{"name":"f","args":{"b":1,"a":[true,null,-2,1.5,"x\"y"]}}},
        {"functionCall":{}},{"functionCall":7}]}}]}"#;
    let events = collect(vec![chunk(call), chunk(call)]);
    let response = completed(&events);
    let calls = &assistant(response).tool_calls;
    let ids: Vec<&str> = calls.iter().map(|c| c.id.as_str()).collect();
    assert_eq!(ids, ["gemini-call-0", "gemini-call-1", "gemini-call-2", "gemini-call-3"]);
    assert_eq!(calls[0].arguments, r#"{"b":1,"a":[true,null,-2,1.5,"x\"y"]}"#);
    assert_eq!((calls[1].name.as_str(), calls[1].arguments.as_str()), ("", "{}"));
    assert_eq!(response.stop_reason, Some(StopReason::ToolCalls));
}

#[test]
fn tokens_are_counted_and_the_first_is_announced_once() {
    let two = r#"{"modelVersion":"gemini-2.5-pro","candidates":[{"content":{"parts":[
        {"text":"a"},{"text":""},{"text":"b"}]}}]}"#;
    let events = collect(vec![chunk(two), chunk(two)]);
    let firsts =
        events.iter().filter(|e| matches!(e, SamplingEvent::FirstToken { .. })).count();
    assert_eq!(firsts, 1);
    let tokens: Vec<(u64, String)> = events
        .iter()
        .filter_map(|e| match e {
            SamplingEvent::ChannelToken { text, chunk_index, .. } => {
                Some((*chunk_index, text.clone()))
            }
            _ => None,
        })
        .collect();
    let wanted = [(1, "a"), (2, "b"), (3, "a"), (4, "b")];
    assert_eq!(tokens.len(), 4);
    for (got, want) in tokens.iter().zip(wanted) {
        assert_eq!((got.0, got.1.as_str()), want);
    }
    let response = completed(&events);
    assert_eq!(assistant(response).content, "abab");
    assert_eq!(assistant(response).model_id.as_deref(), Some("gemini-2.5-pro"));
}

#[test]
fn errors_without_code_or_text_have_defaults() {
    for (json, wanted_status, wanted_text) in [
        (r#"{"error":{}}"#, 500, "unknown Gemini stream error"),
        (r#"{"error":{"code":99}}"#, 500, "unknown Gemini stream error"),
        (r#"{"error":{"code":66036,"message":"m"}}"#, 500, "m"),
        (r#"{"error":{"code":65936,"message":"m"}}"#, 400, "m"),
        (r#"{"error":{"code":999,"message":"m"}}"#, 999, "m"),
    ] {
        match collect(vec![chunk(json)]).last().unwrap() {
            SamplingEvent::Failed { error: SamplingError::Api { status, message, .. }, .. } => {
                assert_eq!((*status, message.as_str()), (wanted_status, wanted_text), "{json}");
            }
            _ => panic!("expected Failed"),
        }
    }
    let events = collect(vec![chunk(r#"{"error":"not an object"}"#)]);
    assert!(matches!(events.last().unwrap(), SamplingEvent::Completed { .. }));
}

#[test]
fn usage_keeps_the_last_report_and_the_low_bits() {
    let events = collect(vec![
        chunk(r#"{"usageMetadata":{"promptTokenCount":1,"thoughtsTokenCount":9}}"#),
        chunk(r#"{"usageMetadata":{"promptTokenCount":4294967299,"cachedContentTokenCount":3,"totalTokenCount":-1}}"#),
    ]);
    let usage = completed(&events).usage.unwrap();
    assert_eq!(usage.prompt_tokens, 3);
    assert_eq!(usage.reasoning_tokens, 0);
    assert_eq!(usage.cached_prompt_tokens, 3);
    assert_eq!(usage.total_tokens, 0);
    assert_eq!(usage.cache_creation_prompt_tokens, 0);
}

fn is_idle_failure(events: &[SamplingEvent]) -> bool {
    matches!(
        events,
        [SamplingEvent::Failed { error: SamplingError::IdleTimeout { elapsed_secs: 60 }, .. }]
    )
}

#[test]
fn chunks_without_content_do_not_hold_off_the_idle_timeout() {
    let (mut stream, _) = open();
    let keepalive = r#"{"candidates":[{"content":{"parts":[{"text":""}]}}]}"#;
    assert!(stream.step(chunk(keepalive), 60 * SECOND).is_empty());
    assert!(!stream.is_finished());
    let text = r#"{"candidates":[{"content":{"parts":[{"text":"x"}]}}]}"#;
    assert_eq!(stream.step(chunk(text), 100 * SECOND).len(), 2);
    assert!(stream.step(chunk(keepalive), 160 * SECOND).is_empty());
    assert!(is_idle_failure(&stream.step(chunk(keepalive), 160 * SECOND + 1)));
    assert!(stream.is_finished());
    assert!(stream.step(StreamInput::End, 161 * SECOND).is_empty(), "nothing follows the end");
}

#[test]
fn silence_and_transport_errors_fail_the_stream() {
    let (mut stream, _) = open();
    assert!(is_idle_failure(&stream.step(StreamInput::Silence, 60 * SECOND)));
    let (mut stream, _) = open();
    let error = SamplingError::Transport { message: "reset".into() };
    match &stream.step(StreamInput::Error(error), SECOND)[..] {
        [SamplingEvent::Failed { error: SamplingError::Transport { message }, request_id }] => {
            assert_eq!(message, "reset");
            assert_eq!(request_id.id, "gemini-req");
        }
        _ => panic!("expected one failure"),
    }
    assert!(stream.is_finished());
}

#[test]
fn an_empty_stream_completes_with_an_empty_message() {
    let (mut stream, opening) = stream_gemini(rid(), true, 1, 0, 7, 42);
    assert!(matches!(opening[0], SamplingEvent::StreamStarted { timestamp_ms: 42, .. }));
    assert!(matches!(opening[1], SamplingEvent::ModelMetadata { .. }));
    assert_eq!(opening.len(), 2);
    let unread = chunk(r#"{"modelVersion":"m"}"#);
    stream.step(unread, 8);
    let events = stream.step(StreamInput::End, 9);
    let response = completed(&events);
    assert_eq!(assistant(response).content, "");
    assert_eq!(assistant(response).model_id, None);
    match &events[0] {
        SamplingEvent::Completed { timing, .. } => {
            assert_eq!((timing.started_at, timing.ended_at), (7, 9));
            assert!(timing.chunks_at.is_empty());
        }
        _ => panic!("expected Completed"),
    }
}
