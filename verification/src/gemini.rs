//! The Gemini `streamGenerateContent` stream as a state machine: response chunks come in,
//! sampling events go out.
use crate::conversation::{AssistantItem, ConversationItem, ToolCall};
use crate::json::{
    field_views, from_value, json_text, json_views, one_per_key, value_view, Json, JsonView,
};
use crate::sampling::{
    call_views, event_views, message_view, ConversationResponse, ErrorView, EventView, MessageView,
    RequestId, ResponseView, SamplingError, SamplingEvent, StopReason, StreamTiming, TokenUsage,
    ToolCallView,
};
use crate::text::{decimal, decimal_digits, joined, opt_text, same_text};
use vstd::prelude::*;
use vstd::string::*;

verus! {

/// One payload of the event stream.
pub enum GeminiStreamEvent {
    /// A full JSON response chunk (`{"candidates": [...], ...}`).
    Chunk(Json),
}

impl GeminiStreamEvent {
    /// The chunk that a parsed payload is.
    pub fn from_value(value: serde_json::Value) -> (event: Self)
        ensures
            event->Chunk_0@ == value_view(value),
    {
        GeminiStreamEvent::Chunk(from_value(value))
    }
}

/// What the transport reports next.
pub enum StreamInput {
    Event(GeminiStreamEvent),
    Error(SamplingError),
    /// Nothing came within the idle timeout.
    Silence,
    /// The stream ended normally.
    End,
}

/// A call found in a chunk.
pub struct FoundCall {
    pub name: Seq<char>,
    pub arguments: Seq<char>,
}

/// What has been taken from a stream so far.
pub struct StreamView {
    pub id: Seq<char>,
    pub idle_secs: u64,
    pub idle_nanos: u32,
    pub started_at: u64,
    pub chunks_at: Seq<u64>,
    pub model: Option<Seq<char>>,
    pub usage: Option<TokenUsage>,
    pub finish_reason: Option<StopReason>,
    pub content: Seq<char>,
    pub tool_calls: Seq<ToolCallView>,
    pub last_content_at: u64,
    pub saw_candidate: bool,
    pub finished: bool,
}

/// `value.field(key)`, for a value that may be missing.
pub open spec fn field_of(value: Option<JsonView>, key: Seq<char>) -> Option<JsonView> {
    match value {
        Some(v) => v.field(key),
        None => None,
    }
}

/// The elements of a value that may be missing.
pub open spec fn elements_of(value: Option<JsonView>) -> Seq<JsonView> {
    match value {
        Some(v) => v.elements(),
        None => Seq::empty(),
    }
}

/// The text of a value that may be missing.
pub open spec fn text_of(value: Option<JsonView>) -> Option<Seq<char>> {
    match value {
        Some(v) => v.text(),
        None => None,
    }
}

/// The non-negative integer of a value that may be missing.
pub open spec fn unsigned_of(value: Option<JsonView>) -> Option<u64> {
    match value {
        Some(v) => v.unsigned(),
        None => None,
    }
}

/// The candidates of a chunk.
pub open spec fn candidates_of(chunk: JsonView) -> Seq<JsonView> {
    elements_of(chunk.field("candidates"@))
}

/// The parts of a candidate.
pub open spec fn parts_of(candidate: JsonView) -> Seq<JsonView> {
    elements_of(field_of(candidate.field("content"@), "parts"@))
}

/// The parts of a list of candidates, in order.
pub open spec fn parts_in(candidates: Seq<JsonView>) -> Seq<JsonView>
    decreases candidates.len(),
{
    if candidates.len() == 0 {
        Seq::empty()
    } else {
        parts_in(candidates.drop_last()) + parts_of(candidates.last())
    }
}

/// The text of a part, if it has one that is not empty.
pub open spec fn part_text(part: JsonView) -> Option<Seq<char>> {
    match text_of(part.field("text"@)) {
        Some(t) => if t.len() == 0 {
            None
        } else {
            Some(t)
        },
        None => None,
    }
}

/// The arguments of a function call as JSON text: those of an empty object if there are none.
pub open spec fn args_text(call: JsonView) -> Seq<char> {
    match call.field("args"@) {
        Some(args) => json_text(one_per_key(args)),
        None => json_text(one_per_key(JsonView::Object(Seq::empty()))),
    }
}

/// The function call of a part, if it has one.
pub open spec fn part_call(part: JsonView) -> Option<FoundCall> {
    match part.field("functionCall"@) {
        Some(call) => if call is Object {
            Some(
                FoundCall {
                    name: match text_of(call.field("name"@)) {
                        Some(name) => name,
                        None => Seq::empty(),
                    },
                    arguments: args_text(call),
                },
            )
        } else {
            None
        },
        None => None,
    }
}

/// The texts of a list of parts, in order.
pub open spec fn texts_in(parts: Seq<JsonView>) -> Seq<Seq<char>>
    decreases parts.len(),
{
    if parts.len() == 0 {
        Seq::empty()
    } else {
        match part_text(parts.last()) {
            Some(t) => texts_in(parts.drop_last()).push(t),
            None => texts_in(parts.drop_last()),
        }
    }
}

/// The calls of a list of parts, in order.
pub open spec fn calls_in(parts: Seq<JsonView>) -> Seq<FoundCall>
    decreases parts.len(),
{
    if parts.len() == 0 {
        Seq::empty()
    } else {
        match part_call(parts.last()) {
            Some(call) => calls_in(parts.drop_last()).push(call),
            None => calls_in(parts.drop_last()),
        }
    }
}

/// The stop reason that a finish reason stands for: an unknown one is an ordinary stop.
pub open spec fn stop_reason_of(finish: Seq<char>) -> StopReason {
    if finish == "MAX_TOKENS"@ {
        StopReason::Length
    } else if finish == "SAFETY"@ {
        StopReason::ContentFilter
    } else {
        StopReason::Stop
    }
}

/// The stop reason of the last candidate that gives one.
pub open spec fn finish_in(candidates: Seq<JsonView>) -> Option<StopReason>
    decreases candidates.len(),
{
    if candidates.len() == 0 {
        None
    } else {
        match text_of(candidates.last().field("finishReason"@)) {
            Some(finish) => Some(stop_reason_of(finish)),
            None => finish_in(candidates.drop_last()),
        }
    }
}

/// The texts one after the other.
pub open spec fn concatenated(texts: Seq<Seq<char>>) -> Seq<char>
    decreases texts.len(),
{
    if texts.len() == 0 {
        Seq::empty()
    } else {
        concatenated(texts.drop_last()) + texts.last()
    }
}

/// The id given to the call number `n` of a response.
pub open spec fn call_id(n: nat) -> Seq<char> {
    "gemini-call-"@ + decimal_digits(n)
}

/// Calls with their ids, counted from `first`.
pub open spec fn numbered(calls: Seq<FoundCall>, first: nat) -> Seq<ToolCallView> {
    Seq::new(
        calls.len(),
        |i: int|
            ToolCallView {
                id: call_id((first + i) as nat),
                name: calls[i].name,
                arguments: calls[i].arguments,
            },
    )
}

/// The state once `parts` have been taken in at the time `now`.
pub open spec fn absorbed(s: StreamView, parts: Seq<JsonView>, now: u64) -> StreamView {
    StreamView {
        chunks_at: s.chunks_at + Seq::new(texts_in(parts).len(), |i: int| now),
        content: s.content + concatenated(texts_in(parts)),
        tool_calls: s.tool_calls + numbered(calls_in(parts), s.tool_calls.len()),
        saw_candidate: s.saw_candidate || parts.len() > 0,
        ..s
    }
}

/// The events for the texts of a chunk: the first token of a stream is announced.
pub open spec fn token_events(s: StreamView, texts: Seq<Seq<char>>) -> Seq<EventView> {
    let tokens = Seq::new(
        texts.len(),
        |i: int|
            EventView::ChannelToken {
                id: s.id,
                text: texts[i],
                chunk_index: (s.chunks_at.len() + i + 1) as nat,
            },
    );
    if s.chunks_at.len() == 0 && texts.len() > 0 {
        seq![EventView::FirstToken { id: s.id }] + tokens
    } else {
        tokens
    }
}

/// The low 32 bits of a count, 0 if there is none.
pub open spec fn count_of(usage: JsonView, key: Seq<char>) -> u32 {
    match unsigned_of(usage.field(key)) {
        Some(n) => (n % 0x1_0000_0000) as u32,
        None => 0,
    }
}

/// The token counts of a chunk, if it has any.
pub open spec fn usage_of(chunk: JsonView) -> Option<TokenUsage> {
    match chunk.field("usageMetadata"@) {
        Some(u) => Some(
            TokenUsage {
                prompt_tokens: count_of(u, "promptTokenCount"@),
                completion_tokens: count_of(u, "candidatesTokenCount"@),
                total_tokens: count_of(u, "totalTokenCount"@),
                reasoning_tokens: count_of(u, "thoughtsTokenCount"@),
                cached_prompt_tokens: count_of(u, "cachedContentTokenCount"@),
                cache_creation_prompt_tokens: 0,
            },
        ),
        None => None,
    }
}

/// The HTTP status that an error code stands for: its low 16 bits if they are a status, else 500.
pub open spec fn status_of(code: Option<u64>) -> u16 {
    match code {
        Some(c) => if 100 <= c % 0x1_0000 <= 999 {
            (c % 0x1_0000) as u16
        } else {
            500
        },
        None => 500,
    }
}

/// The failure that a chunk reports, if it holds an `error` object.
pub open spec fn error_of(chunk: JsonView) -> Option<ErrorView> {
    match chunk.field("error"@) {
        Some(err) => if err is Object {
            Some(
                ErrorView::Api {
                    status: status_of(unsigned_of(err.field("code"@))),
                    message: match text_of(err.field("message"@)) {
                        Some(m) => m,
                        None => "unknown Gemini stream error"@,
                    },
                    retry_after_secs: None,
                    should_retry: None,
                    error_code: None,
                },
            )
        } else {
            None
        },
        None => None,
    }
}

/// Whether a chunk brings anything: a text, a call or a finish reason.
pub open spec fn has_content(chunk: JsonView) -> bool {
    let candidates = candidates_of(chunk);
    ||| texts_in(parts_in(candidates)).len() > 0
    ||| calls_in(parts_in(candidates)).len() > 0
    ||| finish_in(candidates) is Some
}

/// Whether the idle timeout has passed since the last content.
pub open spec fn is_idle(s: StreamView, now: u64) -> bool {
    now - s.last_content_at > s.idle_secs * 1_000_000_000 + s.idle_nanos
}

/// The failure of a stream that has been idle for too long.
pub open spec fn idle_failure(s: StreamView) -> EventView {
    EventView::Failed {
        id: s.id,
        error: ErrorView::IdleTimeout { elapsed_secs: s.idle_secs },
    }
}

/// The state after a chunk.
pub open spec fn after_chunk(s: StreamView, chunk: JsonView, now: u64) -> StreamView {
    if error_of(chunk) is Some {
        StreamView { finished: true, ..s }
    } else {
        let candidates = candidates_of(chunk);
        let t = absorbed(s, parts_in(candidates), now);
        StreamView {
            model: if s.model is None {
                text_of(chunk.field("modelVersion"@))
            } else {
                s.model
            },
            usage: if usage_of(chunk) is Some {
                usage_of(chunk)
            } else {
                s.usage
            },
            finish_reason: if finish_in(candidates) is Some {
                finish_in(candidates)
            } else {
                s.finish_reason
            },
            last_content_at: if has_content(chunk) {
                now
            } else {
                s.last_content_at
            },
            finished: !has_content(chunk) && is_idle(s, now),
            ..t
        }
    }
}

/// The events of a chunk.
pub open spec fn chunk_events(s: StreamView, chunk: JsonView, now: u64) -> Seq<EventView> {
    match error_of(chunk) {
        Some(error) => seq![EventView::Failed { id: s.id, error }],
        None => if has_content(chunk) {
            token_events(s, texts_in(parts_in(candidates_of(chunk))))
        } else if is_idle(s, now) {
            seq![idle_failure(s)]
        } else {
            Seq::empty()
        },
    }
}

/// The stop reason of a whole response: calls outrank what the provider said.
pub open spec fn final_stop_reason(s: StreamView) -> Option<StopReason> {
    if s.tool_calls.len() > 0 {
        Some(StopReason::ToolCalls)
    } else {
        s.finish_reason
    }
}

/// The message of a whole response. A stream without a single part gives an empty message.
pub open spec fn final_message(s: StreamView) -> MessageView {
    if s.saw_candidate || s.tool_calls.len() > 0 {
        MessageView { content: s.content, tool_calls: s.tool_calls, model_id: s.model }
    } else {
        MessageView { content: Seq::empty(), tool_calls: Seq::empty(), model_id: None }
    }
}

/// The event that ends a stream normally.
pub open spec fn completion(s: StreamView, now: u64) -> EventView {
    EventView::Completed {
        id: s.id,
        response: ResponseView {
            message: Some(final_message(s)),
            stop_reason: final_stop_reason(s),
            usage: s.usage,
            message_chunks_emitted: s.chunks_at.len() as u64,
        },
        plain: true,
        started_at: s.started_at,
        chunks_at: s.chunks_at,
        ended_at: now,
    }
}

/// The state after an input.
pub open spec fn after_input(s: StreamView, input: StreamInput, now: u64) -> StreamView {
    if s.finished {
        s
    } else {
        match input {
            StreamInput::Event(GeminiStreamEvent::Chunk(chunk)) => after_chunk(s, chunk@, now),
            _ => StreamView { finished: true, ..s },
        }
    }
}

/// The events of an input.
pub open spec fn input_events(s: StreamView, input: StreamInput, now: u64) -> Seq<EventView> {
    if s.finished {
        Seq::empty()
    } else {
        match input {
            StreamInput::Event(GeminiStreamEvent::Chunk(chunk)) => chunk_events(s, chunk@, now),
            StreamInput::Error(error) => seq![EventView::Failed { id: s.id, error: error@ }],
            StreamInput::Silence => seq![idle_failure(s)],
            StreamInput::End => seq![completion(s, now)],
        }
    }
}

/// A stream in progress.
pub struct GeminiStream {
    request_id: RequestId,
    idle_secs: u64,
    idle_nanos: u32,
    started_at: u64,
    chunks_at: Vec<u64>,
    model: Option<String>,
    usage: Option<TokenUsage>,
    finish_reason: Option<StopReason>,
    content: String,
    tool_calls: Vec<ToolCall>,
    last_content_at: u64,
    saw_candidate: bool,
    finished: bool,
}

impl View for GeminiStream {
    type V = StreamView;

    closed spec fn view(&self) -> StreamView {
        StreamView {
            id: self.request_id@,
            idle_secs: self.idle_secs,
            idle_nanos: self.idle_nanos,
            started_at: self.started_at,
            chunks_at: self.chunks_at@,
            model: opt_text(self.model),
            usage: self.usage,
            finish_reason: self.finish_reason,
            content: self.content@,
            tool_calls: call_views(self.tool_calls@),
            last_content_at: self.last_content_at,
            saw_candidate: self.saw_candidate,
            finished: self.finished,
        }
    }
}

/// `reqwest::StatusCode::from_u16`: a status is a number from 100 to 999; the status is handed
/// back as that number.
#[verifier::external_body]
fn status_from_u16(code: u16) -> (status: Option<u16>)
    ensures
        status == if 100 <= code <= 999 {
            Some(code)
        } else {
            None
        },
{
    match reqwest::StatusCode::from_u16(code) {
        Ok(status) => Some(status.as_u16()),
        Err(_) => None,
    }
}

fn get_in<'a>(value: Option<&'a Json>, key: &str) -> (r: Option<&'a Json>)
    ensures
        view_of(r) == field_of(view_of(value), key@),
{
    match value {
        Some(v) => v.get(key),
        None => None,
    }
}

/// What a value that may be missing says.
pub open spec fn view_of(value: Option<&Json>) -> Option<JsonView> {
    match value {
        Some(v) => Some(v@),
        None => None,
    }
}

fn str_in<'a>(value: Option<&'a Json>) -> (r: Option<&'a str>)
    ensures
        match r {
            Some(t) => text_of(view_of(value)) == Some(t@),
            None => text_of(view_of(value)) is None,
        },
{
    match value {
        Some(v) => v.as_str(),
        None => None,
    }
}

fn u64_in(value: Option<&Json>) -> (r: Option<u64>)
    ensures
        r == unsigned_of(view_of(value)),
{
    match value {
        Some(v) => v.as_u64(),
        None => None,
    }
}

fn array_in<'a>(value: Option<&'a Json>) -> (r: Option<&'a Vec<Json>>)
    ensures
        match r {
            Some(list) => elements_of(view_of(value)) == json_views(list@),
            None => elements_of(view_of(value)).len() == 0,
        },
{
    match value {
        Some(v) => v.as_array(),
        None => None,
    }
}

fn count(usage: &Json, key: &str) -> (n: u32)
    ensures
        n == count_of(usage@, key@),
{
    match u64_in(usage.get(key)) {
        Some(n) => {
            assert(n as u32 == (n % 0x1_0000_0000) as u32) by (bit_vector);
            #[verifier::truncate]
            let low: u32 = n as u32;
            low
        },
        None => 0,
    }
}

/// The token counts of a chunk, if it has any.
pub fn parse_usage(chunk: &Json) -> (usage: Option<TokenUsage>)
    ensures
        usage == usage_of(chunk@),
{
    match chunk.get("usageMetadata") {
        Some(u) => Some(
            TokenUsage {
                prompt_tokens: count(u, "promptTokenCount"),
                completion_tokens: count(u, "candidatesTokenCount"),
                total_tokens: count(u, "totalTokenCount"),
                reasoning_tokens: count(u, "thoughtsTokenCount"),
                cached_prompt_tokens: count(u, "cachedContentTokenCount"),
                cache_creation_prompt_tokens: 0,
            },
        ),
        None => None,
    }
}

fn status(code: Option<u64>) -> (r: u16)
    ensures
        r == status_of(code),
{
    match code {
        Some(c) => {
            assert(c as u16 == (c % 0x1_0000) as u16) by (bit_vector);
            #[verifier::truncate]
            let low: u16 = c as u16;
            match status_from_u16(low) {
                Some(s) => s,
                None => 500,
            }
        },
        None => 500,
    }
}

/// The failure that a chunk reports, if it holds an `error` object.
pub fn chunk_error(chunk: &Json) -> (error: Option<SamplingError>)
    ensures
        match error {
            Some(e) => error_of(chunk@) == Some(e@),
            None => error_of(chunk@) is None,
        },
{
    match chunk.get("error") {
        Some(err) => {
            if !err.is_object() {
                return None;
            }
            let code = u64_in(err.get("code"));
            let message = match str_in(err.get("message")) {
                Some(m) => m,
                None => "unknown Gemini stream error",
            };
            let error = SamplingError::Api {
                status: status(code),
                message: message.to_owned(),
                retry_after_secs: None,
                should_retry: None,
                error_code: None,
            };
            Some(error)
        },
        None => None,
    }
}

fn stop_reason(finish: &str) -> (r: StopReason)
    ensures
        r == stop_reason_of(finish@),
{
    if same_text(finish, "MAX_TOKENS") {
        StopReason::Length
    } else if same_text(finish, "SAFETY") {
        StopReason::ContentFilter
    } else {
        StopReason::Stop
    }
}

/// The call number `n` of a response, with its arguments as JSON text. Gemini gives no ids to
/// calls, so the id is made from the number.
pub fn numbered_call(n: usize, name: String, arguments: String) -> (call: ToolCall)
    ensures
        call@ == (ToolCallView {
            id: call_id(n as nat),
            name: name@,
            arguments: arguments@,
        }),
{
    ToolCall { id: joined("gemini-call-", decimal(n as u64).as_str()), name, arguments }
}

pub(crate) proof fn lemma_one_part(part: JsonView)
    ensures
        texts_in(seq![part]) == match part_text(part) {
            Some(t) => seq![t],
            None => Seq::empty(),
        },
        calls_in(seq![part]) == match part_call(part) {
            Some(c) => seq![c],
            None => Seq::empty(),
        },
{
    let one = seq![part];
    assert(one.drop_last() =~= Seq::empty());
    assert(texts_in(one.drop_last()) =~= Seq::empty());
    assert(calls_in(one.drop_last()) =~= Seq::empty());
    assert(texts_in(one) =~= match part_text(part) {
        Some(t) => seq![t],
        None => Seq::empty(),
    });
    assert(calls_in(one) =~= match part_call(part) {
        Some(c) => seq![c],
        None => Seq::empty(),
    });
}

pub(crate) proof fn lemma_next_part(s: StreamView, parts: Seq<JsonView>, part: JsonView, now: u64)
    ensures
        absorbed(absorbed(s, parts, now), seq![part], now) == absorbed(s, parts.push(part), now),
        token_events(s, texts_in(parts)) + token_events(
            absorbed(s, parts, now),
            texts_in(seq![part]),
        ) == token_events(s, texts_in(parts.push(part))),
{
    lemma_one_part(part);
    let longer = parts.push(part);
    let mid = absorbed(s, parts, now);
    assert(longer.drop_last() =~= parts);
    let texts = texts_in(parts);
    let calls = calls_in(parts);
    match part_text(part) {
        Some(t) => {
            assert(texts_in(longer) == texts.push(t));
            assert(texts.push(t).drop_last() =~= texts);
            assert(seq![t].drop_last() =~= Seq::empty());
            assert(concatenated(seq![t].drop_last()) =~= Seq::empty());
            assert(concatenated(seq![t]) =~= t);
            assert(concatenated(texts.push(t)) =~= concatenated(texts) + t);
        },
        None => {
            assert(concatenated(Seq::<Seq<char>>::empty()) =~= Seq::empty());
        },
    }
    assert(absorbed(mid, seq![part], now).content =~= absorbed(s, longer, now).content);
    assert(absorbed(mid, seq![part], now).chunks_at =~= absorbed(s, longer, now).chunks_at);
    assert(absorbed(mid, seq![part], now).tool_calls =~= absorbed(s, longer, now).tool_calls);
    assert(token_events(s, texts) + token_events(mid, texts_in(seq![part])) =~= token_events(
        s,
        texts_in(longer),
    ));
}

impl GeminiStream {
    fn token(
        &mut self,
        text: &str,
        now: u64,
        events: &mut Vec<SamplingEvent>,
    )
        ensures
            final(self)@ == (StreamView {
                chunks_at: old(self)@.chunks_at.push(now),
                content: old(self)@.content + text@,
                ..old(self)@
            }),
            event_views(final(events)@) == event_views(old(events)@) + token_events(
                old(self)@,
                seq![text@],
            ),
    {
        let ghost before = self@;
        if self.chunks_at.len() == 0 {
            events.push(SamplingEvent::FirstToken { request_id: self.request_id.copy() });
        }
        self.chunks_at.push(now);
        self.content.append(text);
        events.push(
            SamplingEvent::ChannelToken {
                request_id: self.request_id.copy(),
                text: text.to_owned(),
                chunk_index: self.chunks_at.len() as u64,
            },
        );
        assert(event_views(events@) =~= event_views(old(events)@) + token_events(
            before,
            seq![text@],
        ));
    }

    fn call(&mut self, call: &Json)
        requires
            call@ is Object,
        ensures
            final(self)@ == (StreamView {
                tool_calls: old(self)@.tool_calls.push(
                    ToolCallView {
                        id: call_id(old(self)@.tool_calls.len()),
                        name: match text_of(call@.field("name"@)) {
                            Some(name) => name,
                            None => Seq::empty(),
                        },
                        arguments: args_text(call@),
                    },
                ),
                ..old(self)@
            }),
    {
        let name = match str_in(call.get("name")) {
            Some(name) => name.to_owned(),
            None => String::new(),
        };
        let arguments = match call.get("args") {
            Some(args) => args.to_text(),
            None => {
                let fields: Vec<(String, Json)> = Vec::new();
                assert(field_views(fields@) =~= Seq::empty());
                let empty = Json::Object(fields);
                assert(empty@ == JsonView::Object(Seq::empty()));
                empty.to_text()
            },
        };
        let ghost before = self.tool_calls@;
        let made = numbered_call(self.tool_calls.len(), name, arguments);
        self.tool_calls.push(made);
        assert(call_views(self.tool_calls@) =~= call_views(before).push(made@));
    }

    fn absorb_part(&mut self, part: &Json, now: u64, events: &mut Vec<SamplingEvent>) -> (any: bool)
        ensures
            final(self)@ == absorbed(old(self)@, seq![part@], now),
            event_views(final(events)@) == event_views(old(events)@) + token_events(
                old(self)@,
                texts_in(seq![part@]),
            ),
            any == (part_text(part@) is Some || part_call(part@) is Some),
    {
        proof {
            lemma_one_part(part@);
        }
        let ghost start = self@;
        self.saw_candidate = true;
        let mut any = false;
        match str_in(part.get("text")) {
            Some(text) => {
                if !text.is_empty() {
                    any = true;
                    self.token(text, now, events);
                    assert(seq![text@].drop_last() =~= Seq::empty());
                    assert(concatenated(seq![text@].drop_last()) =~= Seq::empty());
                    assert(concatenated(seq![text@]) =~= text@);
                }
            },
            None => {},
        }
        assert(concatenated(Seq::<Seq<char>>::empty()) =~= Seq::empty());
        assert(self@.content =~= absorbed(start, seq![part@], now).content);
        assert(self@.chunks_at =~= absorbed(start, seq![part@], now).chunks_at);
        assert(event_views(events@) =~= event_views(old(events)@) + token_events(
            start,
            texts_in(seq![part@]),
        ));
        match part.get("functionCall") {
            Some(call) => {
                if call.is_object() {
                    any = true;
                    self.call(call);
                }
            },
            None => {},
        }
        assert(self@.tool_calls =~= absorbed(start, seq![part@], now).tool_calls);
        any
    }

    fn absorb_parts(
        &mut self,
        parts: &Vec<Json>,
        now: u64,
        events: &mut Vec<SamplingEvent>,
        Ghost(start): Ghost<StreamView>,
        Ghost(told): Ghost<Seq<EventView>>,
        Ghost(seen): Ghost<Seq<JsonView>>,
    ) -> (any: bool)
        requires
            old(self)@ == absorbed(start, seen, now),
            event_views(old(events)@) == told + token_events(start, texts_in(seen)),
        ensures
            final(self)@ == absorbed(start, seen + json_views(parts@), now),
            event_views(final(events)@) == told + token_events(
                start,
                texts_in(seen + json_views(parts@)),
            ),
            texts_in(seen + json_views(parts@)).len() >= texts_in(seen).len(),
            calls_in(seen + json_views(parts@)).len() >= calls_in(seen).len(),
            any == (texts_in(seen + json_views(parts@)).len() > texts_in(seen).len() || calls_in(
                seen + json_views(parts@),
            ).len() > calls_in(seen).len()),
    {
        let ghost all = json_views(parts@);
        let mut any = false;
        let mut i: usize = 0;
        assert(seen + all.take(0) =~= seen);
        while i < parts.len()
            invariant
                i <= parts@.len(),
                all == json_views(parts@),
                self@ == absorbed(start, seen + all.take(i as int), now),
                event_views(events@) == told + token_events(
                    start,
                    texts_in(seen + all.take(i as int)),
                ),
                texts_in(seen + all.take(i as int)).len() >= texts_in(seen).len(),
                calls_in(seen + all.take(i as int)).len() >= calls_in(seen).len(),
                any == (texts_in(seen + all.take(i as int)).len() > texts_in(seen).len()
                    || calls_in(seen + all.take(i as int)).len() > calls_in(seen).len()),
            decreases parts@.len() - i,
        {
            let ghost before = seen + all.take(i as int);
            let ghost part = all[i as int];
            let ghost events_before = event_views(events@);
            let ghost mid = self@;
            let found = self.absorb_part(&parts[i], now, events);
            proof {
                lemma_next_part(start, before, part, now);
                assert(before.push(part) =~= seen + all.take(i + 1));
                assert(before.push(part).drop_last() =~= before);
                assert(event_views(events@) =~= told + (token_events(start, texts_in(before))
                    + token_events(mid, texts_in(seq![part]))));
            }
            if found {
                any = true;
            }
            i = i + 1;
        }
        assert(all.take(i as int) =~= all);
        any
    }

    fn absorb_candidates(
        &mut self,
        candidates: &Vec<Json>,
        now: u64,
        events: &mut Vec<SamplingEvent>,
    ) -> (any: bool)
        ensures
            final(self)@ == (StreamView {
                finish_reason: if finish_in(json_views(candidates@)) is Some {
                    finish_in(json_views(candidates@))
                } else {
                    old(self)@.finish_reason
                },
                ..absorbed(old(self)@, parts_in(json_views(candidates@)), now)
            }),
            event_views(final(events)@) == event_views(old(events)@) + token_events(
                old(self)@,
                texts_in(parts_in(json_views(candidates@))),
            ),
            any == (texts_in(parts_in(json_views(candidates@))).len() > 0 || calls_in(
                parts_in(json_views(candidates@)),
            ).len() > 0 || finish_in(json_views(candidates@)) is Some),
    {
        let ghost all = json_views(candidates@);
        let ghost start = self@;
        let ghost told = event_views(events@);
        let mut any = false;
        let mut finish: Option<StopReason> = None;
        let mut i: usize = 0;
        proof {
            assert(all.take(0) =~= Seq::empty());
            lemma_nothing_absorbed(start, now);
            assert(told + token_events(start, texts_in(parts_in(all.take(0)))) =~= told);
        }
        while i < candidates.len()
            invariant
                i <= candidates@.len(),
                all == json_views(candidates@),
                self@ == absorbed(start, parts_in(all.take(i as int)), now),
                event_views(events@) == told + token_events(
                    start,
                    texts_in(parts_in(all.take(i as int))),
                ),
                finish == finish_in(all.take(i as int)),
                any == (texts_in(parts_in(all.take(i as int))).len() > 0 || calls_in(
                    parts_in(all.take(i as int)),
                ).len() > 0 || finish is Some),
            decreases candidates@.len() - i,
        {
            let ghost shown = all.take(i + 1);
            let ghost seen = parts_in(all.take(i as int));
            assert(shown.drop_last() =~= all.take(i as int));
            assert(shown.last() == all[i as int]);
            let candidate = &candidates[i];
            match str_in(candidate.get("finishReason")) {
                Some(reason) => {
                    finish = Some(stop_reason(reason));
                    any = true;
                },
                None => {},
            }
            match array_in(get_in(candidate.get("content"), "parts")) {
                Some(parts) => {
                    let found = self.absorb_parts(
                        parts,
                        now,
                        events,
                        Ghost(start),
                        Ghost(told),
                        Ghost(seen),
                    );
                    if found {
                        any = true;
                    }
                },
                None => {
                    assert(seen + parts_of(candidate@) =~= seen);
                },
            }
            i = i + 1;
        }
        assert(all.take(i as int) =~= all);
        if finish.is_some() {
            self.finish_reason = finish;
        }
        any
    }

    fn fail_idle(&mut self, events: &mut Vec<SamplingEvent>)
        ensures
            final(self)@ == (StreamView { finished: true, ..old(self)@ }),
            event_views(final(events)@) == event_views(old(events)@).push(idle_failure(old(self)@)),
    {
        let event = SamplingEvent::Failed {
            request_id: self.request_id.copy(),
            error: SamplingError::IdleTimeout { elapsed_secs: self.idle_secs },
        };
        self.finished = true;
        events.push(event);
        assert(event_views(events@) =~= event_views(old(events)@).push(event@));
    }

    fn idle_since(&self, now: u64) -> (r: bool)
        ensures
            r == is_idle(self@, now),
    {
        let elapsed: u64 = if now < self.last_content_at {
            0
        } else {
            now - self.last_content_at
        };
        let limit: u128 = self.idle_secs as u128 * 1_000_000_000 + self.idle_nanos as u128;
        elapsed as u128 > limit
    }

    fn chunk(&mut self, chunk: &Json, now: u64) -> (events: Vec<SamplingEvent>)
        requires
            !old(self)@.finished,
        ensures
            final(self)@ == after_chunk(old(self)@, chunk@, now),
            event_views(events@) == chunk_events(old(self)@, chunk@, now),
    {
        let ghost start = self@;
        let mut events: Vec<SamplingEvent> = Vec::new();
        match chunk_error(chunk) {
            Some(error) => {
                let event = SamplingEvent::Failed { request_id: self.request_id.copy(), error };
                events.push(event);
                self.finished = true;
                assert(event_views(events@) =~= seq![event@]);
                return events;
            },
            None => {},
        }
        if self.model.is_none() {
            match str_in(chunk.get("modelVersion")) {
                Some(version) => {
                    self.model = Some(version.to_owned());
                },
                None => {},
            }
        }
        match parse_usage(chunk) {
            Some(usage) => {
                self.usage = Some(usage);
            },
            None => {},
        }
        let ghost mid = self@;
        proof {
            lemma_nothing_absorbed(mid, now);
        }
        assert(event_views(events@) =~= Seq::empty());
        let any = match array_in(chunk.get("candidates")) {
            Some(candidates) => self.absorb_candidates(candidates, now, &mut events),
            None => {
                assert(candidates_of(chunk@) =~= Seq::empty());
                false
            },
        };
        assert(event_views(events@) =~= token_events(
            start,
            texts_in(parts_in(candidates_of(chunk@))),
        ));
        assert(any == has_content(chunk@));
        if any {
            self.last_content_at = now;
        } else {
            assert(event_views(events@) =~= Seq::empty());
            if self.idle_since(now) {
                self.fail_idle(&mut events);
                assert(event_views(events@) =~= seq![idle_failure(start)]);
            }
        }
        events
    }

    fn complete(&mut self, now: u64) -> (event: SamplingEvent)
        ensures
            final(self)@ == (StreamView { finished: true, ..old(self)@ }),
            event@ == completion(old(self)@, now),
    {
        let ghost start = self@;
        let mut stop = self.finish_reason;
        if self.tool_calls.len() > 0 {
            stop = Some(StopReason::ToolCalls);
        }
        let message = if self.saw_candidate || self.tool_calls.len() > 0 {
            AssistantItem {
                content: self.content.clone(),
                tool_calls: copy_calls(&self.tool_calls),
                model_id: self.model.clone(),
            }
        } else {
            AssistantItem { content: String::new(), tool_calls: Vec::new(), model_id: None }
        };
        assert(message_view(ConversationItem::Assistant(message)) == Some(final_message(start)))
            by {
            assert(call_views(message.tool_calls@) =~= final_message(start).tool_calls);
        }
        let mut items: Vec<ConversationItem> = Vec::new();
        items.push(ConversationItem::Assistant(message));
        let response = ConversationResponse {
            items,
            stop_reason: stop,
            usage: self.usage,
            cost_usd_ticks: None,
            message_chunks_emitted: self.chunks_at.len() as u64,
            stop_message: None,
            message_id: None,
            raw_stop_reason: None,
            stop_sequence: None,
        };
        let timing = StreamTiming {
            started_at: self.started_at,
            chunks_at: copy_times(&self.chunks_at),
            ended_at: now,
        };
        self.finished = true;
        SamplingEvent::Completed { request_id: self.request_id.copy(), response, timing }
    }

    /// Takes the next input and tells what follows from it. Once a terminal event has been told,
    /// nothing more is.
    pub fn step(&mut self, input: StreamInput, now: u64) -> (events: Vec<SamplingEvent>)
        ensures
            final(self)@ == after_input(old(self)@, input, now),
            event_views(events@) == input_events(old(self)@, input, now),
    {
        let mut events: Vec<SamplingEvent> = Vec::new();
        assert(event_views(events@) =~= Seq::empty());
        if self.finished {
            return events;
        }
        match input {
            StreamInput::Event(GeminiStreamEvent::Chunk(chunk)) => {
                return self.chunk(&chunk, now);
            },
            StreamInput::Error(error) => {
                let event = SamplingEvent::Failed { request_id: self.request_id.copy(), error };
                events.push(event);
                self.finished = true;
                assert(event_views(events@) =~= seq![event@]);
            },
            StreamInput::Silence => {
                let ghost start = self@;
                self.fail_idle(&mut events);
                assert(event_views(events@) =~= seq![idle_failure(start)]);
            },
            StreamInput::End => {
                let event = self.complete(now);
                events.push(event);
                assert(event_views(events@) =~= seq![event@]);
            },
        }
        events
    }

    /// Whether the terminal event has been told.
    pub fn is_finished(&self) -> (r: bool)
        ensures
            r == self@.finished,
    {
        self.finished
    }
}

fn copy_calls(calls: &Vec<ToolCall>) -> (r: Vec<ToolCall>)
    ensures
        call_views(r@) == call_views(calls@),
{
    let mut r: Vec<ToolCall> = Vec::new();
    let mut i: usize = 0;
    while i < calls.len()
        invariant
            i <= calls@.len(),
            r@.len() == i,
            forall|k: int| 0 <= k < i ==> (#[trigger] r@[k])@ == calls@[k]@,
        decreases calls@.len() - i,
    {
        r.push(
            ToolCall {
                id: calls[i].id.clone(),
                name: calls[i].name.clone(),
                arguments: calls[i].arguments.clone(),
            },
        );
        i = i + 1;
    }
    assert(call_views(r@) =~= call_views(calls@));
    r
}

fn copy_times(times: &Vec<u64>) -> (r: Vec<u64>)
    ensures
        r@ == times@,
{
    let mut r: Vec<u64> = Vec::new();
    let mut i: usize = 0;
    while i < times.len()
        invariant
            i <= times@.len(),
            r@ == times@.take(i as int),
        decreases times@.len() - i,
    {
        r.push(times[i]);
        i = i + 1;
        assert(times@.take(i as int) =~= times@.take(i - 1).push(times@[i - 1]));
    }
    assert(times@.take(times@.len() as int) =~= times@);
    r
}

/// The state of a stream that has just started.
pub open spec fn started(
    id: Seq<char>,
    idle_secs: u64,
    idle_nanos: u32,
    now: u64,
) -> StreamView {
    StreamView {
        id,
        idle_secs,
        idle_nanos,
        started_at: now,
        chunks_at: Seq::empty(),
        model: None,
        usage: None,
        finish_reason: None,
        content: Seq::empty(),
        tool_calls: Seq::empty(),
        last_content_at: now,
        saw_candidate: false,
        finished: false,
    }
}

/// The events that open a stream.
pub open spec fn opening_events(
    id: Seq<char>,
    has_metadata: bool,
    timestamp_ms: i64,
) -> Seq<EventView> {
    let start = EventView::StreamStarted { id, timestamp_ms };
    if has_metadata {
        seq![start, EventView::ModelMetadata { id }]
    } else {
        seq![start]
    }
}

/// Opens a stream. Each input is then handed to [`GeminiStream::step`]; exactly one terminal
/// event comes in the end. The idle timeout covers both a silent transport and chunks without
/// content. `now` is in nanoseconds of a monotonic clock, `timestamp_ms` is the wall clock.
pub fn stream_gemini(
    request_id: RequestId,
    has_metadata: bool,
    idle_secs: u64,
    idle_nanos: u32,
    now: u64,
    timestamp_ms: i64,
) -> (r: (GeminiStream, Vec<SamplingEvent>))
    ensures
        r.0@ == started(request_id@, idle_secs, idle_nanos, now),
        event_views(r.1@) == opening_events(request_id@, has_metadata, timestamp_ms),
{
    let mut events: Vec<SamplingEvent> = Vec::new();
    events.push(SamplingEvent::StreamStarted { request_id: request_id.copy(), timestamp_ms });
    if has_metadata {
        events.push(SamplingEvent::ModelMetadata { request_id: request_id.copy() });
    }
    assert(event_views(events@) =~= opening_events(request_id@, has_metadata, timestamp_ms));
    let stream = GeminiStream {
        request_id,
        idle_secs,
        idle_nanos,
        started_at: now,
        chunks_at: Vec::new(),
        model: None,
        usage: None,
        finish_reason: None,
        content: String::new(),
        tool_calls: Vec::new(),
        last_content_at: now,
        saw_candidate: false,
        finished: false,
    };
    assert(call_views(stream.tool_calls@) =~= Seq::empty());
    (stream, events)
}

pub(crate) proof fn lemma_nothing_absorbed(s: StreamView, now: u64)
    ensures
        absorbed(s, Seq::empty(), now) == s,
        token_events(s, texts_in(Seq::empty())) == Seq::<EventView>::empty(),
        parts_in(Seq::empty()) == Seq::<JsonView>::empty(),
{
    let none = absorbed(s, Seq::empty(), now);
    assert(none.content =~= s.content);
    assert(none.chunks_at =~= s.chunks_at);
    assert(none.tool_calls =~= s.tool_calls);
    assert(token_events(s, texts_in(Seq::empty())) =~= Seq::empty());
}

} // verus!
