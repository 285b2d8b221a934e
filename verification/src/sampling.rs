//! Events, errors and results that a sampling run hands to its listener.
use crate::conversation::{ConversationItem, ToolCall};
use crate::text::opt_text;
use vstd::prelude::*;

verus! {

/// Names one request.
#[derive(Debug)]
pub struct RequestId {
    pub id: String,
}

impl RequestId {
    /// The id with the text `id`.
    pub fn new(id: &str) -> (r: Self)
        ensures
            r@ == id@,
    {
        RequestId { id: id.to_owned() }
    }

    /// The same id again.
    pub fn copy(&self) -> (r: Self)
        ensures
            r == *self,
    {
        RequestId { id: self.id.clone() }
    }
}

impl View for RequestId {
    type V = Seq<char>;

    open spec fn view(&self) -> Seq<char> {
        self.id@
    }
}

/// Why the model stopped.
#[derive(Debug, Clone, Copy, PartialEq, Eq, Structural)]
pub enum StopReason {
    Stop,
    Length,
    ContentFilter,
    ToolCalls,
}

/// Token counts of one response.
#[derive(Debug, Clone, Copy, PartialEq, Eq, Structural)]
pub struct TokenUsage {
    pub prompt_tokens: u32,
    pub completion_tokens: u32,
    pub total_tokens: u32,
    pub reasoning_tokens: u32,
    pub cached_prompt_tokens: u32,
    pub cache_creation_prompt_tokens: u32,
}

/// Why a request failed.
#[derive(Debug)]
pub enum SamplingError {
    /// Nothing came for `elapsed_secs`.
    IdleTimeout { elapsed_secs: u64 },
    /// The provider answered with an error.
    Api {
        status: u16,
        message: String,
        retry_after_secs: Option<u64>,
        should_retry: Option<bool>,
        error_code: Option<String>,
    },
    /// The transport failed.
    Transport { message: String },
}

/// What a [`SamplingError`] says.
pub enum ErrorView {
    IdleTimeout { elapsed_secs: u64 },
    Api {
        status: u16,
        message: Seq<char>,
        retry_after_secs: Option<u64>,
        should_retry: Option<bool>,
        error_code: Option<Seq<char>>,
    },
    Transport { message: Seq<char> },
}

impl View for SamplingError {
    type V = ErrorView;

    open spec fn view(&self) -> ErrorView {
        match *self {
            SamplingError::IdleTimeout { elapsed_secs } => ErrorView::IdleTimeout { elapsed_secs },
            SamplingError::Api { status, message, retry_after_secs, should_retry, error_code } =>
                ErrorView::Api {
                status,
                message: message@,
                retry_after_secs,
                should_retry,
                error_code: opt_text(error_code),
            },
            SamplingError::Transport { message } => ErrorView::Transport { message: message@ },
        }
    }
}

/// What a tool call says.
pub struct ToolCallView {
    pub id: Seq<char>,
    pub name: Seq<char>,
    pub arguments: Seq<char>,
}

impl View for ToolCall {
    type V = ToolCallView;

    open spec fn view(&self) -> ToolCallView {
        ToolCallView { id: self.id@, name: self.name@, arguments: self.arguments@ }
    }
}

/// What the calls of a list say.
pub open spec fn call_views(calls: Seq<ToolCall>) -> Seq<ToolCallView> {
    Seq::new(calls.len(), |i: int| calls[i]@)
}

/// What a conversation item of a response says: the assistant message, if it is one.
pub struct MessageView {
    pub content: Seq<char>,
    pub tool_calls: Seq<ToolCallView>,
    pub model_id: Option<Seq<char>>,
}

pub open spec fn message_view(item: ConversationItem) -> Option<MessageView> {
    match item {
        ConversationItem::Assistant(a) => Some(
            MessageView {
                content: a.content@,
                tool_calls: call_views(a.tool_calls@),
                model_id: opt_text(a.model_id),
            },
        ),
        _ => None,
    }
}

/// The response put together from a stream.
pub struct ConversationResponse {
    pub items: Vec<ConversationItem>,
    pub stop_reason: Option<StopReason>,
    pub usage: Option<TokenUsage>,
    pub cost_usd_ticks: Option<u64>,
    pub message_chunks_emitted: u64,
    pub stop_message: Option<String>,
    pub message_id: Option<String>,
    pub raw_stop_reason: Option<String>,
    pub stop_sequence: Option<String>,
}

/// What a response of one assistant message says.
pub struct ResponseView {
    pub message: Option<MessageView>,
    pub stop_reason: Option<StopReason>,
    pub usage: Option<TokenUsage>,
    pub message_chunks_emitted: u64,
}

/// Whether a response holds just one item and none of what Gemini does not report.
pub open spec fn plain_response(r: ConversationResponse) -> bool {
    &&& r.items@.len() == 1
    &&& r.cost_usd_ticks is None
    &&& r.stop_message is None
    &&& r.message_id is None
    &&& r.raw_stop_reason is None
    &&& r.stop_sequence is None
}

impl View for ConversationResponse {
    type V = ResponseView;

    open spec fn view(&self) -> ResponseView {
        ResponseView {
            message: message_view(self.items@[0]),
            stop_reason: self.stop_reason,
            usage: self.usage,
            message_chunks_emitted: self.message_chunks_emitted,
        }
    }
}

/// When a stream started, when each of its text chunks came and when it ended, in nanoseconds of
/// a monotonic clock.
pub struct StreamTiming {
    pub started_at: u64,
    pub chunks_at: Vec<u64>,
    pub ended_at: u64,
}

/// What the listener of a stream is told.
pub enum SamplingEvent {
    StreamStarted { request_id: RequestId, timestamp_ms: i64 },
    /// The metadata that came with the response headers is known.
    ModelMetadata { request_id: RequestId },
    FirstToken { request_id: RequestId },
    /// A piece of the answer's text.
    ChannelToken { request_id: RequestId, text: String, chunk_index: u64 },
    Failed { request_id: RequestId, error: SamplingError },
    Completed { request_id: RequestId, response: ConversationResponse, timing: StreamTiming },
}

/// What an event says.
pub enum EventView {
    StreamStarted { id: Seq<char>, timestamp_ms: i64 },
    ModelMetadata { id: Seq<char> },
    FirstToken { id: Seq<char> },
    ChannelToken { id: Seq<char>, text: Seq<char>, chunk_index: nat },
    Failed { id: Seq<char>, error: ErrorView },
    Completed {
        id: Seq<char>,
        response: ResponseView,
        plain: bool,
        started_at: u64,
        chunks_at: Seq<u64>,
        ended_at: u64,
    },
}

impl View for SamplingEvent {
    type V = EventView;

    open spec fn view(&self) -> EventView {
        match *self {
            SamplingEvent::StreamStarted { request_id, timestamp_ms } => EventView::StreamStarted {
                id: request_id@,
                timestamp_ms,
            },
            SamplingEvent::ModelMetadata { request_id } => EventView::ModelMetadata {
                id: request_id@,
            },
            SamplingEvent::FirstToken { request_id } => EventView::FirstToken { id: request_id@ },
            SamplingEvent::ChannelToken { request_id, text, chunk_index } =>
                EventView::ChannelToken {
                id: request_id@,
                text: text@,
                chunk_index: chunk_index as nat,
            },
            SamplingEvent::Failed { request_id, error } => EventView::Failed {
                id: request_id@,
                error: error@,
            },
            SamplingEvent::Completed { request_id, response, timing } => EventView::Completed {
                id: request_id@,
                response: response@,
                plain: plain_response(response),
                started_at: timing.started_at,
                chunks_at: timing.chunks_at@,
                ended_at: timing.ended_at,
            },
        }
    }
}

/// What the events of a list say.
pub open spec fn event_views(events: Seq<SamplingEvent>) -> Seq<EventView> {
    Seq::new(events.len(), |i: int| events[i]@)
}

/// Whether an event ends its request.
pub open spec fn is_terminal(event: EventView) -> bool {
    event is Failed || event is Completed
}

} // verus!
