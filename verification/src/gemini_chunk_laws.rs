//! What one chunk of a Gemini stream gives, said of its JSON.
use crate::conversation::{ConversationItem, ToolCall};
use crate::gemini::{
    absorbed, after_chunk, call_id, calls_in, candidates_of, chunk_events, completion, concatenated,
    error_of, finish_in, has_content, input_events, lemma_next_part, lemma_nothing_absorbed,
    lemma_one_part, opening_events, parts_in, parts_of, started, texts_in, token_events, usage_of,
    StreamInput, StreamView,
};
use crate::json::{json_text, one_per_key, JsonNumber, JsonView};
use crate::sampling::{
    event_views, is_terminal, ConversationResponse, ErrorView, EventView, SamplingError,
    SamplingEvent, StopReason, ToolCallView,
};
use crate::text::decimal_digits;
use vstd::prelude::*;

verus! {

proof fn lemma_last_finish(candidates: Seq<JsonView>, i: int)
    requires
        0 <= i < candidates.len(),
        candidates[i].field("finishReason"@) is Some,
        candidates[i].field("finishReason"@)->0 is Text,
        forall|j: int|
            i < j < candidates.len() ==> !((#[trigger] candidates[j]).field(
                "finishReason"@,
            ) is Some && candidates[j].field("finishReason"@)->0 is Text),
    ensures
        finish_in(candidates) is Some,
        finish_in(candidates) == finish_in(seq![candidates[i]]),
    decreases candidates.len(),
{
    let front = candidates.drop_last();
    let one = seq![candidates[i]];
    assert(one.last() == candidates[i]);
    if i < front.len() {
        let last = candidates[candidates.len() - 1];
        assert(!(last.field("finishReason"@) is Some && last.field("finishReason"@)->0 is Text));
        assert forall|j: int| i < j < front.len() implies !((#[trigger] front[j]).field(
            "finishReason"@,
        ) is Some && front[j].field("finishReason"@)->0 is Text) by {
            assert(front[j] == candidates[j]);
        }
        lemma_last_finish(front, i);
    }
}

/// The finish reason of a chunk is that of its last candidate that gives one, whatever else the
/// candidate holds: a limit on tokens and a content filter are told apart, and any other reason is
/// an ordinary stop. It counts as content.
pub proof fn the_last_finish_reason_holds(
    s: StreamView,
    chunk: JsonView,
    now: u64,
    candidates: Seq<JsonView>,
    i: int,
    reason: Seq<char>,
)
    requires
        !(chunk.field("error"@) is Some && chunk.field("error"@)->0 is Object),
        chunk.field("candidates"@) == Some(JsonView::Array(candidates)),
        0 <= i < candidates.len(),
        candidates[i].field("finishReason"@) == Some(JsonView::Text(reason)),
        forall|j: int|
            i < j < candidates.len() ==> !((#[trigger] candidates[j]).field(
                "finishReason"@,
            ) is Some && candidates[j].field("finishReason"@)->0 is Text),
    ensures
        reason == "MAX_TOKENS"@ ==> after_chunk(s, chunk, now).finish_reason == Some(
            StopReason::Length,
        ),
        reason == "SAFETY"@ ==> after_chunk(s, chunk, now).finish_reason == Some(
            StopReason::ContentFilter,
        ),
        reason != "MAX_TOKENS"@ && reason != "SAFETY"@ ==> after_chunk(s, chunk, now).finish_reason
            == Some(StopReason::Stop),
        !after_chunk(s, chunk, now).finished,
        after_chunk(s, chunk, now).last_content_at == now,
{
    reveal_strlit("MAX_TOKENS");
    reveal_strlit("SAFETY");
    assert("MAX_TOKENS"@.len() != "SAFETY"@.len());
    lemma_last_finish(candidates, i);
    assert(seq![candidates[i]].last() == candidates[i]);
}

proof fn lemma_no_finish(candidates: Seq<JsonView>)
    requires
        forall|j: int|
            0 <= j < candidates.len() ==> !((#[trigger] candidates[j]).field(
                "finishReason"@,
            ) is Some && candidates[j].field("finishReason"@)->0 is Text),
    ensures
        finish_in(candidates) is None,
    decreases candidates.len(),
{
    if candidates.len() > 0 {
        let front = candidates.drop_last();
        assert forall|j: int| 0 <= j < front.len() implies !((#[trigger] front[j]).field(
            "finishReason"@,
        ) is Some && front[j].field("finishReason"@)->0 is Text) by {
            assert(front[j] == candidates[j]);
        }
        assert(candidates[candidates.len() - 1] == candidates.last());
        lemma_no_finish(front);
    }
}

/// A chunk in which no candidate gives a finish reason leaves the one told before.
pub proof fn a_finish_reason_stays_until_another_comes(
    s: StreamView,
    chunk: JsonView,
    now: u64,
    candidates: Seq<JsonView>,
)
    requires
        !(chunk.field("error"@) is Some && chunk.field("error"@)->0 is Object),
        chunk.field("candidates"@) == Some(JsonView::Array(candidates)),
        forall|j: int|
            0 <= j < candidates.len() ==> !((#[trigger] candidates[j]).field(
                "finishReason"@,
            ) is Some && candidates[j].field("finishReason"@)->0 is Text),
    ensures
        after_chunk(s, chunk, now).finish_reason == s.finish_reason,
{
    lemma_no_finish(candidates);
}

proof fn lemma_absorb_concat(s: StreamView, a: Seq<JsonView>, b: Seq<JsonView>, now: u64)
    ensures
        absorbed(absorbed(s, a, now), b, now) == absorbed(s, a + b, now),
        token_events(s, texts_in(a)) + token_events(absorbed(s, a, now), texts_in(b))
            == token_events(s, texts_in(a + b)),
    decreases b.len(),
{
    let mid = absorbed(s, a, now);
    if b.len() == 0 {
        assert(b =~= Seq::empty());
        assert(a + b =~= a);
        lemma_nothing_absorbed(mid, now);
        assert(token_events(s, texts_in(a)) + Seq::<EventView>::empty() =~= token_events(
            s,
            texts_in(a),
        ));
    } else {
        let front = b.drop_last();
        let part = b.last();
        lemma_absorb_concat(s, a, front, now);
        lemma_next_part(mid, front, part, now);
        lemma_next_part(s, a + front, part, now);
        assert(front.push(part) =~= b);
        assert((a + front).push(part) =~= a + b);
        let last = token_events(absorbed(s, a + front, now), texts_in(seq![part]));
        assert(token_events(s, texts_in(a)) + (token_events(mid, texts_in(front)) + last)
            =~= token_events(s, texts_in(a)) + token_events(mid, texts_in(front)) + last);
    }
}

proof fn lemma_absorb_depends(s: StreamView, t: StreamView, parts: Seq<JsonView>, now: u64)
    requires
        s.id == t.id,
        s.content == t.content,
        s.tool_calls == t.tool_calls,
        s.chunks_at == t.chunks_at,
    ensures
        absorbed(s, parts, now).content == absorbed(t, parts, now).content,
        absorbed(s, parts, now).tool_calls == absorbed(t, parts, now).tool_calls,
        absorbed(s, parts, now).chunks_at == absorbed(t, parts, now).chunks_at,
        token_events(s, texts_in(parts)) == token_events(t, texts_in(parts)),
{
    assert(token_events(s, texts_in(parts)) =~= token_events(t, texts_in(parts)));
}

/// The candidates of a chunk are taken in one after the other: a chunk gives what its candidates
/// but the last give, followed by what the last one gives.
pub proof fn candidates_are_taken_in_order(
    s: StreamView,
    whole: JsonView,
    first: JsonView,
    last: JsonView,
    now: u64,
    candidates: Seq<JsonView>,
    candidate: JsonView,
)
    requires
        !(whole.field("error"@) is Some && whole.field("error"@)->0 is Object),
        !(first.field("error"@) is Some && first.field("error"@)->0 is Object),
        !(last.field("error"@) is Some && last.field("error"@)->0 is Object),
        whole.field("candidates"@) == Some(JsonView::Array(candidates.push(candidate))),
        first.field("candidates"@) == Some(JsonView::Array(candidates)),
        last.field("candidates"@) == Some(JsonView::Array(seq![candidate])),
    ensures
        ({
            let once = after_chunk(s, whole, now);
            let twice = after_chunk(after_chunk(s, first, now), last, now);
            &&& once.content == twice.content
            &&& once.tool_calls == twice.tool_calls
            &&& once.chunks_at == twice.chunks_at
            &&& once.saw_candidate == twice.saw_candidate
            &&& once.finish_reason == twice.finish_reason
        }),
        now <= s.last_content_at ==> chunk_events(s, whole, now) == chunk_events(s, first, now)
            + chunk_events(after_chunk(s, first, now), last, now),
{
    let all = candidates.push(candidate);
    let a = parts_in(candidates);
    let b = parts_of(candidate);
    let one = seq![candidate];
    assert(all.drop_last() =~= candidates);
    assert(one.drop_last() =~= Seq::empty());
    assert(parts_in(one.drop_last()) =~= Seq::empty());
    assert(parts_in(one) =~= b);
    assert(parts_in(all) == a + b);
    assert(one.last() == candidate);
    assert(finish_in(one.drop_last()) is None);
    let mid = after_chunk(s, first, now);
    lemma_absorb_concat(s, a, b, now);
    lemma_absorb_depends(absorbed(s, a, now), mid, b, now);
    if now <= s.last_content_at {
        lemma_events_are_tokens(s, whole, now);
        lemma_events_are_tokens(s, first, now);
        lemma_events_are_tokens(mid, last, now);
    }
}

proof fn lemma_events_are_tokens(s: StreamView, chunk: JsonView, now: u64)
    requires
        error_of(chunk) is None,
        now <= s.last_content_at,
    ensures
        chunk_events(s, chunk, now) == token_events(
            s,
            texts_in(parts_in(candidates_of(chunk))),
        ),
{
    if !has_content(chunk) {
        assert(token_events(s, texts_in(parts_in(candidates_of(chunk)))) =~= Seq::empty());
    }
}

/// The parts of a candidate are taken in one after the other: a chunk gives what its parts but the
/// last give, followed by what the last one gives.
pub proof fn parts_are_taken_in_order(
    s: StreamView,
    whole: JsonView,
    first: JsonView,
    last: JsonView,
    now: u64,
    candidates: (JsonView, JsonView, JsonView),
    contents: (JsonView, JsonView, JsonView),
    parts: Seq<JsonView>,
    part: JsonView,
)
    requires
        !(whole.field("error"@) is Some && whole.field("error"@)->0 is Object),
        !(first.field("error"@) is Some && first.field("error"@)->0 is Object),
        !(last.field("error"@) is Some && last.field("error"@)->0 is Object),
        whole.field("candidates"@) == Some(JsonView::Array(seq![candidates.0])),
        first.field("candidates"@) == Some(JsonView::Array(seq![candidates.1])),
        last.field("candidates"@) == Some(JsonView::Array(seq![candidates.2])),
        candidates.0.field("content"@) == Some(contents.0),
        candidates.1.field("content"@) == Some(contents.1),
        candidates.2.field("content"@) == Some(contents.2),
        contents.0.field("parts"@) == Some(JsonView::Array(parts.push(part))),
        contents.1.field("parts"@) == Some(JsonView::Array(parts)),
        contents.2.field("parts"@) == Some(JsonView::Array(seq![part])),
    ensures
        ({
            let once = after_chunk(s, whole, now);
            let twice = after_chunk(after_chunk(s, first, now), last, now);
            &&& once.content == twice.content
            &&& once.tool_calls == twice.tool_calls
            &&& once.chunks_at == twice.chunks_at
            &&& once.saw_candidate == twice.saw_candidate
        }),
        now <= s.last_content_at ==> chunk_events(s, whole, now) == chunk_events(s, first, now)
            + chunk_events(after_chunk(s, first, now), last, now),
{
    lemma_one_candidate(candidates.0);
    lemma_one_candidate(candidates.1);
    lemma_one_candidate(candidates.2);
    let mid = after_chunk(s, first, now);
    assert(parts.push(part) =~= parts + seq![part]);
    lemma_absorb_concat(s, parts, seq![part], now);
    lemma_absorb_depends(absorbed(s, parts, now), mid, seq![part], now);
    if now <= s.last_content_at {
        lemma_events_are_tokens(s, whole, now);
        lemma_events_are_tokens(s, first, now);
        lemma_events_are_tokens(mid, last, now);
    }
}

proof fn lemma_one_candidate(candidate: JsonView)
    ensures
        parts_in(seq![candidate]) == parts_of(candidate),
{
    let one = seq![candidate];
    assert(one.drop_last() =~= Seq::empty());
    assert(parts_in(one.drop_last()) =~= Seq::empty());
    assert(one.last() == candidate);
    assert(parts_in(one) =~= parts_of(candidate));
}

/// A part with a text that is not empty adds the text to the content and tells it as the next
/// token, after an announcement if it is the first. A part without one adds no text.
pub proof fn a_part_gives_its_text(
    s: StreamView,
    chunk: JsonView,
    now: u64,
    candidate: JsonView,
    content: JsonView,
    part: JsonView,
)
    requires
        !(chunk.field("error"@) is Some && chunk.field("error"@)->0 is Object),
        chunk.field("candidates"@) == Some(JsonView::Array(seq![candidate])),
        candidate.field("content"@) == Some(content),
        content.field("parts"@) == Some(JsonView::Array(seq![part])),
    ensures
        match part.field("text"@) {
            Some(JsonView::Text(t)) => if t.len() > 0 {
                let token = EventView::ChannelToken {
                    id: s.id,
                    text: t,
                    chunk_index: (s.chunks_at.len() + 1) as nat,
                };
                &&& after_chunk(s, chunk, now).content == s.content + t
                &&& after_chunk(s, chunk, now).chunks_at == s.chunks_at.push(now)
                &&& after_chunk(s, chunk, now).last_content_at == now
                &&& s.chunks_at.len() == 0 ==> chunk_events(s, chunk, now) == seq![
                    EventView::FirstToken { id: s.id },
                    token,
                ]
                &&& s.chunks_at.len() > 0 ==> chunk_events(s, chunk, now) == seq![token]
            } else {
                &&& after_chunk(s, chunk, now).content == s.content
                &&& after_chunk(s, chunk, now).chunks_at == s.chunks_at
            },
            _ => {
                &&& after_chunk(s, chunk, now).content == s.content
                &&& after_chunk(s, chunk, now).chunks_at == s.chunks_at
            },
        },
        after_chunk(s, chunk, now).saw_candidate,
{
    lemma_one_candidate(candidate);
    lemma_one_part(part);
    let texts = texts_in(seq![part]);
    match part.field("text"@) {
        Some(JsonView::Text(t)) => {
            if t.len() > 0 {
                let one = seq![t];
                assert(one.drop_last() =~= Seq::empty());
                assert(concatenated(one.drop_last()) =~= Seq::empty());
                assert(concatenated(one) =~= t);
                assert(after_chunk(s, chunk, now).content =~= s.content + t);
                assert(after_chunk(s, chunk, now).chunks_at =~= s.chunks_at.push(now));
                let token = EventView::ChannelToken {
                    id: s.id,
                    text: t,
                    chunk_index: (s.chunks_at.len() + 1) as nat,
                };
                if s.chunks_at.len() == 0 {
                    assert(token_events(s, texts) =~= seq![
                        EventView::FirstToken { id: s.id },
                        token,
                    ]);
                } else {
                    assert(token_events(s, texts) =~= seq![token]);
                }
            } else {
                assert(texts =~= Seq::empty());
            }
        },
        _ => {
            assert(texts =~= Seq::empty());
        },
    }
    if texts.len() == 0 {
        assert(after_chunk(s, chunk, now).content =~= s.content);
        assert(after_chunk(s, chunk, now).chunks_at =~= s.chunks_at);
    }
}

/// A part with a function call adds the call: under the number of calls before it as its id, with
/// its name, empty if it has none, and its arguments as JSON text, those of an empty object if it
/// has none. A part without one adds no call.
pub proof fn a_part_gives_its_call(
    s: StreamView,
    chunk: JsonView,
    now: u64,
    candidate: JsonView,
    content: JsonView,
    part: JsonView,
)
    requires
        !(chunk.field("error"@) is Some && chunk.field("error"@)->0 is Object),
        chunk.field("candidates"@) == Some(JsonView::Array(seq![candidate])),
        candidate.field("content"@) == Some(content),
        content.field("parts"@) == Some(JsonView::Array(seq![part])),
    ensures
        match part.field("functionCall"@) {
            Some(JsonView::Object(fields)) => {
                let call = JsonView::Object(fields);
                &&& after_chunk(s, chunk, now).tool_calls.len() == s.tool_calls.len() + 1
                &&& after_chunk(s, chunk, now).tool_calls.drop_last() == s.tool_calls
                &&& after_chunk(s, chunk, now).tool_calls.last() == ToolCallView {
                    id: "gemini-call-"@ + decimal_digits(s.tool_calls.len()),
                    name: match call.field("name"@) {
                        Some(JsonView::Text(name)) => name,
                        _ => Seq::empty(),
                    },
                    arguments: match call.field("args"@) {
                        Some(args) => json_text(one_per_key(args)),
                        None => json_text(one_per_key(JsonView::Object(Seq::empty()))),
                    },
                }
                &&& after_chunk(s, chunk, now).last_content_at == now
            },
            _ => after_chunk(s, chunk, now).tool_calls == s.tool_calls,
        },
{
    lemma_one_candidate(candidate);
    lemma_one_part(part);
    match part.field("functionCall"@) {
        Some(JsonView::Object(fields)) => {
            assert(after_chunk(s, chunk, now).tool_calls.drop_last() =~= s.tool_calls);
        },
        _ => {
            assert(after_chunk(s, chunk, now).tool_calls =~= s.tool_calls);
        },
    }
}

/// A candidate without a list of parts, and a chunk without a list of candidates, give no text and
/// no call.
pub proof fn without_parts_nothing_is_taken_in(
    s: StreamView,
    chunk: JsonView,
    now: u64,
    candidate: JsonView,
)
    requires
        ({
            ||| !(chunk.field("candidates"@) is Some && chunk.field("candidates"@)->0 is Array)
            ||| chunk.field("candidates"@) == Some(JsonView::Array(Seq::<JsonView>::empty()))
            ||| chunk.field("candidates"@) == Some(JsonView::Array(seq![candidate]))
                && candidate.field("content"@) is None
            ||| chunk.field("candidates"@) == Some(JsonView::Array(seq![candidate]))
                && candidate.field("content"@) is Some && !(candidate.field(
                "content"@,
            )->0.field("parts"@) is Some && candidate.field("content"@)->0.field(
                "parts"@,
            )->0 is Array)
        }),
    ensures
        after_chunk(s, chunk, now).content == s.content,
        after_chunk(s, chunk, now).tool_calls == s.tool_calls,
        after_chunk(s, chunk, now).chunks_at == s.chunks_at,
        after_chunk(s, chunk, now).saw_candidate == s.saw_candidate,
{
    lemma_one_candidate(candidate);
    assert(parts_in(Seq::empty()) =~= Seq::empty());
    let parts = parts_in(candidates_of(chunk));
    assert(parts =~= Seq::empty());
    lemma_nothing_absorbed(s, now);
}

/// A chunk fails the stream if and only if it holds an error object, and the failure tells the
/// object's code as the status, where its low sixteen bits are one, and its message.
pub proof fn an_error_object_tells_its_failure(s: StreamView, chunk: JsonView, now: u64)
    ensures
        error_of(chunk) is Some == (chunk.field("error"@) is Some && chunk.field(
            "error"@,
        )->0 is Object),
        error_of(chunk) is Some ==> {
            let err = chunk.field("error"@)->0;
            let status = match err.field("code"@) {
                Some(JsonView::Number(JsonNumber::PosInt(c))) => if 100 <= c % 65536 <= 999 {
                    (c % 65536) as u16
                } else {
                    500
                },
                _ => 500,
            };
            let message = match err.field("message"@) {
                Some(JsonView::Text(m)) => m,
                _ => "unknown Gemini stream error"@,
            };
            &&& chunk_events(s, chunk, now) == seq![
                EventView::Failed {
                    id: s.id,
                    error: ErrorView::Api {
                        status,
                        message,
                        retry_after_secs: None,
                        should_retry: None,
                        error_code: None,
                    },
                },
            ]
            &&& after_chunk(s, chunk, now).finished
            &&& after_chunk(s, chunk, now).content == s.content
            &&& after_chunk(s, chunk, now).tool_calls == s.tool_calls
        },
{
}

/// The token counts of a chunk are the low thirty-two bits of those it reports, nought for those
/// it does not; a chunk without a report leaves those told before.
pub proof fn a_usage_report_is_taken_as_it_is(s: StreamView, chunk: JsonView, now: u64)
    requires
        !(chunk.field("error"@) is Some && chunk.field("error"@)->0 is Object),
    ensures
        chunk.field("usageMetadata"@) is None ==> after_chunk(s, chunk, now).usage == s.usage,
        chunk.field("usageMetadata"@) is Some ==> {
            let report = chunk.field("usageMetadata"@)->0;
            let usage = after_chunk(s, chunk, now).usage;
            &&& usage is Some
            &&& usage->0.prompt_tokens == match report.field("promptTokenCount"@) {
                Some(JsonView::Number(JsonNumber::PosInt(n))) => n as int % 0x1_0000_0000,
                _ => 0,
            }
            &&& usage->0.completion_tokens == match report.field("candidatesTokenCount"@) {
                Some(JsonView::Number(JsonNumber::PosInt(n))) => n as int % 0x1_0000_0000,
                _ => 0,
            }
            &&& usage->0.total_tokens == match report.field("totalTokenCount"@) {
                Some(JsonView::Number(JsonNumber::PosInt(n))) => n as int % 0x1_0000_0000,
                _ => 0,
            }
            &&& usage->0.reasoning_tokens == match report.field("thoughtsTokenCount"@) {
                Some(JsonView::Number(JsonNumber::PosInt(n))) => n as int % 0x1_0000_0000,
                _ => 0,
            }
            &&& usage->0.cached_prompt_tokens == match report.field("cachedContentTokenCount"@) {
                Some(JsonView::Number(JsonNumber::PosInt(n))) => n as int % 0x1_0000_0000,
                _ => 0,
            }
            &&& usage->0.cache_creation_prompt_tokens == 0
        },
{
}

/// The model of a stream is the first one told as a text.
pub proof fn the_first_model_told_holds(s: StreamView, chunk: JsonView, now: u64)
    requires
        !(chunk.field("error"@) is Some && chunk.field("error"@)->0 is Object),
    ensures
        s.model is Some ==> after_chunk(s, chunk, now).model == s.model,
        s.model is None ==> after_chunk(s, chunk, now).model == match chunk.field(
            "modelVersion"@,
        ) {
            Some(JsonView::Text(m)) => Some(m),
            _ => None,
        },
{
}

/// A chunk that adds no text and no call and gives no finish reason fails a stream once the idle
/// timeout has passed since the last content, and only then; the failure tells the timeout in
/// seconds.
pub proof fn an_idle_stream_fails(s: StreamView, chunk: JsonView, now: u64)
    requires
        !(chunk.field("error"@) is Some && chunk.field("error"@)->0 is Object),
        !(chunk.field("candidates"@) is Some && chunk.field("candidates"@)->0 is Array),
    ensures
        ({
            let idle = now - s.last_content_at > s.idle_secs * 1_000_000_000 + s.idle_nanos;
            &&& after_chunk(s, chunk, now).finished == idle
            &&& after_chunk(s, chunk, now).last_content_at == s.last_content_at
            &&& idle ==> chunk_events(s, chunk, now) == seq![
                EventView::Failed {
                    id: s.id,
                    error: ErrorView::IdleTimeout { elapsed_secs: s.idle_secs },
                },
            ]
            &&& !idle ==> chunk_events(s, chunk, now) == Seq::<EventView>::empty()
        }),
{
    assert(candidates_of(chunk) =~= Seq::empty());
    assert(parts_in(candidates_of(chunk)) =~= Seq::empty());
}

/// What an input that is no chunk tells: the transport's error, the idle timeout, or the completed
/// response.
pub proof fn other_inputs_tell_their_end(s: StreamView, input: StreamInput, now: u64)
    requires
        !s.finished,
    ensures
        match input {
            StreamInput::Error(error) => input_events(s, input, now) == seq![
                EventView::Failed { id: s.id, error: error@ },
            ],
            StreamInput::Silence => input_events(s, input, now) == seq![
                EventView::Failed {
                    id: s.id,
                    error: ErrorView::IdleTimeout { elapsed_secs: s.idle_secs },
                },
            ],
            StreamInput::End => {
                &&& input_events(s, input, now).len() == 1
                &&& input_events(s, input, now)[0] is Completed
            },
            StreamInput::Event(_) => true,
        },
{
}

/// A completed response holds what was taken in: the content, the calls and the model of a stream
/// that had any part, and an empty message otherwise; the stop reason that the calls or the
/// provider gave; the usage, the number of tokens and the times.
pub proof fn a_completion_holds_what_was_taken_in(s: StreamView, now: u64)
    ensures
        ({
            let event = completion(s, now);
            let any = s.saw_candidate || s.tool_calls.len() > 0;
            &&& event is Completed
            &&& event->Completed_id == s.id
            &&& event->response.message is Some
            &&& any ==> {
                &&& event->response.message->0.content == s.content
                &&& event->response.message->0.tool_calls == s.tool_calls
                &&& event->response.message->0.model_id == s.model
            }
            &&& !any ==> {
                &&& event->response.message->0.content.len() == 0
                &&& event->response.message->0.tool_calls.len() == 0
                &&& event->response.message->0.model_id is None
            }
            &&& s.tool_calls.len() > 0 ==> event->response.stop_reason == Some(
                StopReason::ToolCalls,
            )
            &&& s.tool_calls.len() == 0 ==> event->response.stop_reason == s.finish_reason
            &&& event->response.usage == s.usage
            &&& event->response.message_chunks_emitted == s.chunks_at.len() as u64
            &&& event->plain
            &&& event->started_at == s.started_at
            &&& event->chunks_at == s.chunks_at
            &&& event->ended_at == now
        }),
{
}

/// A stream starts with nothing taken in, and its idle time starts with it; it tells its start and
/// then, if there are any, the metadata.
pub proof fn a_stream_starts_empty(
    id: Seq<char>,
    idle_secs: u64,
    idle_nanos: u32,
    now: u64,
    timestamp_ms: i64,
)
    ensures
        ({
            let s = started(id, idle_secs, idle_nanos, now);
            &&& s.id == id
            &&& s.idle_secs == idle_secs
            &&& s.idle_nanos == idle_nanos
            &&& s.started_at == now
            &&& s.last_content_at == now
            &&& s.content.len() == 0
            &&& s.tool_calls.len() == 0
            &&& s.chunks_at.len() == 0
            &&& s.model is None
            &&& s.usage is None
            &&& s.finish_reason is None
            &&& !s.saw_candidate
            &&& !s.finished
        }),
        opening_events(id, false, timestamp_ms) == seq![
            EventView::StreamStarted { id, timestamp_ms },
        ],
        opening_events(id, true, timestamp_ms) == seq![
            EventView::StreamStarted { id, timestamp_ms },
            EventView::ModelMetadata { id },
        ],
{
}

/// A chunk changes neither whose stream it is nor its timeout nor its start.
pub proof fn a_chunk_keeps_the_settings(s: StreamView, chunk: JsonView, now: u64)
    ensures
        after_chunk(s, chunk, now).id == s.id,
        after_chunk(s, chunk, now).idle_secs == s.idle_secs,
        after_chunk(s, chunk, now).idle_nanos == s.idle_nanos,
        after_chunk(s, chunk, now).started_at == s.started_at,
{
}

/// Events, errors, calls and responses say what they hold.
pub proof fn events_say_what_they_hold(
    event: SamplingEvent,
    events: Seq<SamplingEvent>,
    error: SamplingError,
    call: ToolCall,
    response: ConversationResponse,
)
    ensures
        match event {
            SamplingEvent::StreamStarted { request_id, timestamp_ms } => event@
                == EventView::StreamStarted { id: request_id.id@, timestamp_ms },
            SamplingEvent::ModelMetadata { request_id } => event@ == EventView::ModelMetadata {
                id: request_id.id@,
            },
            SamplingEvent::FirstToken { request_id } => event@ == EventView::FirstToken {
                id: request_id.id@,
            },
            SamplingEvent::ChannelToken { request_id, text, chunk_index } => event@
                == EventView::ChannelToken {
                id: request_id.id@,
                text: text@,
                chunk_index: chunk_index as nat,
            },
            SamplingEvent::Failed { request_id, error } => event@ == EventView::Failed {
                id: request_id.id@,
                error: error@,
            },
            SamplingEvent::Completed { request_id, response, timing } => {
                &&& event@ is Completed
                &&& event@->Completed_id == request_id.id@
                &&& event@->response == response@
                &&& event@->started_at == timing.started_at
                &&& event@->chunks_at == timing.chunks_at@
                &&& event@->ended_at == timing.ended_at
                &&& event@->plain ==> {
                    &&& response.items@.len() == 1
                    &&& response.cost_usd_ticks is None
                    &&& response.stop_message is None
                    &&& response.message_id is None
                    &&& response.raw_stop_reason is None
                    &&& response.stop_sequence is None
                }
            },
        },
        event_views(events).len() == events.len(),
        forall|i: int| 0 <= i < events.len() ==> #[trigger] event_views(events)[i] == events[i]@,
        match error {
            SamplingError::IdleTimeout { elapsed_secs } => error@ == ErrorView::IdleTimeout {
                elapsed_secs,
            },
            SamplingError::Api { status, message, retry_after_secs, should_retry, error_code } => {
                &&& error@ is Api
                &&& error@->status == status
                &&& error@->Api_message == message@
                &&& error@->retry_after_secs == retry_after_secs
                &&& error@->should_retry == should_retry
                &&& error_code is None ==> error@->error_code is None
                &&& error_code is Some ==> error@->error_code == Some(error_code->0@)
            },
            SamplingError::Transport { message } => error@ == ErrorView::Transport {
                message: message@,
            },
        },
        call@.id == call.id@,
        call@.name == call.name@,
        call@.arguments == call.arguments@,
        response@.stop_reason == response.stop_reason,
        response@.usage == response.usage,
        response@.message_chunks_emitted == response.message_chunks_emitted,
        match response.items@[0] {
            ConversationItem::Assistant(a) => {
                &&& response@.message is Some
                &&& response@.message->0.content == a.content@
                &&& a.model_id is None ==> response@.message->0.model_id is None
                &&& a.model_id is Some ==> response@.message->0.model_id == Some(a.model_id->0@)
                &&& response@.message->0.tool_calls.len() == a.tool_calls@.len()
                &&& forall|i: int|
                    0 <= i < a.tool_calls@.len() ==> #[trigger] response@.message->0.tool_calls[i]
                        == a.tool_calls@[i]@
            },
            _ => response@.message is None,
        },
{
}

proof fn lemma_part_in(candidates: Seq<JsonView>, i: int, part: JsonView)
    requires
        0 <= i < candidates.len(),
        parts_of(candidates[i]).contains(part),
    ensures
        parts_in(candidates).contains(part),
    decreases candidates.len(),
{
    let front = candidates.drop_last();
    let whole = parts_in(candidates);
    if i < front.len() {
        lemma_part_in(front, i, part);
        let j = choose|j: int| 0 <= j < parts_in(front).len() && parts_in(front)[j] == part;
        assert(whole[j] == part);
    } else {
        let own = parts_of(candidates[i]);
        let j = choose|j: int| 0 <= j < own.len() && own[j] == part;
        assert(whole[parts_in(front).len() + j] == part);
    }
}

proof fn lemma_something_said(parts: Seq<JsonView>, i: int)
    requires
        0 <= i < parts.len(),
    ensures
        parts[i].field("text"@) is Some && parts[i].field("text"@)->0 is Text && parts[i].field(
            "text"@,
        )->0->Text_0.len() > 0 ==> texts_in(parts).len() > 0,
        parts[i].field("functionCall"@) is Some && parts[i].field("functionCall"@)->0 is Object
            ==> calls_in(parts).len() > 0,
    decreases parts.len(),
{
    if i < parts.len() - 1 {
        lemma_something_said(parts.drop_last(), i);
    }
}

/// A chunk has content as soon as any part of any candidate has a text that is not empty or a
/// function call: it starts the idle time anew, and the stream goes on.
pub proof fn any_text_or_call_is_content(
    s: StreamView,
    chunk: JsonView,
    now: u64,
    candidates: Seq<JsonView>,
    i: int,
    content: JsonView,
    parts: Seq<JsonView>,
    j: int,
)
    requires
        !(chunk.field("error"@) is Some && chunk.field("error"@)->0 is Object),
        chunk.field("candidates"@) == Some(JsonView::Array(candidates)),
        0 <= i < candidates.len(),
        candidates[i].field("content"@) == Some(content),
        content.field("parts"@) == Some(JsonView::Array(parts)),
        0 <= j < parts.len(),
        ({
            let text = parts[j].field("text"@);
            let call = parts[j].field("functionCall"@);
            ||| text is Some && text->0 is Text && text->0->Text_0.len() > 0
            ||| call is Some && call->0 is Object
        }),
    ensures
        after_chunk(s, chunk, now).last_content_at == now,
        !after_chunk(s, chunk, now).finished,
{
    assert(parts_of(candidates[i]) == parts);
    assert(parts.contains(parts[j]));
    lemma_part_in(candidates, i, parts[j]);
    let all = parts_in(candidates);
    let at = choose|at: int| 0 <= at < all.len() && all[at] == parts[j];
    lemma_something_said(all, at);
}

proof fn lemma_nothing_said(parts: Seq<JsonView>)
    requires
        forall|j: int|
            0 <= j < parts.len() ==> {
                let text = (#[trigger] parts[j]).field("text"@);
                let call = parts[j].field("functionCall"@);
                &&& !(text is Some && text->0 is Text && text->0->Text_0.len() > 0)
                &&& !(call is Some && call->0 is Object)
            },
    ensures
        texts_in(parts).len() == 0,
        calls_in(parts).len() == 0,
    decreases parts.len(),
{
    if parts.len() > 0 {
        let front = parts.drop_last();
        assert(parts[parts.len() - 1] == parts.last());
        assert forall|j: int| 0 <= j < front.len() implies {
            let text = (#[trigger] front[j]).field("text"@);
            let call = front[j].field("functionCall"@);
            &&& !(text is Some && text->0 is Text && text->0->Text_0.len() > 0)
            &&& !(call is Some && call->0 is Object)
        } by {
            assert(front[j] == parts[j]);
        }
        lemma_nothing_said(front);
    }
}

/// A chunk of one candidate in which no part has a text or a call and no finish reason is given has
/// no content: the idle time goes on, and once it is over the stream fails.
pub proof fn empty_parts_are_no_content(
    s: StreamView,
    chunk: JsonView,
    now: u64,
    candidate: JsonView,
    content: JsonView,
    parts: Seq<JsonView>,
)
    requires
        !(chunk.field("error"@) is Some && chunk.field("error"@)->0 is Object),
        chunk.field("candidates"@) == Some(JsonView::Array(seq![candidate])),
        !(candidate.field("finishReason"@) is Some && candidate.field("finishReason"@)->0 is Text),
        candidate.field("content"@) == Some(content),
        content.field("parts"@) == Some(JsonView::Array(parts)),
        forall|j: int|
            0 <= j < parts.len() ==> {
                let text = (#[trigger] parts[j]).field("text"@);
                let call = parts[j].field("functionCall"@);
                &&& !(text is Some && text->0 is Text && text->0->Text_0.len() > 0)
                &&& !(call is Some && call->0 is Object)
            },
    ensures
        ({
            let idle = now - s.last_content_at > s.idle_secs * 1_000_000_000 + s.idle_nanos;
            &&& after_chunk(s, chunk, now).last_content_at == s.last_content_at
            &&& after_chunk(s, chunk, now).finished == idle
            &&& after_chunk(s, chunk, now).content == s.content
            &&& after_chunk(s, chunk, now).tool_calls == s.tool_calls
            &&& idle ==> chunk_events(s, chunk, now) == seq![
                EventView::Failed {
                    id: s.id,
                    error: ErrorView::IdleTimeout { elapsed_secs: s.idle_secs },
                },
            ]
            &&& !idle ==> chunk_events(s, chunk, now) == Seq::<EventView>::empty()
        }),
{
    lemma_one_candidate(candidate);
    lemma_nothing_said(parts);
    let one = seq![candidate];
    assert(one[0] == candidate);
    lemma_no_finish(one);
    assert(texts_in(parts) =~= Seq::empty());
    assert(calls_in(parts) =~= Seq::empty());
    assert(concatenated(texts_in(parts)) =~= Seq::empty());
    assert(after_chunk(s, chunk, now).content =~= s.content);
    assert(after_chunk(s, chunk, now).tool_calls =~= s.tool_calls);
}

/// The events that end a request are its failure and its completion.
pub proof fn failure_and_completion_are_terminal(event: EventView)
    ensures
        is_terminal(event) == (event is Failed || event is Completed),
{
}

/// A usage report is read of any chunk that holds one, whatever else it holds, and of no other.
pub proof fn a_usage_report_is_read(chunk: JsonView)
    ensures
        usage_of(chunk) is Some == chunk.field("usageMetadata"@) is Some,
        usage_of(chunk) is Some ==> {
            let report = chunk.field("usageMetadata"@)->0;
            let usage = usage_of(chunk)->0;
            &&& usage.prompt_tokens == match report.field("promptTokenCount"@) {
                Some(JsonView::Number(JsonNumber::PosInt(n))) => n as int % 0x1_0000_0000,
                _ => 0,
            }
            &&& usage.completion_tokens == match report.field("candidatesTokenCount"@) {
                Some(JsonView::Number(JsonNumber::PosInt(n))) => n as int % 0x1_0000_0000,
                _ => 0,
            }
            &&& usage.total_tokens == match report.field("totalTokenCount"@) {
                Some(JsonView::Number(JsonNumber::PosInt(n))) => n as int % 0x1_0000_0000,
                _ => 0,
            }
            &&& usage.reasoning_tokens == match report.field("thoughtsTokenCount"@) {
                Some(JsonView::Number(JsonNumber::PosInt(n))) => n as int % 0x1_0000_0000,
                _ => 0,
            }
            &&& usage.cached_prompt_tokens == match report.field("cachedContentTokenCount"@) {
                Some(JsonView::Number(JsonNumber::PosInt(n))) => n as int % 0x1_0000_0000,
                _ => 0,
            }
            &&& usage.cache_creation_prompt_tokens == 0
        },
{
}

/// A call is told under the number of calls before it, behind a fixed word.
pub proof fn a_call_is_numbered(n: nat)
    ensures
        call_id(n) == "gemini-call-"@ + decimal_digits(n),
{
}

} // verus!
