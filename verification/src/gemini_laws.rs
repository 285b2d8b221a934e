//! What holds of a Gemini stream over its whole life.
use crate::gemini::{
    after_chunk, after_input, call_id, calls_in, candidates_of, chunk_events, completion,
    concatenated, error_of, final_message, final_stop_reason, finish_in, has_content, idle_failure,
    input_events, is_idle, opening_events, parts_in, started, texts_in, token_events, usage_of,
    GeminiStreamEvent, StreamInput, StreamView,
};
use crate::json::JsonView;
use crate::sampling::{is_terminal, EventView, StopReason};
use crate::text::decimal_digits;
use vstd::prelude::*;

verus! {

/// The state after all `inputs`, each with the time at which it came.
pub open spec fn after_inputs(s: StreamView, inputs: Seq<(StreamInput, u64)>) -> StreamView
    decreases inputs.len(),
{
    if inputs.len() == 0 {
        s
    } else {
        let last = inputs.last();
        after_input(after_inputs(s, inputs.drop_last()), last.0, last.1)
    }
}

/// All that a stream tells on `inputs`, in order.
pub open spec fn told(s: StreamView, inputs: Seq<(StreamInput, u64)>) -> Seq<EventView>
    decreases inputs.len(),
{
    if inputs.len() == 0 {
        Seq::empty()
    } else {
        let last = inputs.last();
        told(s, inputs.drop_last()) + input_events(
            after_inputs(s, inputs.drop_last()),
            last.0,
            last.1,
        )
    }
}

/// The texts of the tokens among `events`, in order.
pub open spec fn token_texts(events: Seq<EventView>) -> Seq<Seq<char>>
    decreases events.len(),
{
    if events.len() == 0 {
        Seq::empty()
    } else {
        match events.last() {
            EventView::ChannelToken { text, .. } => token_texts(events.drop_last()).push(text),
            _ => token_texts(events.drop_last()),
        }
    }
}

/// Whether `events` end with a terminal event and hold no other, or hold none at all.
pub open spec fn ends_at_terminal(events: Seq<EventView>, finished: bool) -> bool {
    &&& finished ==> events.len() > 0
    &&& forall|i: int|
        0 <= i < events.len() ==> is_terminal(#[trigger] events[i]) == (finished && i
            == events.len() - 1)
}

/// What holds of a stream at any time.
pub open spec fn consistent(s: StreamView) -> bool {
    &&& !s.saw_candidate ==> s.content.len() == 0 && s.tool_calls.len() == 0
    &&& s.finish_reason != Some(StopReason::ToolCalls)
    &&& forall|i: int|
        0 <= i < s.tool_calls.len() ==> (#[trigger] s.tool_calls[i]).id == call_id(i as nat)
}

proof fn lemma_finish_in(candidates: Seq<JsonView>)
    ensures
        finish_in(candidates) != Some(StopReason::ToolCalls),
    decreases candidates.len(),
{
    if candidates.len() > 0 {
        lemma_finish_in(candidates.drop_last());
    }
}

proof fn lemma_no_parts(parts: Seq<JsonView>)
    requires
        parts.len() == 0,
    ensures
        texts_in(parts).len() == 0,
        calls_in(parts).len() == 0,
        concatenated(texts_in(parts)).len() == 0,
{
}

proof fn lemma_consistent_step(s: StreamView, input: StreamInput, now: u64)
    requires
        consistent(s),
    ensures
        consistent(after_input(s, input, now)),
{
    match input {
        StreamInput::Event(GeminiStreamEvent::Chunk(chunk)) => {
            lemma_finish_in(candidates_of(chunk@));
            let parts = parts_in(candidates_of(chunk@));
            if parts.len() == 0 {
                lemma_no_parts(parts);
            }
        },
        _ => {},
    }
}

/// A stream stays consistent whatever comes: its calls are numbered from nought in the order in
/// which they came, and content or calls come only from parts.
pub proof fn stream_stays_consistent(
    id: Seq<char>,
    idle_secs: u64,
    idle_nanos: u32,
    now: u64,
    inputs: Seq<(StreamInput, u64)>,
)
    ensures
        consistent(after_inputs(started(id, idle_secs, idle_nanos, now), inputs)),
    decreases inputs.len(),
{
    if inputs.len() > 0 {
        let before = inputs.drop_last();
        stream_stays_consistent(id, idle_secs, idle_nanos, now, before);
        lemma_consistent_step(
            after_inputs(started(id, idle_secs, idle_nanos, now), before),
            inputs.last().0,
            inputs.last().1,
        );
    }
}

proof fn lemma_step_ends(s: StreamView, input: StreamInput, now: u64)
    requires
        !s.finished,
    ensures
        ends_at_terminal(input_events(s, input, now), after_input(s, input, now).finished),
{
}

/// A stream tells exactly one terminal event, as its last; while it is open it has told none.
pub proof fn one_terminal_event(s: StreamView, inputs: Seq<(StreamInput, u64)>)
    requires
        !s.finished,
    ensures
        ends_at_terminal(told(s, inputs), after_inputs(s, inputs).finished),
    decreases inputs.len(),
{
    if inputs.len() > 0 {
        let before = inputs.drop_last();
        let last = inputs.last();
        one_terminal_event(s, before);
        let mid = after_inputs(s, before);
        if mid.finished {
            assert(told(s, inputs) =~= told(s, before));
        } else {
            lemma_step_ends(mid, last.0, last.1);
        }
    }
}

/// The events that open a stream are not terminal.
pub proof fn opening_is_not_terminal(id: Seq<char>, has_metadata: bool, timestamp_ms: i64)
    ensures
        ends_at_terminal(opening_events(id, has_metadata, timestamp_ms), false),
{
}

/// The end of the transport, a transport error and silence each end a stream, whatever came
/// before.
pub proof fn transport_end_finishes(s: StreamView, input: StreamInput, now: u64)
    requires
        !(input is Event),
    ensures
        after_input(s, input, now).finished,
        !s.finished ==> input_events(s, input, now).len() == 1,
        !s.finished && input is End ==> input_events(s, input, now)[0] is Completed,
        !s.finished && !(input is End) ==> input_events(s, input, now)[0] is Failed,
{
}

/// Once a stream is finished nothing changes it and nothing more is told.
pub proof fn finished_stays_finished(s: StreamView, inputs: Seq<(StreamInput, u64)>)
    requires
        s.finished,
    ensures
        after_inputs(s, inputs) == s,
        told(s, inputs) == Seq::<EventView>::empty(),
    decreases inputs.len(),
{
    if inputs.len() > 0 {
        finished_stays_finished(s, inputs.drop_last());
        assert(told(s, inputs) =~= Seq::empty());
    }
}

/// An error object fails the stream at once, whatever else its chunk holds: nothing but the
/// failure is told.
pub proof fn error_object_fails(s: StreamView, input: StreamInput, now: u64)
    requires
        !s.finished,
        input is Event,
        error_of(input->Event_0->Chunk_0@) is Some,
    ensures
        after_input(s, input, now).finished,
        input_events(s, input, now) == seq![
            EventView::Failed { id: s.id, error: error_of(input->Event_0->Chunk_0@)->0 },
        ],
{
}

/// A chunk with content never times a stream out, however late it comes, and starts the idle time
/// anew; a chunk without content leaves the idle time running.
pub proof fn only_content_resets_idle(s: StreamView, input: StreamInput, now: u64)
    requires
        !s.finished,
        input is Event,
        error_of(input->Event_0->Chunk_0@) is None,
    ensures
        ({
            let chunk = input->Event_0->Chunk_0@;
            let t = after_input(s, input, now);
            &&& t.finished == (!has_content(chunk) && is_idle(s, now))
            &&& t.finished ==> input_events(s, input, now) == seq![idle_failure(s)]
            &&& t.last_content_at == if has_content(chunk) {
                now
            } else {
                s.last_content_at
            }
        }),
{
}

proof fn lemma_token_texts_concat(a: Seq<EventView>, b: Seq<EventView>)
    ensures
        token_texts(a + b) == token_texts(a) + token_texts(b),
    decreases b.len(),
{
    if b.len() == 0 {
        assert(a + b =~= a);
        assert(token_texts(a) + token_texts(b) =~= token_texts(a));
    } else {
        lemma_token_texts_concat(a, b.drop_last());
        assert((a + b).drop_last() =~= a + b.drop_last());
        assert(token_texts(a + b) =~= token_texts(a) + token_texts(b));
    }
}

proof fn lemma_tokens_tell_texts(s: StreamView, texts: Seq<Seq<char>>)
    ensures
        token_texts(token_events(s, texts)) == texts,
    decreases texts.len(),
{
    if texts.len() == 0 {
        assert(token_events(s, texts) =~= Seq::empty());
        assert(texts =~= Seq::empty());
    } else {
        let before = texts.drop_last();
        lemma_tokens_tell_texts(s, before);
        let events = token_events(s, texts);
        if before.len() > 0 || s.chunks_at.len() > 0 {
            assert(events.drop_last() =~= token_events(s, before));
        } else {
            assert(token_events(s, before) =~= Seq::empty());
            let first = seq![EventView::FirstToken { id: s.id }];
            assert(events.drop_last() =~= first);
            assert(first.drop_last() =~= Seq::empty());
            assert(token_texts(first) == token_texts(first.drop_last()));
        }
        assert(before.push(texts.last()) =~= texts);
    }
}

proof fn lemma_concatenated_concat(a: Seq<Seq<char>>, b: Seq<Seq<char>>)
    ensures
        concatenated(a + b) == concatenated(a) + concatenated(b),
    decreases b.len(),
{
    if b.len() == 0 {
        assert(a + b =~= a);
        assert(concatenated(a) + concatenated(b) =~= concatenated(a));
    } else {
        lemma_concatenated_concat(a, b.drop_last());
        assert((a + b).drop_last() =~= a + b.drop_last());
        assert(concatenated(a + b) =~= concatenated(a) + concatenated(b));
    }
}

proof fn lemma_other_event_has_no_text(event: EventView)
    requires
        !(event is ChannelToken),
    ensures
        token_texts(seq![event]) == Seq::<Seq<char>>::empty(),
{
    assert(seq![event].drop_last() =~= Seq::empty());
    assert(token_texts(seq![event].drop_last()) =~= Seq::empty());
}

/// What has been accumulated is what has been told: the content of a stream is its token texts
/// one after the other, and it counts as many chunks as it told tokens.
pub proof fn content_is_what_was_told(
    id: Seq<char>,
    idle_secs: u64,
    idle_nanos: u32,
    now: u64,
    inputs: Seq<(StreamInput, u64)>,
)
    ensures
        ({
            let s = started(id, idle_secs, idle_nanos, now);
            let texts = token_texts(told(s, inputs));
            &&& after_inputs(s, inputs).content == concatenated(texts)
            &&& after_inputs(s, inputs).chunks_at.len() == texts.len()
        }),
    decreases inputs.len(),
{
    let s = started(id, idle_secs, idle_nanos, now);
    if inputs.len() > 0 {
        let before = inputs.drop_last();
        let (input, at) = inputs.last();
        content_is_what_was_told(id, idle_secs, idle_nanos, now, before);
        let mid = after_inputs(s, before);
        let events = input_events(mid, input, at);
        lemma_token_texts_concat(told(s, before), events);
        lemma_concatenated_concat(token_texts(told(s, before)), token_texts(events));
        if mid.finished {
            assert(concatenated(token_texts(events)) =~= Seq::empty());
            assert(after_inputs(s, inputs).content =~= concatenated(token_texts(told(s, inputs))));
        } else {
            match input {
                StreamInput::Event(GeminiStreamEvent::Chunk(chunk)) => {
                    lemma_chunk_texts(mid, chunk@, at);
                },
                _ => {
                    lemma_other_event_has_no_text(events[0]);
                    assert(events =~= seq![events[0]]);
                },
            }
            assert(after_inputs(s, inputs).content =~= concatenated(token_texts(told(s, inputs))));
        }
    }
}

proof fn lemma_chunk_texts(s: StreamView, chunk: JsonView, now: u64)
    ensures
        token_texts(chunk_events(s, chunk, now)) == if error_of(chunk) is Some {
            Seq::empty()
        } else {
            texts_in(parts_in(candidates_of(chunk)))
        },
{
    let events = chunk_events(s, chunk, now);
    let texts = texts_in(parts_in(candidates_of(chunk)));
    match error_of(chunk) {
        Some(error) => {
            lemma_other_event_has_no_text(EventView::Failed { id: s.id, error });
        },
        None => {
            if has_content(chunk) {
                lemma_tokens_tell_texts(s, texts);
            } else {
                assert(texts =~= Seq::empty());
                if is_idle(s, now) {
                    lemma_other_event_has_no_text(idle_failure(s));
                }
            }
        },
    }
}

/// A stream that ends normally completes with a message whose content is all the token texts one
/// after the other, and with the number of tokens told.
pub proof fn completion_holds_what_was_told(
    id: Seq<char>,
    idle_secs: u64,
    idle_nanos: u32,
    now: u64,
    inputs: Seq<(StreamInput, u64)>,
    ended_at: u64,
)
    ensures
        ({
            let s = started(id, idle_secs, idle_nanos, now);
            let t = after_inputs(s, inputs);
            let texts = token_texts(told(s, inputs));
            &&& !t.finished ==> input_events(t, StreamInput::End, ended_at) == seq![
                completion(t, ended_at),
            ]
            &&& completion(t, ended_at)->response.message is Some
            &&& completion(t, ended_at)->response.message->0.content == concatenated(texts)
            &&& completion(t, ended_at)->response.message_chunks_emitted == texts.len() as u64
        }),
{
    let s = started(id, idle_secs, idle_nanos, now);
    stream_stays_consistent(id, idle_secs, idle_nanos, now, inputs);
    content_is_what_was_told(id, idle_secs, idle_nanos, now, inputs);
    let t = after_inputs(s, inputs);
    assert(final_message(t).content =~= t.content);
}

/// A response stops for its calls if and only if it holds calls, whatever finish reason came
/// with it.
pub proof fn calls_force_their_stop_reason(
    id: Seq<char>,
    idle_secs: u64,
    idle_nanos: u32,
    now: u64,
    inputs: Seq<(StreamInput, u64)>,
)
    ensures
        ({
            let t = after_inputs(started(id, idle_secs, idle_nanos, now), inputs);
            (final_stop_reason(t) == Some(StopReason::ToolCalls)) == (final_message(
                t,
            ).tool_calls.len() > 0)
        }),
{
    stream_stays_consistent(id, idle_secs, idle_nanos, now, inputs);
}

/// The numbers of the tokens among `events`, in order.
pub open spec fn token_numbers(events: Seq<EventView>) -> Seq<nat>
    decreases events.len(),
{
    if events.len() == 0 {
        Seq::empty()
    } else {
        match events.last() {
            EventView::ChannelToken { chunk_index, .. } => token_numbers(events.drop_last()).push(
                chunk_index,
            ),
            _ => token_numbers(events.drop_last()),
        }
    }
}

/// How often a first token is announced among `events`.
pub open spec fn announcements(events: Seq<EventView>) -> nat
    decreases events.len(),
{
    if events.len() == 0 {
        0
    } else {
        announcements(events.drop_last()) + if events.last() is FirstToken {
            1nat
        } else {
            0
        }
    }
}

/// The numbers from `first` on, `n` of them.
pub open spec fn counted(first: nat, n: nat) -> Seq<nat> {
    Seq::new(n, |i: int| (first + i) as nat)
}

proof fn lemma_numbers_concat(a: Seq<EventView>, b: Seq<EventView>)
    ensures
        token_numbers(a + b) == token_numbers(a) + token_numbers(b),
        announcements(a + b) == announcements(a) + announcements(b),
    decreases b.len(),
{
    if b.len() == 0 {
        assert(a + b =~= a);
        assert(token_numbers(a) + token_numbers(b) =~= token_numbers(a));
    } else {
        lemma_numbers_concat(a, b.drop_last());
        assert((a + b).drop_last() =~= a + b.drop_last());
        assert(token_numbers(a + b) =~= token_numbers(a) + token_numbers(b));
    }
}

proof fn lemma_one_event(event: EventView)
    requires
        !(event is ChannelToken),
    ensures
        token_numbers(seq![event]) == Seq::<nat>::empty(),
        announcements(seq![event]) == if event is FirstToken {
            1nat
        } else {
            0
        },
{
    let one = seq![event];
    assert(one.drop_last() =~= Seq::empty());
    assert(token_numbers(one.drop_last()) =~= Seq::empty());
    assert(announcements(one.drop_last()) == 0);
}

proof fn lemma_tokens_count_on(s: StreamView, texts: Seq<Seq<char>>)
    ensures
        token_numbers(token_events(s, texts)) == counted(s.chunks_at.len() + 1, texts.len()),
        announcements(token_events(s, texts)) == if s.chunks_at.len() == 0 && texts.len() > 0 {
            1nat
        } else {
            0
        },
    decreases texts.len(),
{
    let events = token_events(s, texts);
    if texts.len() == 0 {
        assert(events =~= Seq::empty());
        assert(token_numbers(events) =~= counted(s.chunks_at.len() + 1, 0));
    } else {
        let before = texts.drop_last();
        lemma_tokens_count_on(s, before);
        if before.len() > 0 || s.chunks_at.len() > 0 {
            assert(events.drop_last() =~= token_events(s, before));
        } else {
            assert(token_events(s, before) =~= Seq::empty());
            let first = EventView::FirstToken { id: s.id };
            lemma_one_event(first);
            assert(events.drop_last() =~= seq![first]);
        }
        assert(token_numbers(events) =~= counted(s.chunks_at.len() + 1, texts.len()));
    }
}

proof fn lemma_chunk_counts(s: StreamView, chunk: JsonView, now: u64)
    ensures
        ({
            let events = chunk_events(s, chunk, now);
            let n = token_texts(events).len();
            &&& token_numbers(events) == counted(s.chunks_at.len() + 1, n)
            &&& announcements(events) == if s.chunks_at.len() == 0 && n > 0 {
                1nat
            } else {
                0
            }
        }),
{
    let events = chunk_events(s, chunk, now);
    let texts = texts_in(parts_in(candidates_of(chunk)));
    lemma_chunk_texts(s, chunk, now);
    match error_of(chunk) {
        Some(error) => {
            lemma_one_event(EventView::Failed { id: s.id, error });
        },
        None => {
            if has_content(chunk) {
                lemma_tokens_count_on(s, texts);
            } else if is_idle(s, now) {
                lemma_one_event(idle_failure(s));
            }
        },
    }
    assert(token_numbers(events) =~= counted(s.chunks_at.len() + 1, token_texts(events).len()));
}

/// The tokens of a stream are numbered from one on without a gap, and the first token is announced
/// exactly once if there are any.
pub proof fn tokens_are_counted_from_one(
    id: Seq<char>,
    idle_secs: u64,
    idle_nanos: u32,
    now: u64,
    inputs: Seq<(StreamInput, u64)>,
)
    ensures
        ({
            let events = told(started(id, idle_secs, idle_nanos, now), inputs);
            let n = token_texts(events).len();
            &&& token_numbers(events) == counted(1, n)
            &&& announcements(events) == if n > 0 {
                1nat
            } else {
                0
            }
        }),
    decreases inputs.len(),
{
    let s = started(id, idle_secs, idle_nanos, now);
    let events = told(s, inputs);
    if inputs.len() == 0 {
        assert(token_numbers(events) =~= counted(1, 0));
    } else {
        let before = inputs.drop_last();
        let (input, at) = inputs.last();
        tokens_are_counted_from_one(id, idle_secs, idle_nanos, now, before);
        content_is_what_was_told(id, idle_secs, idle_nanos, now, before);
        let mid = after_inputs(s, before);
        let added = input_events(mid, input, at);
        lemma_token_texts_concat(told(s, before), added);
        lemma_numbers_concat(told(s, before), added);
        if !mid.finished {
            match input {
                StreamInput::Event(GeminiStreamEvent::Chunk(chunk)) => {
                    lemma_chunk_counts(mid, chunk@, at);
                },
                _ => {
                    lemma_one_event(added[0]);
                    lemma_other_event_has_no_text(added[0]);
                    assert(added =~= seq![added[0]]);
                },
            }
        }
        assert(token_numbers(events) =~= counted(1, token_texts(events).len()));
    }
}

proof fn lemma_digits_nonempty(n: nat)
    ensures
        decimal_digits(n).len() >= 1,
        n >= 10 ==> decimal_digits(n).len() >= 2,
    decreases n,
{
    if n >= 10 {
        lemma_digits_nonempty(n / 10);
    }
}

proof fn lemma_digits_differ(a: nat, b: nat)
    requires
        decimal_digits(a) == decimal_digits(b),
    ensures
        a == b,
    decreases a,
{
    lemma_digits_nonempty(a);
    lemma_digits_nonempty(b);
    let x = decimal_digits(a);
    let y = decimal_digits(b);
    assert(x.last() == y.last());
    assert(x.last() as nat == 0x30 + a % 10);
    assert(y.last() as nat == 0x30 + b % 10);
    if a >= 10 {
        assert(x.drop_last() =~= decimal_digits(a / 10));
        assert(y.drop_last() =~= decimal_digits(b / 10));
        lemma_digits_differ(a / 10, b / 10);
    }
}

/// No two calls of a stream have the same id.
pub proof fn call_ids_differ(s: StreamView, i: int, j: int)
    requires
        consistent(s),
        0 <= i < j < s.tool_calls.len(),
    ensures
        s.tool_calls[i].id != s.tool_calls[j].id,
{
    let prefix = "gemini-call-"@;
    let a = decimal_digits(i as nat);
    let b = decimal_digits(j as nat);
    if prefix + a == prefix + b {
        assert((prefix + a).skip(prefix.len() as int) =~= a);
        assert((prefix + b).skip(prefix.len() as int) =~= b);
        lemma_digits_differ(i as nat, j as nat);
    }
}

/// Calls once taken in stay as they are: later inputs only add to them.
pub proof fn calls_are_kept(s: StreamView, input: StreamInput, now: u64)
    ensures
        s.tool_calls.is_prefix_of(after_input(s, input, now).tool_calls),
        s.content.is_prefix_of(after_input(s, input, now).content),
{
    let t = after_input(s, input, now);
    assert(s.tool_calls =~= t.tool_calls.subrange(0, s.tool_calls.len() as int));
    assert(s.content =~= t.content.subrange(0, s.content.len() as int));
}

/// Of several models the first one told stays, and of several usage reports and finish reasons the
/// last one holds.
pub proof fn first_model_and_last_usage_hold(s: StreamView, input: StreamInput, now: u64)
    requires
        input is Event,
        !s.finished,
        error_of(input->Event_0->Chunk_0@) is None,
    ensures
        ({
            let chunk = input->Event_0->Chunk_0@;
            let t = after_input(s, input, now);
            &&& s.model is Some ==> t.model == s.model
            &&& usage_of(chunk) is Some ==> t.usage == usage_of(chunk)
            &&& usage_of(chunk) is None ==> t.usage == s.usage
            &&& finish_in(candidates_of(chunk)) is Some ==> t.finish_reason == finish_in(
                candidates_of(chunk),
            )
            &&& finish_in(candidates_of(chunk)) is None ==> t.finish_reason == s.finish_reason
        }),
{
}

/// A chunk that comes while the stream is open is taken in as such; any other input ends the stream
/// and leaves what was taken in.
pub proof fn inputs_are_taken_as_they_come(s: StreamView, input: StreamInput, now: u64)
    requires
        !s.finished,
    ensures
        match input {
            StreamInput::Event(GeminiStreamEvent::Chunk(chunk)) => {
                &&& after_input(s, input, now) == after_chunk(s, chunk@, now)
                &&& input_events(s, input, now) == chunk_events(s, chunk@, now)
            },
            _ => after_input(s, input, now) == (StreamView { finished: true, ..s }),
        },
{
}

} // verus!
