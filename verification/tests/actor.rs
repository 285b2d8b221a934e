use provider_failover::actor::{
    ActorEvent, ActorState, ChainTask, Effect, LoopStep, SamplerActor,
    SamplerCommand, MAX_COOLDOWN_SECS,
};
use provider_failover::cancellation::ActiveRequest;
use provider_failover::conversation::ConversationRequest;
use provider_failover::sampler_config::{RetryPolicy, SamplerConfig};
use provider_failover::sampling::RequestId;
use tokio_util::sync::CancellationToken;

const SECOND: u64 = 1_000_000_000;

fn cfg() -> SamplerConfig {
    SamplerConfig {
        base_url: "https://example.test".into(),
        model: "test-model".into(),
        context_window: 8192,
        ..Default::default()
    }
}

fn entry(name: &str, model: &str) -> (String, SamplerConfig) {
    (name.to_string(), SamplerConfig { model: model.into(), ..Default::default() })
}

fn request(model: Option<&str>) -> ConversationRequest {
    ConversationRequest { model: model.map(|m| m.to_string()), ..Default::default() }
}

fn submit(
    actor: &mut SamplerActor,
    model: Option<&str>,
    config: Option<SamplerConfig>,
    now: u64,
) -> ChainTask {
    let cmd = SamplerCommand::Submit {
        request_id: RequestId::new("r"),
        request: request(model),
        config,
    };
    match actor.handle_command(cmd, &vec![], now) {
        Effect::Spawn(task) => task,
        _ => panic!("expected a task"),
    }
}

fn chained(names: &[(&str, &str)]) -> SamplerActor {
    let mut actor = SamplerActor::new(cfg(), RetryPolicy::default());
    let chain = names.iter().map(|(n, m)| entry(n, m)).collect();
    actor.handle_command(SamplerCommand::UpdateChain { chain }, &vec![], 0);
    actor
}

fn names(task: &ChainTask) -> Vec<&str> {
    task.chain.iter().map(|(n, _)| n.as_str()).collect()
}

#[test]
fn cancel_unknown_request_returns_false() {
    let mut state = ActorState::new(cfg(), RetryPolicy::default());
    assert!(state.cancel(&RequestId::new("unknown")).is_none());
}

#[test]
fn register_then_cancel_removes() {
    let mut state = ActorState::new(cfg(), RetryPolicy::default());
    let id = RequestId::new("req-1");
    state.register(id.copy(), ActiveRequest { cancel_token: CancellationToken::new() });
    assert_eq!(state.active_requests.len(), 1);
    assert!(state.cancel(&id).is_some());
    assert_eq!(state.active_requests.len(), 0);
}

#[test]
fn register_returns_previous_when_same_id() {
    let mut state = ActorState::new(cfg(), RetryPolicy::default());
    let id = RequestId::new("req-1");
    let first = ActiveRequest { cancel_token: CancellationToken::new() };
    let second = ActiveRequest { cancel_token: CancellationToken::new() };
    assert!(state.register(id.copy(), first).is_none());
    assert!(state.register(id.copy(), second).is_some());
}

#[test]
fn note_rate_limited_cools_provider_down() {
    let mut state = ActorState::new(cfg(), RetryPolicy::default());
    let now = 5 * SECOND;
    assert!(!state.is_cooled_down("grok", now));
    state.note_rate_limited("grok", Some(60), now);
    assert!(state.is_cooled_down("grok", now));
    // A different provider is unaffected.
    assert!(!state.is_cooled_down("backup", now));
}

#[test]
fn note_rate_limited_caps_long_retry_after() {
    let mut state = ActorState::new(cfg(), RetryPolicy::default());
    let now = 5 * SECOND;
    // Weekly-limit-shaped retry_after must not pin the skip for a week.
    state.note_rate_limited("grok", Some(604_800), now);
    let left = state.cooldown_until("grok").unwrap() - now as u128;
    assert!(left / SECOND as u128 <= MAX_COOLDOWN_SECS as u128);
}

#[test]
fn note_rate_limited_defaults_to_cap_when_unsignalled() {
    let mut state = ActorState::new(cfg(), RetryPolicy::default());
    let now = 5 * SECOND;
    state.note_rate_limited("grok", None, now);
    let left = state.cooldown_until("grok").unwrap() - now as u128;
    assert!(left / SECOND as u128 <= MAX_COOLDOWN_SECS as u128);
    assert_eq!(left, 300 * SECOND as u128);
}

#[test]
fn cooldown_ends_and_is_forgotten() {
    let mut state = ActorState::new(cfg(), RetryPolicy::default());
    state.note_rate_limited("grok", Some(60), 0);
    assert!(state.is_cooled_down("grok", 60 * SECOND - 1));
    assert_eq!(state.cooldown_until("grok"), Some(60 * SECOND as u128));
    assert!(!state.is_cooled_down("grok", 60 * SECOND));
    assert_eq!(state.cooldown_until("grok"), None);
}

#[test]
fn cancelling_reaches_the_shared_token() {
    let mut actor = SamplerActor::new(cfg(), RetryPolicy::default());
    let task = submit(&mut actor, None, None, 0);
    assert!(!task.cancel_token.token().is_cancelled());
    assert!(actor.state.is_active(&RequestId::new("r")));
    actor.handle_command(
        SamplerCommand::Cancel { request_id: RequestId::new("r") },
        &vec![],
        0,
    );
    assert!(task.cancel_token.token().is_cancelled());
    assert_eq!(actor.state.active_count(), 0);
}

#[test]
fn a_second_request_with_the_same_id_cancels_the_first() {
    let mut actor = SamplerActor::new(cfg(), RetryPolicy::default());
    let first = submit(&mut actor, None, None, 0);
    let second = submit(&mut actor, None, None, 0);
    assert!(first.cancel_token.token().is_cancelled());
    assert!(first.replaced.is_none() && second.replaced.is_some());
    assert!(!second.cancel_token.token().is_cancelled());
    assert_eq!(actor.state.active_count(), 1);
}

#[test]
fn dropping_all_handles_cancels_and_stops() {
    let mut actor = SamplerActor::new(cfg(), RetryPolicy::default());
    let task = submit(&mut actor, None, None, 0);
    let step = actor.on_event(ActorEvent::HandlesDropped, &vec![], 0);
    match step {
        LoopStep::Stop(cancelled) => {
            assert_eq!(cancelled.len(), 1);
            assert!(cancelled[0].token().is_cancelled());
        }
        LoopStep::Continue(_) => panic!("expected to stop"),
    }
    assert!(task.cancel_token.token().is_cancelled());
    assert_eq!(actor.state.active_count(), 0);
}

#[test]
fn an_ended_task_leaves_without_being_cancelled() {
    let mut actor = SamplerActor::new(cfg(), RetryPolicy::default());
    let task = submit(&mut actor, None, None, 0);
    assert!(matches!(
        actor.on_event(ActorEvent::TaskLost, &vec![], 0),
        LoopStep::Continue(Effect::Nothing)
    ));
    assert_eq!(actor.state.active_count(), 1);
    actor.on_event(ActorEvent::TaskEnded(RequestId::new("r")), &vec![], 0);
    assert_eq!(actor.state.active_count(), 0);
    assert!(!task.cancel_token.token().is_cancelled());
}

#[test]
fn without_a_chain_the_session_serves() {
    let mut actor = SamplerActor::new(cfg(), RetryPolicy::default());
    let task = submit(&mut actor, Some("other"), None, 0);
    assert_eq!(names(&task), ["provider"]);
    assert_eq!(task.chain[0].1.base_url, "https://example.test");
    assert_eq!(task.start_index, 0);
    assert_eq!(task.retry_policy.max_retries, 15);
}

#[test]
fn an_own_configuration_bypasses_chain_and_cooldowns() {
    let mut actor = chained(&[("a", "ma"), ("b", "mb")]);
    actor.state.note_rate_limited("provider", None, 0);
    let own = SamplerConfig { model: "mine".into(), ..Default::default() };
    let task = submit(&mut actor, Some("mb"), Some(own), 0);
    assert_eq!(names(&task), ["provider"]);
    assert_eq!(task.chain[0].1.model, "mine");
    assert_eq!(task.start_index, 0);
}

#[test]
fn the_walk_starts_at_the_selected_model() {
    let mut actor = chained(&[("a", "ma"), ("b", "mb"), ("c", "mb")]);
    let task = submit(&mut actor, Some("mb"), None, 0);
    assert_eq!(names(&task), ["a", "b", "c"]);
    assert_eq!(task.start_index, 1);
    assert_eq!(submit(&mut actor, None, None, 0).start_index, 0);
}

#[test]
fn an_unlisted_model_starts_at_the_top_of_the_chain() {
    let mut actor = chained(&[("a", "ma"), ("b", "mb")]);
    let task = submit(&mut actor, Some("grok-4"), None, 0);
    assert_eq!(names(&task), ["a", "b"]);
    assert_eq!(task.start_index, 0);
}

#[test]
fn cooling_entries_are_skipped_until_they_recover() {
    let mut actor = chained(&[("a", "ma"), ("b", "mb"), ("c", "mc")]);
    actor.state.note_rate_limited("b", Some(60), 0);
    assert_eq!(submit(&mut actor, Some("mb"), None, SECOND).start_index, 2);
    assert_eq!(submit(&mut actor, Some("mb"), None, 60 * SECOND).start_index, 1);
}

#[test]
fn a_fully_cooling_chain_still_serves() {
    let mut actor = chained(&[("a", "ma"), ("b", "mb")]);
    let reports = vec![("b".to_string(), None), ("grok".to_string(), Some(10))];
    let cmd = SamplerCommand::Submit {
        request_id: RequestId::new("r"),
        request: request(Some("mb")),
        config: None,
    };
    match actor.handle_command(cmd, &reports, 0) {
        Effect::Spawn(task) => assert_eq!(task.start_index, 1),
        _ => panic!("expected a task"),
    }
    // The entry before the selected one is never gone back to.
    assert_eq!(actor.state.cooldown_until("grok"), Some(10 * SECOND as u128));
}

#[test]
fn questions_are_answered() {
    let mut actor = chained(&[("a", "ma")]);
    submit(&mut actor, None, None, 0);
    match actor.handle_command(SamplerCommand::ActiveCount, &vec![], 0) {
        Effect::Count(n) => assert_eq!(n, 1),
        _ => panic!("expected a count"),
    }
    match actor.handle_command(
        SamplerCommand::IsActive { request_id: RequestId::new("x") },
        &vec![],
        0,
    ) {
        Effect::Active(active) => assert!(!active),
        _ => panic!("expected an answer"),
    }
    match actor.handle_command(SamplerCommand::PollChain, &vec![], 0) {
        Effect::Chain(chain) => assert_eq!(chain[0].0, "a"),
        _ => panic!("expected a chain"),
    }
    let config = SamplerConfig { base_url: "http://new".into(), ..Default::default() };
    actor.handle_command(SamplerCommand::UpdateConfig { config }, &vec![], 0);
    assert_eq!(actor.state.config.base_url, "http://new");
}
