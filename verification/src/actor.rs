//! The sampler actor: which requests are in flight, which providers are cooling down, and where
//! the walk along the failover chain starts.
use crate::cancellation::{
    cancel_request, start_request, ActiveRequest, CancelledRequest, FreshToken,
};
use crate::conversation::ConversationRequest;
use crate::sampler_config::{
    chain_view, copy_chain, ConfigView, FailoverChain, RetryPolicy, SamplerConfig,
};
use crate::sampling::RequestId;
use crate::string_map::StringMap;
use crate::text::{opt_text, same_text};
use vstd::prelude::*;

verus! {

/// Upper bound for the cooldown of a provider, even when the server asks for a longer one. It
/// limits how long a stale skip can suppress a provider that is healthy again.
pub const MAX_COOLDOWN_SECS: u64 = 300;

/// What the actor knows. Times are in nanoseconds of a monotonic clock.
pub struct ActorState {
    pub active_requests: StringMap<ActiveRequest>,
    pub config: SamplerConfig,
    pub retry_policy: RetryPolicy,
    /// The providers in the order in which they are tried. Without any, `config` alone is used.
    pub failover_chain: FailoverChain,
    /// Providers that recently failed rate limited, with the time at which each has cooled down.
    pub cooldowns: StringMap<u128>,
}

/// What an [`ActorState`] says.
pub struct ActorView {
    pub active: Map<Seq<char>, ActiveRequest>,
    pub config: ConfigView,
    pub retry_policy: RetryPolicy,
    pub chain: Seq<(Seq<char>, ConfigView)>,
    pub cooldowns: Map<Seq<char>, u128>,
}

impl View for ActorState {
    type V = ActorView;

    open spec fn view(&self) -> ActorView {
        ActorView {
            active: self.active_requests@,
            config: self.config@,
            retry_policy: self.retry_policy,
            chain: chain_view(self.failover_chain@),
            cooldowns: self.cooldowns@,
        }
    }
}

/// For how many seconds a rate limited provider is skipped: as long as the server asked, within
/// the bound, and up to the bound if the server did not say.
pub open spec fn cooldown_secs(retry_after: Option<u64>) -> u64 {
    match retry_after {
        Some(secs) => if secs < MAX_COOLDOWN_SECS {
            secs
        } else {
            MAX_COOLDOWN_SECS
        },
        None => MAX_COOLDOWN_SECS,
    }
}

/// When a provider that fails rate limited at `now` has cooled down.
pub open spec fn cooled_until(retry_after: Option<u64>, now: u64) -> u128 {
    (now + cooldown_secs(retry_after) * 1_000_000_000) as u128
}

/// Whether a provider is in cooldown.
pub open spec fn is_cooling(
    cooldowns: Map<Seq<char>, u128>,
    provider: Seq<char>,
    now: u64,
) -> bool {
    cooldowns.dom().contains(provider) && cooldowns[provider] > now
}

/// The cooldowns without that of `provider`, if it has run out.
pub open spec fn expired_dropped(
    cooldowns: Map<Seq<char>, u128>,
    provider: Seq<char>,
    now: u64,
) -> Map<Seq<char>, u128> {
    if is_cooling(cooldowns, provider, now) {
        cooldowns
    } else {
        cooldowns.remove(provider)
    }
}

impl ActorState {
    pub fn new(config: SamplerConfig, retry_policy: RetryPolicy) -> (r: Self)
        ensures
            r@ == (ActorView {
                active: Map::empty(),
                config: config@,
                retry_policy,
                chain: Seq::empty(),
                cooldowns: Map::empty(),
            }),
    {
        let r = ActorState {
            active_requests: StringMap::new(),
            config,
            retry_policy,
            failover_chain: Vec::new(),
            cooldowns: StringMap::new(),
        };
        assert(r@.chain =~= Seq::empty());
        r
    }

    /// Records that `provider` failed rate limited at `now`.
    pub fn note_rate_limited(&mut self, provider: &str, retry_after_secs: Option<u64>, now: u64)
        ensures
            final(self)@ == (ActorView {
                cooldowns: old(self)@.cooldowns.insert(
                    provider@,
                    cooled_until(retry_after_secs, now),
                ),
                ..old(self)@
            }),
    {
        let secs: u64 = match retry_after_secs {
            Some(secs) => if secs < MAX_COOLDOWN_SECS {
                secs
            } else {
                MAX_COOLDOWN_SECS
            },
            None => MAX_COOLDOWN_SECS,
        };
        let until: u128 = now as u128 + secs as u128 * 1_000_000_000;
        let _previous = self.cooldowns.insert(provider.to_owned(), until);
    }

    /// Whether `provider` is in cooldown. A cooldown that has run out is dropped.
    pub fn is_cooled_down(&mut self, provider: &str, now: u64) -> (cooling: bool)
        ensures
            cooling == is_cooling(old(self)@.cooldowns, provider@, now),
            final(self)@ == (ActorView {
                cooldowns: expired_dropped(old(self)@.cooldowns, provider@, now),
                ..old(self)@
            }),
    {
        let cooling = match self.cooldowns.get(provider) {
            Some(until) => *until > now as u128,
            None => false,
        };
        if !cooling {
            let _expired = self.cooldowns.remove(provider);
        }
        cooling
    }

    /// When the cooldown of `provider` ends, if one is noted.
    pub fn cooldown_until(&self, provider: &str) -> (until: Option<u128>)
        ensures
            until == if self@.cooldowns.dom().contains(provider@) {
                Some(self@.cooldowns[provider@])
            } else {
                None
            },
    {
        match self.cooldowns.get(provider) {
            Some(until) => Some(*until),
            None => None,
        }
    }

    /// Takes a request in and hands back the one with the same id that was in flight; the caller
    /// cancels that one.
    pub fn register(&mut self, request_id: RequestId, active: ActiveRequest) -> (previous: Option<
        ActiveRequest,
    >)
        ensures
            final(self)@ == (ActorView {
                active: old(self)@.active.insert(request_id@, active),
                ..old(self)@
            }),
            previous == if old(self)@.active.dom().contains(request_id@) {
                Some(old(self)@.active[request_id@])
            } else {
                None
            },
    {
        self.active_requests.insert(request_id.id, active)
    }

    /// Takes a request out without cancelling its token, as its task has ended.
    pub fn remove(&mut self, request_id: &RequestId) -> (removed: Option<ActiveRequest>)
        ensures
            final(self)@ == (ActorView {
                active: old(self)@.active.remove(request_id@),
                ..old(self)@
            }),
            removed == if old(self)@.active.dom().contains(request_id@) {
                Some(old(self)@.active[request_id@])
            } else {
                None
            },
    {
        self.active_requests.remove(request_id.id.as_str())
    }

    /// Cancels and takes out a request, if it is in flight, and hands it back as cancelled.
    pub fn cancel(&mut self, request_id: &RequestId) -> (cancelled: Option<CancelledRequest>)
        ensures
            is_cancelled(old(self)@.active, request_id@, cancelled),
            final(self)@ == (ActorView {
                active: old(self)@.active.remove(request_id@),
                ..old(self)@
            }),
    {
        match self.remove(request_id) {
            Some(active) => Some(cancel_request(active)),
            None => None,
        }
    }

    /// Replaces the configuration. The next request without one of its own uses it.
    pub fn update_config(&mut self, config: SamplerConfig)
        ensures
            final(self)@ == (ActorView { config: config@, ..old(self)@ }),
    {
        self.config = config;
    }

    /// Replaces the failover chain.
    pub fn update_chain(&mut self, chain: FailoverChain)
        ensures
            final(self)@ == (ActorView { chain: chain_view(chain@), ..old(self)@ }),
    {
        self.failover_chain = chain;
    }

    /// Whether a request is in flight.
    pub fn is_active(&self, request_id: &RequestId) -> (active: bool)
        ensures
            active == self@.active.dom().contains(request_id@),
    {
        self.active_requests.contains_key(request_id.id.as_str())
    }

    /// How many requests are in flight.
    pub fn active_count(&self) -> (n: usize)
        ensures
            self@.active.dom().finite(),
            n == self@.active.dom().len(),
    {
        self.active_requests.len()
    }

    /// Cancels every request in flight.
    pub fn cancel_all(&mut self) -> (cancelled: Vec<CancelledRequest>)
        ensures
            final(self)@ == (ActorView { active: Map::empty(), ..old(self)@ }),
            are_all_cancelled(old(self)@.active, cancelled@),
    {
        let ghost active = self@.active;
        let mut running = self.active_requests.take_values();
        let ghost all = running@;
        let mut cancelled: Vec<CancelledRequest> = Vec::new();
        while running.len() > 0
            invariant
                running@.len() + cancelled@.len() == all.len(),
                running@ == all.skip(cancelled@.len() as int),
                forall|i: int|
                    0 <= i < cancelled@.len() ==> (#[trigger] cancelled@[i]).request() == all[i],
            decreases running.len(),
        {
            let request = running.remove(0);
            cancelled.push(cancel_request(request));
            assert(running@ =~= all.skip(cancelled@.len() as int));
        }
        assert forall|id: Seq<char>| #[trigger] active.dom().contains(id) implies exists|i: int|
            holds_cancelled(cancelled@, i, active[id]) by {
            assert(all.contains(active[id]));
            let i = choose|i: int| 0 <= i < all.len() && all[i] == active[id];
            assert(cancelled@[i].request() == all[i]);
            assert(holds_cancelled(cancelled@, i, active[id]));
        }
        cancelled
    }
}

/// Whether the request `id` was cancelled, if it was in flight.
pub open spec fn is_cancelled(
    active: Map<Seq<char>, ActiveRequest>,
    id: Seq<char>,
    cancelled: Option<CancelledRequest>,
) -> bool {
    match cancelled {
        Some(c) => active.dom().contains(id) && c.request() == active[id],
        None => !active.dom().contains(id),
    }
}

/// Whether `request` is the one cancelled at `i`.
pub open spec fn holds_cancelled(
    cancelled: Seq<CancelledRequest>,
    i: int,
    request: ActiveRequest,
) -> bool {
    0 <= i < cancelled.len() && cancelled[i].request() == request
}

/// Whether each request in flight was cancelled, and as many were cancelled as were in flight.
pub open spec fn are_all_cancelled(
    active: Map<Seq<char>, ActiveRequest>,
    cancelled: Seq<CancelledRequest>,
) -> bool {
    &&& cancelled.len() == active.dom().len()
    &&& forall|id: Seq<char>| #[trigger]
        active.dom().contains(id) ==> exists|i: int| holds_cancelled(cancelled, i, active[id])
}

/// What the actor is asked.
#[allow(inconsistent_fields)]
pub enum SamplerCommand {
    Submit {
        request_id: RequestId,
        request: ConversationRequest,
        /// Overrides the configuration for this request and bypasses the chain.
        config: Option<SamplerConfig>,
    },
    Cancel { request_id: RequestId },
    UpdateConfig { config: SamplerConfig },
    UpdateChain { chain: FailoverChain },
    IsActive { request_id: RequestId },
    ActiveCount,
    PollChain,
}

/// A walk along a chain, to be run by a task of its own.
pub struct ChainTask {
    pub request_id: RequestId,
    pub request: ConversationRequest,
    pub chain: FailoverChain,
    pub start_index: usize,
    pub retry_policy: RetryPolicy,
    /// Made for this request alone, and cancelled together with it.
    pub cancel_token: FreshToken,
    /// The request with the same id that was in flight before.
    pub replaced: Option<CancelledRequest>,
}

/// What follows from a command.
pub enum Effect {
    Spawn(ChainTask),
    Cancelled(Option<CancelledRequest>),
    Active(bool),
    Count(usize),
    Chain(FailoverChain),
    Nothing,
}

/// What the run loop of the actor waits for.
pub enum ActorEvent {
    /// The task of a request has ended.
    TaskEnded(RequestId),
    /// A task panicked or was aborted.
    TaskLost,
    Command(SamplerCommand),
    /// Nobody can send commands any more.
    HandlesDropped,
}

/// What the run loop does next.
pub enum LoopStep {
    Continue(Effect),
    /// The requests that were still in flight are cancelled.
    Stop(Vec<CancelledRequest>),
}

/// A rate limited provider, with how long its server asked to wait.
pub type CooldownReport = (String, Option<u64>);

/// The cooldowns once `reports` are noted in order.
pub open spec fn noted(
    cooldowns: Map<Seq<char>, u128>,
    reports: Seq<CooldownReport>,
    now: u64,
) -> Map<Seq<char>, u128>
    decreases reports.len(),
{
    if reports.len() == 0 {
        cooldowns
    } else {
        noted(cooldowns, reports.drop_last(), now).insert(
            reports.last().0@,
            cooled_until(reports.last().1, now),
        )
    }
}

/// The first index from `from` on whose entry has the given model, or the length of the chain.
pub open spec fn model_index(
    chain: Seq<(Seq<char>, ConfigView)>,
    model: Seq<char>,
    from: int,
) -> int
    decreases chain.len() - from,
{
    if from >= chain.len() || chain[from].1.model == model {
        from
    } else {
        model_index(chain, model, from + 1)
    }
}

/// The first index from `from` on whose provider is not in cooldown, or the length of the chain.
pub open spec fn live_index(
    chain: Seq<(Seq<char>, ConfigView)>,
    cooldowns: Map<Seq<char>, u128>,
    now: u64,
    from: int,
) -> int
    decreases chain.len() - from,
{
    if from >= chain.len() || !is_cooling(cooldowns, chain[from].0, now) {
        from
    } else {
        live_index(chain, cooldowns, now, from + 1)
    }
}

/// The chain that a request walks. A configuration of its own stands alone; else it is the
/// installed chain just as it is; without a chain it is the session's configuration.
pub open spec fn walked_chain(s: ActorView, own: Option<ConfigView>) -> Seq<
    (Seq<char>, ConfigView),
> {
    match own {
        Some(config) => seq![("provider"@, config)],
        None => if s.chain.len() == 0 {
            seq![("provider"@, s.config)]
        } else {
            s.chain
        },
    }
}

/// The entry of the selected model: the first one if no entry has it.
pub open spec fn model_start(chain: Seq<(Seq<char>, ConfigView)>, model: Option<Seq<char>>) -> int {
    match model {
        Some(m) => if model_index(chain, m, 0) < chain.len() {
            model_index(chain, m, 0)
        } else {
            0
        },
        None => 0,
    }
}

/// Where the walk of a request would start if no provider were in cooldown.
pub open spec fn base_start(
    s: ActorView,
    model: Option<Seq<char>>,
    own: Option<ConfigView>,
) -> int {
    model_start(walked_chain(s, own), model)
}

/// Where the walk of a request starts. Providers in cooldown are passed over as long as one that
/// is not remains ahead.
pub open spec fn walk_start(
    s: ActorView,
    model: Option<Seq<char>>,
    own: Option<ConfigView>,
    now: u64,
) -> int {
    let chain = walked_chain(s, own);
    let base = base_start(s, model, own);
    let live = live_index(chain, s.cooldowns, now, base);
    if own is None && live < chain.len() {
        live
    } else {
        base
    }
}

/// The cooldowns after the start of a walk was looked for: one that had run out is dropped where
/// it was seen.
pub open spec fn cooldowns_after_search(
    s: ActorView,
    model: Option<Seq<char>>,
    own: Option<ConfigView>,
    now: u64,
) -> Map<Seq<char>, u128> {
    let chain = walked_chain(s, own);
    let live = live_index(chain, s.cooldowns, now, base_start(s, model, own));
    if own is None && live < chain.len() {
        s.cooldowns.remove(chain[live].0)
    } else {
        s.cooldowns
    }
}

fn position_of_model(chain: &FailoverChain, model: &str) -> (at: Option<usize>)
    ensures
        match at {
            Some(i) => i < chain@.len() && i == model_index(chain_view(chain@), model@, 0),
            None => model_index(chain_view(chain@), model@, 0) >= chain@.len(),
        },
{
    let mut i: usize = 0;
    while i < chain.len()
        invariant
            i <= chain@.len(),
            model_index(chain_view(chain@), model@, 0) == model_index(
                chain_view(chain@),
                model@,
                i as int,
            ),
        decreases chain@.len() - i,
    {
        if same_text(chain[i].1.model.as_str(), model) {
            return Some(i);
        }
        i = i + 1;
    }
    None
}

/// The actor without its channels and tasks.
pub struct SamplerActor {
    pub state: ActorState,
}

impl SamplerActor {
    pub fn new(config: SamplerConfig, retry_policy: RetryPolicy) -> (r: Self)
        ensures
            r.state@ == (ActorView {
                active: Map::empty(),
                config: config@,
                retry_policy,
                chain: Seq::empty(),
                cooldowns: Map::empty(),
            }),
    {
        SamplerActor { state: ActorState::new(config, retry_policy) }
    }

    /// Notes every pending rate limit report, so that the next request sees the freshest skips.
    pub fn drain_cooldown_reports(&mut self, reports: &Vec<CooldownReport>, now: u64)
        ensures
            final(self).state@ == (ActorView {
                cooldowns: noted(old(self).state@.cooldowns, reports@, now),
                ..old(self).state@
            }),
    {
        let mut i: usize = 0;
        assert(reports@.take(0) =~= Seq::empty());
        while i < reports.len()
            invariant
                i <= reports@.len(),
                self.state@ == (ActorView {
                    cooldowns: noted(old(self).state@.cooldowns, reports@.take(i as int), now),
                    ..old(self).state@
                }),
            decreases reports@.len() - i,
        {
            self.state.note_rate_limited(reports[i].0.as_str(), reports[i].1, now);
            i = i + 1;
            assert(reports@.take(i as int).drop_last() =~= reports@.take(i - 1));
        }
        assert(reports@.take(reports@.len() as int) =~= reports@);
    }

    /// The chain that a request walks, and where it starts.
    pub fn plan_walk(&mut self, model: &Option<String>, own: Option<SamplerConfig>, now: u64) -> (r:
        (FailoverChain, usize))
        ensures
            ({
                let s = old(self).state@;
                let own_view = own_config(own);
                &&& chain_view(r.0@) == walked_chain(s, own_view)
                &&& r.1 == walk_start(s, opt_text(*model), own_view, now)
                &&& r.1 < r.0@.len()
                &&& final(self).state@ == (ActorView {
                    cooldowns: cooldowns_after_search(s, opt_text(*model), own_view, now),
                    ..s
                })
            }),
    {
        let ghost s = self.state@;
        let ghost wanted = opt_text(*model);
        let mut chain: FailoverChain = Vec::new();
        match own {
            Some(config) => {
                chain.push(("provider".to_owned(), config));
                proof {
                    let only = seq![("provider"@, config@)];
                    assert(chain_view(chain@) =~= only);
                    assert(walk_start(s, wanted, Some(config@), now) == 0) by {
                        reveal_with_fuel(model_index, 2);
                    }
                }
                return (chain, 0);
            },
            None => {},
        }
        let ghost none: Option<ConfigView> = None;
        let mut base: usize = 0;
        if self.state.failover_chain.len() == 0 {
            chain.push(("provider".to_owned(), self.state.config.copy()));
            assert(chain_view(chain@) =~= walked_chain(s, none));
            proof {
                reveal_with_fuel(model_index, 2);
            }
        } else {
            match model {
                Some(m) => match position_of_model(&self.state.failover_chain, m.as_str()) {
                    Some(at) => {
                        base = at;
                    },
                    None => {},
                },
                None => {},
            }
            chain = copy_chain(&self.state.failover_chain);
            assert(chain_view(chain@) =~= walked_chain(s, none));
        }
        assert(base == base_start(s, wanted, none));
        let ghost walked = chain_view(chain@);
        let mut skip: usize = base;
        let mut cooling = true;
        while cooling && skip < chain.len()
            invariant
                base <= skip <= chain@.len(),
                base < chain@.len(),
                walked == chain_view(chain@),
                live_index(walked, s.cooldowns, now, base as int) == live_index(
                    walked,
                    s.cooldowns,
                    now,
                    skip as int,
                ),
                cooling ==> self.state@ == s,
                !cooling ==> skip < chain@.len() && live_index(
                    walked,
                    s.cooldowns,
                    now,
                    skip as int,
                ) == skip && self.state@ == (ActorView {
                    cooldowns: s.cooldowns.remove(walked[skip as int].0),
                    ..s
                }),
            decreases chain@.len() - skip + cooling as int,
        {
            cooling = self.state.is_cooled_down(chain[skip].0.as_str(), now);
            if cooling {
                skip = skip + 1;
            }
        }
        if skip < chain.len() {
            (chain, skip)
        } else {
            (chain, base)
        }
    }

    /// Acts on a command, once the pending rate limit reports are noted.
    pub fn handle_command(
        &mut self,
        cmd: SamplerCommand,
        reports: &Vec<CooldownReport>,
        now: u64,
    ) -> (effect: Effect)
        ensures
            command_handled(
                old(self).state@,
                final(self).state@,
                cmd,
                reports@,
                now,
                effect,
            ),
    {
        self.drain_cooldown_reports(reports, now);
        match cmd {
            SamplerCommand::Submit { request_id, request, config } => {
                let (cancel, active) = start_request();
                let replaced = match self.state.register(request_id.copy(), active) {
                    Some(previous) => Some(cancel_request(previous)),
                    None => None,
                };
                let retry_policy = self.state.retry_policy;
                let (chain, start_index) = self.plan_walk(&request.model, config, now);
                assert(self.state@.active.remove(request_id@) =~= old(
                    self,
                ).state@.active.remove(request_id@));
                Effect::Spawn(
                    ChainTask {
                        request_id,
                        request,
                        chain,
                        start_index,
                        retry_policy,
                        cancel_token: cancel,
                        replaced,
                    },
                )
            },
            SamplerCommand::Cancel { request_id } => {
                Effect::Cancelled(self.state.cancel(&request_id))
            },
            SamplerCommand::UpdateConfig { config } => {
                self.state.update_config(config);
                Effect::Nothing
            },
            SamplerCommand::UpdateChain { chain } => {
                self.state.update_chain(chain);
                Effect::Nothing
            },
            SamplerCommand::IsActive { request_id } => {
                Effect::Active(self.state.is_active(&request_id))
            },
            SamplerCommand::ActiveCount => Effect::Count(self.state.active_count()),
            SamplerCommand::PollChain => Effect::Chain(copy_chain(&self.state.failover_chain)),
        }
    }

    /// Acts on what the run loop has waited for. When nobody can send commands any more, every
    /// request in flight is cancelled and the loop stops.
    pub fn on_event(&mut self, event: ActorEvent, reports: &Vec<CooldownReport>, now: u64) -> (step:
        LoopStep)
        ensures
            event_handled(old(self).state@, final(self).state@, event, reports@, now, step),
    {
        match event {
            ActorEvent::TaskEnded(request_id) => {
                let _ended = self.state.remove(&request_id);
                LoopStep::Continue(Effect::Nothing)
            },
            ActorEvent::TaskLost => LoopStep::Continue(Effect::Nothing),
            ActorEvent::Command(cmd) => LoopStep::Continue(self.handle_command(cmd, reports, now)),
            ActorEvent::HandlesDropped => {
                LoopStep::Stop(self.state.cancel_all())
            },
        }
    }
}

/// What an optional configuration says.
pub open spec fn own_config(config: Option<SamplerConfig>) -> Option<ConfigView> {
    match config {
        Some(c) => Some(c@),
        None => None,
    }
}

/// What a command does to the state `old_state`, and what follows from it.
pub open spec fn command_handled(
    old_state: ActorView,
    new_state: ActorView,
    cmd: SamplerCommand,
    reports: Seq<CooldownReport>,
    now: u64,
    effect: Effect,
) -> bool {
    let s = ActorView { cooldowns: noted(old_state.cooldowns, reports, now), ..old_state };
    match cmd {
        SamplerCommand::Submit { request_id, request, config } => {
            let model = opt_text(request.model);
            let own = own_config(config);
            &&& effect matches Effect::Spawn(task) && {
                &&& task.request_id@ == request_id@
                &&& task.request == request
                &&& chain_view(task.chain@) == walked_chain(s, own)
                &&& task.start_index == walk_start(s, model, own, now)
                &&& task.start_index < task.chain@.len()
                &&& task.retry_policy == s.retry_policy
                &&& new_state.active.dom().contains(request_id@)
                &&& new_state.active[request_id@].cancel_token == task.cancel_token.made()
                &&& is_cancelled(s.active, request_id@, task.replaced)
            }
            &&& new_state.active.remove(request_id@) == s.active.remove(request_id@)
            &&& new_state == (ActorView {
                active: new_state.active,
                cooldowns: cooldowns_after_search(s, model, own, now),
                ..s
            })
        },
        SamplerCommand::Cancel { request_id } => {
            &&& effect matches Effect::Cancelled(cancelled) && is_cancelled(
                s.active,
                request_id@,
                cancelled,
            )
            &&& new_state == (ActorView { active: s.active.remove(request_id@), ..s })
        },
        SamplerCommand::UpdateConfig { config } => {
            &&& effect is Nothing
            &&& new_state == (ActorView { config: config@, ..s })
        },
        SamplerCommand::UpdateChain { chain } => {
            &&& effect is Nothing
            &&& new_state == (ActorView { chain: chain_view(chain@), ..s })
        },
        SamplerCommand::IsActive { request_id } => {
            &&& effect == Effect::Active(s.active.dom().contains(request_id@))
            &&& new_state == s
        },
        SamplerCommand::ActiveCount => {
            &&& effect matches Effect::Count(n) && s.active.dom().finite() && n
                == s.active.dom().len()
            &&& new_state == s
        },
        SamplerCommand::PollChain => {
            &&& effect matches Effect::Chain(chain) && chain_view(chain@) == s.chain
            &&& new_state == s
        },
    }
}

/// What an event of the run loop does to the state `old_state`, and how the loop goes on.
pub open spec fn event_handled(
    old_state: ActorView,
    new_state: ActorView,
    event: ActorEvent,
    reports: Seq<CooldownReport>,
    now: u64,
    step: LoopStep,
) -> bool {
    match event {
        ActorEvent::TaskEnded(request_id) => {
            &&& step matches LoopStep::Continue(effect) && effect is Nothing
            &&& new_state == (ActorView {
                active: old_state.active.remove(request_id@),
                ..old_state
            })
        },
        ActorEvent::TaskLost => {
            &&& step matches LoopStep::Continue(effect) && effect is Nothing
            &&& new_state == old_state
        },
        ActorEvent::Command(cmd) => {
            &&& step is Continue
            &&& command_handled(old_state, new_state, cmd, reports, now, step->Continue_0)
        },
        ActorEvent::HandlesDropped => {
            &&& step matches LoopStep::Stop(cancelled) && are_all_cancelled(
                old_state.active,
                cancelled@,
            )
            &&& new_state == (ActorView { active: Map::empty(), ..old_state })
        },
    }
}

} // verus!
