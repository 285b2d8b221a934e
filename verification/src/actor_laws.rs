//! What holds of cooldowns, of requests in flight and of the start of a walk.
use crate::actor::{
    base_start, command_handled, cooldowns_after_search, cooled_until, event_handled,
    expired_dropped, holds_cancelled, is_cooling, live_index, model_index, noted, own_config,
    walk_start, walked_chain, ActorEvent, ActorState, ActorView, CooldownReport, Effect, LoopStep,
    SamplerCommand, MAX_COOLDOWN_SECS,
};
use crate::cancellation::ActiveRequest;
use crate::sampler_config::{chain_view, ConfigView};
use vstd::prelude::*;

verus! {

proof fn lemma_model_index(chain: Seq<(Seq<char>, ConfigView)>, model: Seq<char>, from: int)
    requires
        0 <= from <= chain.len(),
    ensures
        from <= model_index(chain, model, from) <= chain.len(),
        model_index(chain, model, from) < chain.len() ==> chain[model_index(
            chain,
            model,
            from,
        )].1.model == model,
        forall|i: int|
            from <= i < model_index(chain, model, from) ==> (#[trigger] chain[i]).1.model != model,
    decreases chain.len() - from,
{
    if from < chain.len() && chain[from].1.model != model {
        lemma_model_index(chain, model, from + 1);
    }
}

proof fn lemma_live_index(
    chain: Seq<(Seq<char>, ConfigView)>,
    cooldowns: Map<Seq<char>, u128>,
    now: u64,
    from: int,
)
    requires
        0 <= from <= chain.len(),
    ensures
        from <= live_index(chain, cooldowns, now, from) <= chain.len(),
        live_index(chain, cooldowns, now, from) < chain.len() ==> !is_cooling(
            cooldowns,
            chain[live_index(chain, cooldowns, now, from)].0,
            now,
        ),
        forall|i: int|
            from <= i < live_index(chain, cooldowns, now, from) ==> is_cooling(
                cooldowns,
                (#[trigger] chain[i]).0,
                now,
            ),
    decreases chain.len() - from,
{
    if from < chain.len() && is_cooling(cooldowns, chain[from].0, now) {
        lemma_live_index(chain, cooldowns, now, from + 1);
    }
}

/// A request always has a provider to start with: its chain is never empty, and its walk starts
/// inside of it.
pub proof fn every_request_is_served(
    s: ActorView,
    model: Option<Seq<char>>,
    own: Option<ConfigView>,
    now: u64,
)
    ensures
        0 <= base_start(s, model, own) < walked_chain(s, own).len(),
        0 <= walk_start(s, model, own, now) < walked_chain(s, own).len(),
{
    let chain = walked_chain(s, own);
    if model is Some {
        lemma_model_index(chain, model->0, 0);
    }
    lemma_live_index(chain, s.cooldowns, now, base_start(s, model, own));
}

/// A walk never starts before the entry of the selected model, and passes over no provider but
/// those in cooldown.
pub proof fn only_cooling_entries_are_skipped(
    s: ActorView,
    model: Option<Seq<char>>,
    own: Option<ConfigView>,
    now: u64,
)
    ensures
        base_start(s, model, own) <= walk_start(s, model, own, now),
        forall|i: int|
            base_start(s, model, own) <= i < walk_start(s, model, own, now) ==> is_cooling(
                s.cooldowns,
                (#[trigger] walked_chain(s, own)[i]).0,
                now,
            ),
{
    every_request_is_served(s, model, own, now);
    lemma_live_index(
        walked_chain(s, own),
        s.cooldowns,
        now,
        base_start(s, model, own),
    );
}

/// A walk along the chain starts with a provider in cooldown only if all from the selected
/// model's entry on are in cooldown; it then starts at that entry, so that a chain in cooldown
/// still serves requests.
pub proof fn a_cooling_start_means_all_cool(
    s: ActorView,
    model: Option<Seq<char>>,
    now: u64,
    i: int,
)
    requires
        is_cooling(
            s.cooldowns,
            walked_chain(s, None)[walk_start(s, model, None, now)].0,
            now,
        ),
        base_start(s, model, None) <= i < walked_chain(s, None).len(),
    ensures
        walk_start(s, model, None, now) == base_start(s, model, None),
        is_cooling(s.cooldowns, walked_chain(s, None)[i].0, now),
{
    every_request_is_served(s, model, None, now);
    lemma_live_index(
        walked_chain(s, None),
        s.cooldowns,
        now,
        base_start(s, model, None),
    );
}

/// Once no provider is in cooldown any more, a walk starts at the selected model's entry again: a
/// limit that was reset is recovered from.
pub proof fn walks_recover(
    s: ActorView,
    model: Option<Seq<char>>,
    own: Option<ConfigView>,
    now: u64,
)
    requires
        forall|provider: Seq<char>| !#[trigger] is_cooling(s.cooldowns, provider, now),
    ensures
        walk_start(s, model, own, now) == base_start(s, model, own),
{
    every_request_is_served(s, model, own, now);
}

/// A request with a configuration of its own bypasses the chain and the cooldowns.
pub proof fn own_configuration_stands_alone(
    s: ActorView,
    model: Option<Seq<char>>,
    config: ConfigView,
    now: u64,
)
    ensures
        walked_chain(s, Some(config)).len() == 1,
        walked_chain(s, Some(config))[0].1 == config,
        walk_start(s, model, Some(config), now) == 0,
        cooldowns_after_search(s, model, Some(config), now) == s.cooldowns,
{
    every_request_is_served(s, model, Some(config), now);
}

/// Where the selected model has an entry, the installed chain is walked, and without cooldowns it
/// is walked from the first entry of that model.
pub proof fn walk_starts_at_the_selected_model(s: ActorView, model: Seq<char>, i: int)
    requires
        0 <= i < s.chain.len(),
        s.chain[i].1.model == model,
        forall|k: int| 0 <= k < i ==> (#[trigger] s.chain[k]).1.model != model,
    ensures
        walked_chain(s, None) == s.chain,
        base_start(s, Some(model), None) == i,
{
    lemma_model_index(s.chain, model, 0);
    let at = model_index(s.chain, model, 0);
    if at < i {
        assert(s.chain[at].1.model != model);
    }
}

/// Where the selected model has no entry in an installed chain, the chain is walked just as it is,
/// from its first entry on.
pub proof fn unlisted_model_starts_at_the_top(s: ActorView, model: Seq<char>)
    requires
        s.chain.len() > 0,
        forall|i: int| 0 <= i < s.chain.len() ==> (#[trigger] s.chain[i]).1.model != model,
    ensures
        walked_chain(s, None) == s.chain,
        base_start(s, Some(model), None) == 0,
{
    lemma_model_index(s.chain, model, 0);
}

/// A cooldown lasts from the report until its end, which is never further away than the bound.
pub proof fn cooldown_is_bounded(
    cooldowns: Map<Seq<char>, u128>,
    provider: Seq<char>,
    retry_after: Option<u64>,
    now: u64,
    later: u64,
)
    ensures
        cooled_until(retry_after, now) <= now + MAX_COOLDOWN_SECS * 1_000_000_000,
        is_cooling(
            cooldowns.insert(provider, cooled_until(retry_after, now)),
            provider,
            later,
        ) == (later < cooled_until(retry_after, now)),
        later >= now + MAX_COOLDOWN_SECS * 1_000_000_000 ==> !is_cooling(
            cooldowns.insert(provider, cooled_until(retry_after, now)),
            provider,
            later,
        ),
{
}

/// A report on one provider leaves the others as they were.
pub proof fn other_providers_are_unaffected(
    cooldowns: Map<Seq<char>, u128>,
    provider: Seq<char>,
    retry_after: Option<u64>,
    now: u64,
    other: Seq<char>,
    later: u64,
)
    requires
        other != provider,
    ensures
        is_cooling(
            cooldowns.insert(provider, cooled_until(retry_after, now)),
            other,
            later,
        ) == is_cooling(cooldowns, other, later),
{
}

/// To drop a cooldown that has run out changes no answer, now or later.
pub proof fn dropping_changes_no_answer(
    cooldowns: Map<Seq<char>, u128>,
    provider: Seq<char>,
    now: u64,
    other: Seq<char>,
    later: u64,
)
    requires
        now <= later,
    ensures
        is_cooling(expired_dropped(cooldowns, provider, now), other, later) == is_cooling(
            cooldowns,
            other,
            later,
        ),
{
}

/// To look for the start of a walk changes no answer on cooldowns, now or later.
pub proof fn searching_changes_no_answer(
    s: ActorView,
    model: Option<Seq<char>>,
    own: Option<ConfigView>,
    now: u64,
    provider: Seq<char>,
    later: u64,
)
    requires
        now <= later,
    ensures
        is_cooling(cooldowns_after_search(s, model, own, now), provider, later) == is_cooling(
            s.cooldowns,
            provider,
            later,
        ),
{
    every_request_is_served(s, model, own, now);
    lemma_live_index(
        walked_chain(s, own),
        s.cooldowns,
        now,
        base_start(s, model, own),
    );
}

/// However many reports come, no provider cools for longer than the bound from the last of them
/// on, if none did before.
pub proof fn reports_keep_the_bound(
    cooldowns: Map<Seq<char>, u128>,
    reports: Seq<CooldownReport>,
    now: u64,
    provider: Seq<char>,
)
    requires
        cooldowns.dom().contains(provider) ==> cooldowns[provider] <= now + MAX_COOLDOWN_SECS
            * 1_000_000_000,
        noted(cooldowns, reports, now).dom().contains(provider),
    ensures
        noted(cooldowns, reports, now)[provider] <= now + MAX_COOLDOWN_SECS * 1_000_000_000,
    decreases reports.len(),
{
    if reports.len() > 0 && reports.last().0@ != provider {
        reports_keep_the_bound(cooldowns, reports.drop_last(), now, provider);
    }
}

/// A request that was taken in and then cancelled, or whose task has ended, leaves no trace, and
/// the other requests are as they were.
pub proof fn register_then_remove(
    active: Map<Seq<char>, ActiveRequest>,
    id: Seq<char>,
    request: ActiveRequest,
)
    ensures
        active.insert(id, request).dom().contains(id),
        active.insert(id, request).remove(id) == active.remove(id),
        !active.dom().contains(id) ==> active.insert(id, request).remove(id) == active,
{
    assert(active.insert(id, request).remove(id) =~= active.remove(id));
    if !active.dom().contains(id) {
        assert(active.insert(id, request).remove(id) =~= active);
    }
}

/// A command changes only what it is about: the chain and the configuration change by their own
/// commands alone, and the retry policy never does.
pub proof fn commands_change_only_their_own(
    old_state: ActorView,
    new_state: ActorView,
    cmd: SamplerCommand,
    reports: Seq<CooldownReport>,
    now: u64,
    effect: Effect,
)
    requires
        command_handled(old_state, new_state, cmd, reports, now, effect),
    ensures
        !(cmd is UpdateChain) ==> new_state.chain == old_state.chain,
        !(cmd is UpdateConfig) ==> new_state.config == old_state.config,
        new_state.retry_policy == old_state.retry_policy,
        !(cmd is Submit) && !(cmd is Cancel) ==> new_state.active == old_state.active,
        effect is Spawn <==> cmd is Submit,
{
}

/// A submitted request is in flight, a cancelled one is not, and no command touches another
/// request.
pub proof fn commands_touch_no_other_request(
    old_state: ActorView,
    new_state: ActorView,
    cmd: SamplerCommand,
    reports: Seq<CooldownReport>,
    now: u64,
    effect: Effect,
    other: Seq<char>,
)
    requires
        command_handled(old_state, new_state, cmd, reports, now, effect),
    ensures
        match cmd {
            SamplerCommand::Submit { request_id, .. } => {
                &&& new_state.active.dom().contains(request_id@)
                &&& other != request_id@ ==> new_state.active.dom().contains(other)
                    == old_state.active.dom().contains(other)
            },
            SamplerCommand::Cancel { request_id } => {
                &&& !new_state.active.dom().contains(request_id@)
                &&& other != request_id@ ==> new_state.active.dom().contains(other)
                    == old_state.active.dom().contains(other)
            },
            _ => new_state.active.dom().contains(other) == old_state.active.dom().contains(other),
        },
{
    match cmd {
        SamplerCommand::Submit { request_id, .. } => {
            let rest = old_state.active.remove(request_id@);
            assert(new_state.active.remove(request_id@) == rest);
            if other != request_id@ {
                assert(rest.dom().contains(other) == old_state.active.dom().contains(other));
                assert(new_state.active.remove(request_id@).dom().contains(other)
                    == new_state.active.dom().contains(other));
            }
        },
        _ => {},
    }
}

/// To submit a request under an id that is in flight cancels the request that was there and puts
/// the new one in its place, with a token made for it alone: no more requests are in flight than
/// before, and every other one is the same.
pub proof fn resubmitting_replaces(
    old_state: ActorView,
    new_state: ActorView,
    cmd: SamplerCommand,
    reports: Seq<CooldownReport>,
    now: u64,
    effect: Effect,
    other: Seq<char>,
)
    requires
        command_handled(old_state, new_state, cmd, reports, now, effect),
        cmd is Submit,
        old_state.active.dom().contains(cmd->Submit_request_id@),
    ensures
        ({
            let id = cmd->Submit_request_id@;
            let task = effect->Spawn_0;
            &&& effect is Spawn
            &&& task.replaced is Some
            &&& task.replaced->0.request() == old_state.active[id]
            &&& new_state.active.dom() == old_state.active.dom()
            &&& new_state.active[id].cancel_token == task.cancel_token.made()
            &&& other != id && old_state.active.dom().contains(other) ==> new_state.active[other]
                == old_state.active[other]
        }),
{
    let id = cmd->Submit_request_id@;
    let rest = old_state.active.remove(id);
    assert(new_state.active.remove(id) == rest);
    assert forall|k: Seq<char>|
        new_state.active.dom().contains(k) == old_state.active.dom().contains(k) by {
        if k != id {
            assert(rest.dom().contains(k) == old_state.active.dom().contains(k));
            assert(new_state.active.remove(id).dom().contains(k)
                == new_state.active.dom().contains(k));
        }
    }
    assert(new_state.active.dom() =~= old_state.active.dom());
    if other != id && old_state.active.dom().contains(other) {
        assert(rest[other] == old_state.active[other]);
        assert(new_state.active.remove(id)[other] == new_state.active[other]);
    }
}

/// A provider that asked to wait is in cooldown for as long as it asked, up to five minutes, and
/// one that did not say for five minutes: up to that time, and from then on no more.
pub proof fn cooldown_lasts_as_asked(
    cooldowns: Map<Seq<char>, u128>,
    provider: Seq<char>,
    secs: u64,
    now: u64,
    later: u64,
)
    ensures
        is_cooling(cooldowns.insert(provider, cooled_until(Some(secs), now)), provider, later) == (
        later < now + (if secs < 300 {
            secs as int
        } else {
            300
        }) * 1_000_000_000),
        is_cooling(cooldowns.insert(provider, cooled_until(None, now)), provider, later) == (later
            < now + 300 * 1_000_000_000),
{
}

/// A provider is in cooldown as long as the time noted for it has not come, and one of which
/// nothing is noted is not.
pub proof fn cooldown_ends_at_the_time_noted(
    cooldowns: Map<Seq<char>, u128>,
    provider: Seq<char>,
    until: u128,
    now: u64,
)
    ensures
        is_cooling(cooldowns.insert(provider, until), provider, now) == (now < until),
        !is_cooling(cooldowns.remove(provider), provider, now),
{
}

/// To ask after a provider drops its cooldown once it has run out, keeps it before that, and leaves
/// the cooldown of every other provider.
pub proof fn asking_drops_only_what_has_run_out(
    cooldowns: Map<Seq<char>, u128>,
    provider: Seq<char>,
    now: u64,
    other: Seq<char>,
)
    ensures
        cooldowns.dom().contains(provider) && now < cooldowns[provider] ==> expired_dropped(
            cooldowns,
            provider,
            now,
        ) == cooldowns,
        cooldowns.dom().contains(provider) && now >= cooldowns[provider] ==> !expired_dropped(
            cooldowns,
            provider,
            now,
        ).dom().contains(provider),
        other != provider ==> expired_dropped(cooldowns, provider, now).dom().contains(other)
            == cooldowns.dom().contains(other),
        other != provider && cooldowns.dom().contains(other) ==> expired_dropped(
            cooldowns,
            provider,
            now,
        )[other] == cooldowns[other],
{
}

/// Of several reports on a provider the last one counts, whatever others say.
pub proof fn the_last_report_counts(
    cooldowns: Map<Seq<char>, u128>,
    reports: Seq<CooldownReport>,
    now: u64,
    i: int,
)
    requires
        0 <= i < reports.len(),
        forall|j: int| i < j < reports.len() ==> (#[trigger] reports[j]).0@ != reports[i].0@,
    ensures
        noted(cooldowns, reports, now).dom().contains(reports[i].0@),
        noted(cooldowns, reports, now)[reports[i].0@] == now + (match reports[i].1 {
            Some(secs) => if secs < 300 {
                secs as int
            } else {
                300
            },
            None => 300,
        }) * 1_000_000_000,
    decreases reports.len(),
{
    let front = reports.drop_last();
    if i < front.len() {
        assert forall|j: int| i < j < front.len() implies (#[trigger] front[j]).0@
            != front[i].0@ by {
            assert(reports[j].0@ != reports[i].0@);
        }
        the_last_report_counts(cooldowns, front, now, i);
        assert(reports[reports.len() - 1].0@ != reports[i].0@);
    }
}

/// A provider on which there is no report keeps its cooldown.
pub proof fn unreported_providers_keep_their_cooldown(
    cooldowns: Map<Seq<char>, u128>,
    reports: Seq<CooldownReport>,
    now: u64,
    provider: Seq<char>,
)
    requires
        forall|i: int| 0 <= i < reports.len() ==> (#[trigger] reports[i]).0@ != provider,
    ensures
        noted(cooldowns, reports, now).dom().contains(provider) == cooldowns.dom().contains(
            provider,
        ),
        cooldowns.dom().contains(provider) ==> noted(cooldowns, reports, now)[provider]
            == cooldowns[provider],
    decreases reports.len(),
{
    if reports.len() > 0 {
        let front = reports.drop_last();
        assert forall|i: int| 0 <= i < front.len() implies (#[trigger] front[i]).0@ != provider by {
            assert(reports[i].0@ != provider);
        }
        assert(reports[reports.len() - 1].0@ != provider);
        unreported_providers_keep_their_cooldown(cooldowns, front, now, provider);
    }
}

/// A request without a configuration of its own walks the installed chain, or, without one, the
/// session's configuration alone; without a selected model it starts at the first entry.
pub proof fn the_installed_chain_is_walked(s: ActorView, config: ConfigView)
    ensures
        s.chain.len() > 0 ==> walked_chain(s, None) == s.chain,
        s.chain.len() == 0 ==> walked_chain(s, None) =~= seq![("provider"@, s.config)],
        walked_chain(s, Some(config)) =~= seq![("provider"@, config)],
        base_start(s, None, None) == 0,
        base_start(s, None, Some(config)) == 0,
{
}

/// To look for the start of a walk notes no cooldown and changes none: it can only forget one.
pub proof fn searching_only_forgets(
    s: ActorView,
    model: Option<Seq<char>>,
    own: Option<ConfigView>,
    now: u64,
    provider: Seq<char>,
)
    ensures
        cooldowns_after_search(s, model, own, now).dom().contains(provider) ==> {
            &&& s.cooldowns.dom().contains(provider)
            &&& cooldowns_after_search(s, model, own, now)[provider] == s.cooldowns[provider]
        },
        is_cooling(s.cooldowns, provider, now) ==> cooldowns_after_search(
            s,
            model,
            own,
            now,
        ).dom().contains(provider),
{
    every_request_is_served(s, model, own, now);
    lemma_live_index(walked_chain(s, own), s.cooldowns, now, base_start(s, model, own));
}

/// Each command does what it says: a new configuration or chain is the one given, questions are
/// answered from the state, and a request is handed on with its id, the chain it walks, the start
/// of the walk and the retry policy.
pub proof fn commands_do_what_they_say(
    old_state: ActorView,
    new_state: ActorView,
    cmd: SamplerCommand,
    reports: Seq<CooldownReport>,
    now: u64,
    effect: Effect,
)
    requires
        command_handled(old_state, new_state, cmd, reports, now, effect),
    ensures
        match cmd {
            SamplerCommand::Submit { request_id, request, config } => {
                let cooled = ActorView {
                    cooldowns: noted(old_state.cooldowns, reports, now),
                    ..old_state
                };
                let own = match config {
                    Some(c) => Some(c@),
                    None => None,
                };
                let model = match request.model {
                    Some(m) => Some(m@),
                    None => None,
                };
                &&& effect is Spawn
                &&& effect->Spawn_0.request_id@ == request_id@
                &&& effect->Spawn_0.request == request
                &&& effect->Spawn_0.chain@.len() == walked_chain(cooled, own).len()
                &&& forall|i: int|
                    0 <= i < effect->Spawn_0.chain@.len() ==> {
                        &&& (#[trigger] effect->Spawn_0.chain@[i]).0@ == walked_chain(
                            cooled,
                            own,
                        )[i].0
                        &&& effect->Spawn_0.chain@[i].1@ == walked_chain(cooled, own)[i].1
                    }
                &&& effect->Spawn_0.start_index == walk_start(cooled, model, own, now)
                &&& effect->Spawn_0.retry_policy == old_state.retry_policy
                &&& effect->Spawn_0.replaced is Some == old_state.active.dom().contains(
                    request_id@,
                )
                &&& new_state.active.dom().contains(request_id@)
                &&& new_state.active[request_id@].cancel_token
                    == effect->Spawn_0.cancel_token.made()
            },
            SamplerCommand::Cancel { request_id } => {
                &&& effect is Cancelled
                &&& effect->Cancelled_0 is Some == old_state.active.dom().contains(request_id@)
                &&& effect->Cancelled_0 is Some ==> effect->Cancelled_0->0.request()
                    == old_state.active[request_id@]
                &&& new_state.active =~= old_state.active.remove(request_id@)
            },
            SamplerCommand::UpdateConfig { config } => new_state.config == config@,
            SamplerCommand::UpdateChain { chain } => {
                &&& new_state.chain.len() == chain@.len()
                &&& forall|i: int|
                    0 <= i < chain@.len() ==> #[trigger] new_state.chain[i] == (
                        chain@[i].0@,
                        chain@[i].1@,
                    )
            },
            SamplerCommand::IsActive { request_id } => effect == Effect::Active(
                old_state.active.dom().contains(request_id@),
            ),
            SamplerCommand::ActiveCount => effect is Count && effect->Count_0
                == old_state.active.dom().len(),
            SamplerCommand::PollChain => {
                &&& effect is Chain
                &&& effect->Chain_0@.len() == old_state.chain.len()
                &&& forall|i: int|
                    0 <= i < old_state.chain.len() ==> {
                        &&& (#[trigger] effect->Chain_0@[i]).0@ == old_state.chain[i].0
                        &&& effect->Chain_0@[i].1@ == old_state.chain[i].1
                    }
            },
        },
        !(cmd is Submit) ==> new_state.cooldowns == noted(old_state.cooldowns, reports, now),
{
    match cmd {
        SamplerCommand::Submit { request_id, request, config } => {
            let cooled = ActorView {
                cooldowns: noted(old_state.cooldowns, reports, now),
                ..old_state
            };
            let task = effect->Spawn_0;
            let wanted = walked_chain(cooled, own_config(config));
            assert(chain_view(task.chain@) == wanted);
            assert forall|i: int| 0 <= i < task.chain@.len() implies {
                &&& (#[trigger] task.chain@[i]).0@ == wanted[i].0
                &&& task.chain@[i].1@ == wanted[i].1
            } by {
                assert(chain_view(task.chain@)[i] == wanted[i]);
            }
        },
        SamplerCommand::PollChain => {
            let chain = effect->Chain_0;
            assert forall|i: int| 0 <= i < old_state.chain.len() implies {
                &&& (#[trigger] chain@[i]).0@ == old_state.chain[i].0
                &&& chain@[i].1@ == old_state.chain[i].1
            } by {
                assert(chain_view(chain@)[i] == old_state.chain[i]);
            }
        },
        _ => {},
    }
}

/// The end of a task takes out its request alone, a lost task nothing; when nobody can send
/// commands any more the loop stops and nothing is left in flight; and a command is handled as such.
pub proof fn loop_events_do_what_they_say(
    old_state: ActorView,
    new_state: ActorView,
    event: ActorEvent,
    reports: Seq<CooldownReport>,
    now: u64,
    step: LoopStep,
)
    requires
        event_handled(old_state, new_state, event, reports, now, step),
    ensures
        match event {
            ActorEvent::TaskEnded(id) => {
                &&& step is Continue
                &&& new_state.active =~= old_state.active.remove(id@)
                &&& new_state.config == old_state.config
                &&& new_state.chain == old_state.chain
                &&& new_state.cooldowns == old_state.cooldowns
                &&& new_state.retry_policy == old_state.retry_policy
            },
            ActorEvent::TaskLost => step is Continue && new_state == old_state,
            ActorEvent::Command(cmd) => {
                &&& step is Continue
                &&& command_handled(old_state, new_state, cmd, reports, now, step->Continue_0)
            },
            ActorEvent::HandlesDropped => {
                &&& step is Stop
                &&& new_state.active =~= Map::empty()
                &&& step->Stop_0@.len() == old_state.active.dom().len()
                &&& forall|id: Seq<char>| #[trigger]
                    old_state.active.dom().contains(id) ==> exists|i: int|
                        0 <= i < step->Stop_0@.len() && (#[trigger] step->Stop_0@[i]).request()
                            == old_state.active[id]
            },
        },
        step is Stop == event is HandlesDropped,
{
    match event {
        ActorEvent::HandlesDropped => {
            let gone = step->Stop_0@;
            assert forall|id: Seq<char>| #[trigger]
                old_state.active.dom().contains(id) implies exists|i: int|
                0 <= i < gone.len() && (#[trigger] gone[i]).request() == old_state.active[id] by {
                let i = choose|i: int| holds_cancelled(gone, i, old_state.active[id]);
                assert(gone[i].request() == old_state.active[id]);
            }
        },
        _ => {},
    }
}

/// The actor's state says what its parts hold.
pub proof fn the_state_says_what_it_holds(state: ActorState, i: int)
    ensures
        state@.active == state.active_requests@,
        state@.config == state.config@,
        state@.retry_policy == state.retry_policy,
        state@.cooldowns == state.cooldowns@,
        state@.chain.len() == state.failover_chain@.len(),
        0 <= i < state.failover_chain@.len() ==> state@.chain[i] == (
            state.failover_chain@[i].0@,
            state.failover_chain@[i].1@,
        ),
{
}

} // verus!
