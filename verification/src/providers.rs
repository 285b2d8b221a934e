//! The ordered failover chain: the configured order of providers, each with what is known of it
//! from the catalogue laid over what the configuration resolved.
use crate::copilot_headers::CopilotHeaderInjector;
use crate::presets::{preset_for, preset_named, slice_texts, PresetView};
use crate::sampler_config::{
    chain_view, names_header, pair_texts, put_header, with_header, ConfigView, FailoverChain,
    SamplerConfig,
};
use crate::string_map::StringMap;
use crate::text::{joined, texts};
use vstd::prelude::*;

verus! {

/// What a `[model.<name>]` section sets itself.
#[derive(Debug)]
pub struct ConfigModelOverride {
    pub base_url: Option<String>,
    pub api_key: Option<String>,
    pub model: Option<String>,
    pub keyless: bool,
}

/// The `[failover]` section.
#[derive(Debug)]
pub struct FailoverConfig {
    pub order: Vec<String>,
}

/// The part of the configuration that is about providers.
pub struct Config {
    pub failover: FailoverConfig,
    pub config_models: StringMap<ConfigModelOverride>,
}

/// Whether the user set an endpoint for a provider.
pub open spec fn has_own_url(models: Map<Seq<char>, ConfigModelOverride>, name: Seq<char>) -> bool {
    models.dom().contains(name) && models[name].base_url is Some
}

/// Whether the user marked a provider as one without a key.
pub open spec fn is_marked_keyless(
    models: Map<Seq<char>, ConfigModelOverride>,
    name: Seq<char>,
) -> bool {
    models.dom().contains(name) && models[name].keyless
}

/// `headers` with all of `more` laid over them, one after the other.
pub open spec fn with_headers(
    headers: Seq<(Seq<char>, Seq<char>)>,
    more: Seq<(Seq<char>, Seq<char>)>,
) -> Seq<(Seq<char>, Seq<char>)>
    decreases more.len(),
{
    if more.len() == 0 {
        headers
    } else {
        with_header(with_headers(headers, more.drop_last()), more.last().0, more.last().1)
    }
}

/// A configuration with what is known of a provider laid over it. The user's endpoint stays; every
/// other known fact wins.
pub open spec fn identified(config: ConfigView, preset: PresetView, own_url: bool) -> ConfigView {
    ConfigView {
        base_url: if own_url {
            config.base_url
        } else {
            preset.base_url
        },
        api_backend: preset.api_backend,
        auth_scheme: preset.auth_scheme,
        extra_headers: with_headers(config.extra_headers, preset.extra_headers),
        header_injector: if preset.needs_dynamic_id {
            Some(CopilotHeaderInjector)
        } else {
            config.header_injector
        },
        ..config
    }
}

/// Whether a provider is used without a key. Of a provider in the catalogue that is known; of any
/// other the configuration or the user says so.
pub open spec fn goes_keyless(
    config: ConfigView,
    models: Map<Seq<char>, ConfigModelOverride>,
    name: Seq<char>,
) -> bool {
    match preset_named(name) {
        Some(preset) => preset.keyless,
        None => config.keyless || is_marked_keyless(models, name),
    }
}

/// The configuration that a provider is used with.
pub open spec fn layered(
    config: ConfigView,
    models: Map<Seq<char>, ConfigModelOverride>,
    name: Seq<char>,
) -> ConfigView {
    let known = match preset_named(name) {
        Some(preset) => identified(config, preset, has_own_url(models, name)),
        None => config,
    };
    let keyless = goes_keyless(config, models, name);
    ConfigView {
        keyless,
        api_key: if keyless {
            None
        } else {
            known.api_key
        },
        ..known
    }
}

/// What comes of one name of the order.
pub enum ChainStep {
    Entry(ConfigView),
    /// Nothing is configured or built in under the name.
    Unknown,
    /// There is no key, and one is needed.
    NoKey,
}

/// What comes of the name `name`, where `resolved` is what the configuration resolved for each
/// provider.
pub open spec fn chain_step(
    models: Map<Seq<char>, ConfigModelOverride>,
    resolved: Map<Seq<char>, SamplerConfig>,
    name: Seq<char>,
) -> ChainStep {
    if !resolved.dom().contains(name) {
        ChainStep::Unknown
    } else {
        let config = layered(resolved[name]@, models, name);
        if config.api_key is None && !config.keyless {
            ChainStep::NoKey
        } else {
            ChainStep::Entry(config)
        }
    }
}

/// The warning on a name under which nothing is configured or built in.
pub open spec fn unknown_warning(name: Seq<char>) -> Seq<char> {
    name + ": skipped, no [model."@ + name + "] entry and no built-in match"@
}

/// The warning on a provider without a key.
pub open spec fn no_key_warning(name: Seq<char>) -> Seq<char> {
    name + ": skipped, no api_key configured"@
}

/// The chain that an order gives.
pub open spec fn chain_of(
    models: Map<Seq<char>, ConfigModelOverride>,
    resolved: Map<Seq<char>, SamplerConfig>,
    order: Seq<Seq<char>>,
) -> Seq<(Seq<char>, ConfigView)>
    decreases order.len(),
{
    if order.len() == 0 {
        Seq::empty()
    } else {
        let before = chain_of(models, resolved, order.drop_last());
        match chain_step(models, resolved, order.last()) {
            ChainStep::Entry(config) => before.push((order.last(), config)),
            _ => before,
        }
    }
}

/// The warnings that an order gives.
pub open spec fn warnings_of(
    models: Map<Seq<char>, ConfigModelOverride>,
    resolved: Map<Seq<char>, SamplerConfig>,
    order: Seq<Seq<char>>,
) -> Seq<Seq<char>>
    decreases order.len(),
{
    if order.len() == 0 {
        Seq::empty()
    } else {
        let before = warnings_of(models, resolved, order.drop_last());
        match chain_step(models, resolved, order.last()) {
            ChainStep::Entry(_) => before,
            ChainStep::Unknown => before.push(unknown_warning(order.last())),
            ChainStep::NoKey => before.push(no_key_warning(order.last())),
        }
    }
}

fn add_headers(headers: &mut Vec<(String, String)>, more: &Vec<(&'static str, &'static str)>)
    ensures
        pair_texts(final(headers)@) == with_headers(
            pair_texts(old(headers)@),
            slice_texts(more@),
        ),
{
    let ghost wanted = slice_texts(more@);
    let mut i: usize = 0;
    assert(wanted.take(0) =~= Seq::empty());
    while i < more.len()
        invariant
            i <= more@.len(),
            wanted == slice_texts(more@),
            pair_texts(headers@) == with_headers(
                pair_texts(old(headers)@),
                wanted.take(i as int),
            ),
        decreases more@.len() - i,
    {
        put_header(headers, more[i].0, more[i].1);
        i = i + 1;
        assert(wanted.take(i as int).drop_last() =~= wanted.take(i - 1));
        assert(wanted.take(i as int).last() == wanted[i - 1]);
    }
    assert(wanted.take(more@.len() as int) =~= wanted);
}

/// Lays what is known of the provider `name` over what the configuration resolved for it.
pub fn layer_provider(cfg: &Config, name: &str, resolved: &SamplerConfig) -> (config: SamplerConfig)
    ensures
        config@ == layered(resolved@, cfg.config_models@, name@),
{
    let mut config = resolved.copy();
    let own = cfg.config_models.get(name);
    let own_url = match own {
        Some(model) => model.base_url.is_some(),
        None => false,
    };
    let mut keyless = config.keyless || match own {
        Some(model) => model.keyless,
        None => false,
    };
    match preset_for(name) {
        Some(preset) => {
            if !own_url {
                config.base_url = preset.base_url.to_owned();
            }
            config.api_backend = preset.api_backend;
            config.auth_scheme = preset.auth_scheme;
            add_headers(&mut config.extra_headers, &preset.extra_headers);
            if preset.needs_dynamic_id {
                config.header_injector = Some(CopilotHeaderInjector);
            }
            keyless = preset.keyless;
        },
        None => {},
    }
    config.keyless = keyless;
    if keyless {
        config.api_key = None;
    }
    config
}

/// Walks the configured order and gives the chain with its warnings. `resolved` is what the model
/// configuration gives for each provider, with its credentials. A provider without credentials
/// that needs them is left out with a warning, so that one bad key does not end the whole chain.
pub fn build_failover_chain(cfg: &Config, resolved: &StringMap<SamplerConfig>) -> (r: (
    FailoverChain,
    Vec<String>,
))
    ensures
        chain_view(r.0@) == chain_of(
            cfg.config_models@,
            resolved@,
            texts(cfg.failover.order@),
        ),
        texts(r.1@) == warnings_of(cfg.config_models@, resolved@, texts(cfg.failover.order@)),
{
    let ghost order = texts(cfg.failover.order@);
    let ghost models = cfg.config_models@;
    let mut chain: FailoverChain = Vec::new();
    let mut warnings: Vec<String> = Vec::new();
    let mut i: usize = 0;
    assert(order.take(0) =~= Seq::empty());
    assert(chain_view(chain@) =~= Seq::empty());
    assert(texts(warnings@) =~= Seq::empty());
    while i < cfg.failover.order.len()
        invariant
            i <= cfg.failover.order@.len(),
            order == texts(cfg.failover.order@),
            models == cfg.config_models@,
            chain_view(chain@) == chain_of(models, resolved@, order.take(i as int)),
            texts(warnings@) == warnings_of(models, resolved@, order.take(i as int)),
        decreases cfg.failover.order@.len() - i,
    {
        let name = cfg.failover.order[i].as_str();
        proof {
            let longer = order.take(i + 1);
            assert(longer.drop_last() =~= order.take(i as int));
            assert(longer.last() == name@);
        }
        let ghost chain_before = chain@;
        let ghost warnings_before = warnings@;
        match resolved.get(name) {
            None => {
                let start = joined(name, ": skipped, no [model.");
                let middle = joined(start.as_str(), name);
                let warning = joined(middle.as_str(), "] entry and no built-in match");
                warnings.push(warning);
                assert(texts(warnings@) =~= texts(warnings_before).push(unknown_warning(name@)));
            },
            Some(entry) => {
                let config = layer_provider(cfg, name, entry);
                if config.api_key.is_none() && !config.keyless {
                    warnings.push(joined(name, ": skipped, no api_key configured"));
                    assert(texts(warnings@) =~= texts(warnings_before).push(
                        no_key_warning(name@),
                    ));
                } else {
                    let ghost view = config@;
                    chain.push((name.to_owned(), config));
                    assert(chain_view(chain@) =~= chain_view(chain_before).push((name@, view)));
                }
            },
        }
        i = i + 1;
    }
    assert(order.take(order.len() as int) =~= order);
    (chain, warnings)
}

/// Whether a name of the order gives an entry of the chain.
pub open spec fn is_usable(
    models: Map<Seq<char>, ConfigModelOverride>,
    resolved: Map<Seq<char>, SamplerConfig>,
    name: Seq<char>,
) -> bool {
    chain_step(models, resolved, name) is Entry
}

/// The names of the order that give an entry, in order.
pub open spec fn usable_names(
    models: Map<Seq<char>, ConfigModelOverride>,
    resolved: Map<Seq<char>, SamplerConfig>,
    order: Seq<Seq<char>>,
) -> Seq<Seq<char>> {
    order.filter(|name: Seq<char>| is_usable(models, resolved, name))
}

/// The chain keeps the configured order: its names are the usable ones of the order, and each
/// other name of the order gives exactly one warning.
pub proof fn chain_keeps_the_order(
    models: Map<Seq<char>, ConfigModelOverride>,
    resolved: Map<Seq<char>, SamplerConfig>,
    order: Seq<Seq<char>>,
)
    ensures
        ({
            let chain = chain_of(models, resolved, order);
            &&& Seq::new(chain.len(), |i: int| chain[i].0) == usable_names(models, resolved, order)
            &&& chain.len() + warnings_of(models, resolved, order).len() == order.len()
        }),
    decreases order.len(),
{
    let usable = |name: Seq<char>| is_usable(models, resolved, name);
    let chain = chain_of(models, resolved, order);
    reveal(Seq::filter);
    if order.len() == 0 {
        assert(Seq::new(chain.len(), |i: int| chain[i].0) =~= order.filter(usable));
    } else {
        let front = order.drop_last();
        let before = chain_of(models, resolved, front);
        chain_keeps_the_order(models, resolved, front);
        assert(Seq::new(chain.len(), |i: int| chain[i].0) =~= if usable(order.last()) {
            Seq::new(before.len(), |i: int| before[i].0).push(order.last())
        } else {
            Seq::new(before.len(), |i: int| before[i].0)
        });
    }
}

/// Every entry of a chain stands for a name of the order, with the configuration laid out for it,
/// and can be used: it has a key, or needs none and has none.
pub proof fn chain_entries_are_usable(
    models: Map<Seq<char>, ConfigModelOverride>,
    resolved: Map<Seq<char>, SamplerConfig>,
    order: Seq<Seq<char>>,
    i: int,
)
    requires
        0 <= i < chain_of(models, resolved, order).len(),
    ensures
        ({
            let (name, config) = chain_of(models, resolved, order)[i];
            &&& order.contains(name)
            &&& resolved.dom().contains(name)
            &&& config == layered(resolved[name]@, models, name)
            &&& config.keyless == goes_keyless(resolved[name]@, models, name)
            &&& config.keyless == (config.api_key is None)
        }),
    decreases order.len(),
{
    let front = order.drop_last();
    let before = chain_of(models, resolved, front);
    if i < before.len() {
        chain_entries_are_usable(models, resolved, front, i);
        let name = before[i].0;
        let k = choose|k: int| 0 <= k < front.len() && front[k] == name;
        assert(order[k] == name);
    } else {
        assert(order[order.len() - 1] == order.last());
    }
}

/// A chain is built name by name: what one name gives depends on no other, so a bad entry takes
/// nothing away from the rest.
pub proof fn names_are_independent(
    models: Map<Seq<char>, ConfigModelOverride>,
    resolved: Map<Seq<char>, SamplerConfig>,
    first: Seq<Seq<char>>,
    second: Seq<Seq<char>>,
)
    ensures
        chain_of(models, resolved, first + second) == chain_of(models, resolved, first) + chain_of(
            models,
            resolved,
            second,
        ),
        warnings_of(models, resolved, first + second) == warnings_of(models, resolved, first)
            + warnings_of(models, resolved, second),
    decreases second.len(),
{
    let whole = first + second;
    if second.len() == 0 {
        assert(whole =~= first);
        assert(chain_of(models, resolved, whole) =~= chain_of(models, resolved, first) + chain_of(
            models,
            resolved,
            second,
        ));
        assert(warnings_of(models, resolved, whole) =~= warnings_of(models, resolved, first)
            + warnings_of(models, resolved, second));
    } else {
        names_are_independent(models, resolved, first, second.drop_last());
        assert(whole.drop_last() =~= first + second.drop_last());
        assert(chain_of(models, resolved, whole) =~= chain_of(models, resolved, first) + chain_of(
            models,
            resolved,
            second,
        ));
        assert(warnings_of(models, resolved, whole) =~= warnings_of(models, resolved, first)
            + warnings_of(models, resolved, second));
    }
}

/// What is known of a provider is its identity: whatever the configuration says, its protocol, its
/// key scheme, its need of a key and its request ids are those of the catalogue. Its endpoint is
/// too, unless the user set one.
pub proof fn identity_wins(
    config: ConfigView,
    models: Map<Seq<char>, ConfigModelOverride>,
    name: Seq<char>,
)
    requires
        preset_named(name) is Some,
    ensures
        ({
            let preset = preset_named(name)->0;
            let used = layered(config, models, name);
            &&& used.api_backend == preset.api_backend
            &&& used.auth_scheme == preset.auth_scheme
            &&& preset.needs_dynamic_id ==> used.header_injector is Some
            &&& used.keyless == preset.keyless
            &&& used.api_key == if preset.keyless {
                None
            } else {
                config.api_key
            }
            &&& used.base_url == if has_own_url(models, name) {
                config.base_url
            } else {
                preset.base_url
            }
            &&& used.model == config.model
        }),
{
}

proof fn lemma_with_header_holds(
    headers: Seq<(Seq<char>, Seq<char>)>,
    name: Seq<char>,
    value: Seq<char>,
)
    ensures
        with_header(headers, name, value).contains((name, value)),
        forall|h: (Seq<char>, Seq<char>)|
            h.0 != name && #[trigger] headers.contains(h) ==> with_header(
                headers,
                name,
                value,
            ).contains(h),
{
    let after = with_header(headers, name, value);
    if exists|i: int| names_header(headers, name, i) {
        let some = choose|i: int| names_header(headers, name, i);
        lemma_first_name(headers, name, some);
        let at = choose|i: int|
            names_header(headers, name, i) && forall|k: int|
                0 <= k < i ==> (#[trigger] headers[k]).0 != name;
        assert(after == headers.update(at, (name, value)));
        assert(after[at] == (name, value));
    } else {
        assert(after[headers.len() as int] == (name, value));
    }
    assert forall|h: (Seq<char>, Seq<char>)|
        h.0 != name && #[trigger] headers.contains(h) implies after.contains(h) by {
        let k = choose|k: int| 0 <= k < headers.len() && headers[k] == h;
        assert(after[k] == h);
    }
}

proof fn lemma_first_name(headers: Seq<(Seq<char>, Seq<char>)>, name: Seq<char>, i: int)
    requires
        names_header(headers, name, i),
    ensures
        exists|at: int|
            names_header(headers, name, at) && forall|k: int|
                0 <= k < at ==> (#[trigger] headers[k]).0 != name,
    decreases i,
{
    if exists|k: int| 0 <= k < i && (#[trigger] headers[k]).0 == name {
        let k = choose|k: int| 0 <= k < i && (#[trigger] headers[k]).0 == name;
        lemma_first_name(headers, name, k);
    } else {
        assert(names_header(headers, name, i) && forall|k: int|
            0 <= k < i ==> (#[trigger] headers[k]).0 != name);
    }
}

/// Every header laid over others is there in the end, if no later one has the same name.
pub proof fn laid_headers_are_there(
    headers: Seq<(Seq<char>, Seq<char>)>,
    more: Seq<(Seq<char>, Seq<char>)>,
    i: int,
)
    requires
        0 <= i < more.len(),
        forall|k: int| i < k < more.len() ==> (#[trigger] more[k]).0 != more[i].0,
    ensures
        with_headers(headers, more).contains(more[i]),
    decreases more.len(),
{
    let front = more.drop_last();
    lemma_with_header_holds(with_headers(headers, front), more.last().0, more.last().1);
    if i < front.len() {
        assert forall|k: int| i < k < front.len() implies (#[trigger] front[k]).0 != front[i].0 by {
            assert(more[k].0 != more[i].0);
        }
        laid_headers_are_there(headers, front, i);
        assert(more[more.len() - 1].0 != more[i].0);
    }
}

} // verus!
