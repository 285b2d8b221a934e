//! What holds of the provider catalogue and of the chain built from it.
use crate::presets::{
    catalogue, preset_index, preset_named, preset_view, preset_views, ProviderPreset,
};
use crate::providers::{
    chain_of, is_usable, layered, warnings_of, with_headers, ConfigModelOverride,
};
use crate::sampler_config::{
    chain_view, names_header, with_header, ApiBackend, AuthScheme, ConfigView, SamplerConfig,
};
use crate::text::same_ignoring_case;
use vstd::prelude::*;

verus! {

/// A provider that is not in the catalogue is used just as it was resolved, but for its key: one
/// that the configuration or the user marks as keyless has none and says so, any other has the key
/// that was resolved.
pub proof fn unknown_providers_are_used_as_resolved(
    config: ConfigView,
    models: Map<Seq<char>, ConfigModelOverride>,
    name: Seq<char>,
)
    requires
        preset_named(name) is None,
    ensures
        layered(config, models, name).base_url == config.base_url,
        layered(config, models, name).model == config.model,
        layered(config, models, name).api_backend == config.api_backend,
        layered(config, models, name).auth_scheme == config.auth_scheme,
        layered(config, models, name).extra_headers == config.extra_headers,
        layered(config, models, name).header_injector == config.header_injector,
        layered(config, models, name).context_window == config.context_window,
        layered(config, models, name).max_completion_tokens == config.max_completion_tokens,
        layered(config, models, name).max_retries == config.max_retries,
        layered(config, models, name).idle_timeout_secs == config.idle_timeout_secs,
        layered(config, models, name).client_version == config.client_version,
        ({
            let keyless = config.keyless || models.dom().contains(name) && models[name].keyless;
            &&& layered(config, models, name).keyless == keyless
            &&& keyless ==> layered(config, models, name).api_key is None
            &&& !keyless ==> layered(config, models, name).api_key == config.api_key
        }),
{
}

/// A provider in the catalogue is used as it was resolved, but for what is known of it: its
/// protocol, its key scheme, its need of a key, its request ids and, unless the user set one, its
/// endpoint.
pub proof fn known_providers_keep_their_settings(
    config: ConfigView,
    models: Map<Seq<char>, ConfigModelOverride>,
    name: Seq<char>,
)
    requires
        preset_named(name) is Some,
    ensures
        ({
            let preset = preset_named(name)->0;
            let used = layered(config, models, name);
            &&& used.model == config.model
            &&& used.context_window == config.context_window
            &&& used.max_completion_tokens == config.max_completion_tokens
            &&& used.max_retries == config.max_retries
            &&& used.idle_timeout_secs == config.idle_timeout_secs
            &&& used.client_version == config.client_version
            &&& used.api_backend == preset.api_backend
            &&& used.auth_scheme == preset.auth_scheme
            &&& used.keyless == preset.keyless
            &&& preset.keyless ==> used.api_key is None
            &&& !preset.keyless ==> used.api_key == config.api_key
            &&& preset.needs_dynamic_id ==> used.header_injector is Some
            &&& !preset.needs_dynamic_id ==> used.header_injector == config.header_injector
            &&& models.dom().contains(name) && models[name].base_url is Some ==> used.base_url
                == config.base_url
            &&& !(models.dom().contains(name) && models[name].base_url is Some) ==> used.base_url
                == preset.base_url
            &&& preset.extra_headers.len() == 0 ==> used.extra_headers == config.extra_headers
        }),
{
}

/// A header that is put among others takes the place of the one with its name, or comes last if no
/// other has it; all others stay as they are and in order.
pub proof fn a_header_takes_the_place_of_its_name(
    headers: Seq<(Seq<char>, Seq<char>)>,
    name: Seq<char>,
    value: Seq<char>,
    i: int,
)
    ensures
        0 <= i < headers.len() && headers[i].0 == name && (forall|k: int|
            0 <= k < i ==> (#[trigger] headers[k]).0 != name) ==> with_header(headers, name, value)
            == headers.update(i, (name, value)),
        (forall|k: int| 0 <= k < headers.len() ==> (#[trigger] headers[k]).0 != name)
            ==> with_header(headers, name, value) == headers.push((name, value)),
{
    if 0 <= i < headers.len() && headers[i].0 == name && forall|k: int|
        0 <= k < i ==> (#[trigger] headers[k]).0 != name {
        assert(names_header(headers, name, i));
        let at = choose|j: int|
            names_header(headers, name, j) && forall|k: int|
                0 <= k < j ==> (#[trigger] headers[k]).0 != name;
        if at < i {
            assert(headers[at].0 != name);
        }
        if i < at {
            assert(headers[i].0 != name);
        }
    }
    if forall|k: int| 0 <= k < headers.len() ==> (#[trigger] headers[k]).0 != name {
        assert forall|j: int| !names_header(headers, name, j) by {
            if 0 <= j < headers.len() {
                assert(headers[j].0 != name);
            }
        }
    }
}

/// Headers are laid over others one after the other.
pub proof fn headers_are_laid_one_by_one(
    headers: Seq<(Seq<char>, Seq<char>)>,
    more: Seq<(Seq<char>, Seq<char>)>,
    name: Seq<char>,
    value: Seq<char>,
)
    ensures
        with_headers(headers, Seq::empty()) == headers,
        with_headers(headers, more.push((name, value))) == with_header(
            with_headers(headers, more),
            name,
            value,
        ),
{
    assert(more.push((name, value)).drop_last() =~= more);
}

/// What a known provider's headers are: those resolved with those of the catalogue laid over them.
pub proof fn known_headers_are_laid_over(
    config: ConfigView,
    models: Map<Seq<char>, ConfigModelOverride>,
    name: Seq<char>,
)
    requires
        preset_named(name) is Some,
    ensures
        layered(config, models, name).extra_headers == with_headers(
            config.extra_headers,
            preset_named(name)->0.extra_headers,
        ),
{
}

/// A name of the order gets into the chain if and only if something was resolved for it and it has
/// a key or needs none.
pub proof fn a_provider_with_a_key_gets_into_the_chain(
    models: Map<Seq<char>, ConfigModelOverride>,
    resolved: Map<Seq<char>, SamplerConfig>,
    name: Seq<char>,
)
    ensures
        is_usable(models, resolved, name) == {
            &&& resolved.dom().contains(name)
            &&& {
                ||| resolved[name].api_key is Some
                ||| layered(resolved[name]@, models, name).keyless
            }
        },
{
}

/// One name of an order gives an entry with its configuration and no warning, or a warning that
/// names it and no entry: that nothing was found for it, or that it has no key.
pub proof fn a_name_gives_an_entry_or_a_warning(
    models: Map<Seq<char>, ConfigModelOverride>,
    resolved: Map<Seq<char>, SamplerConfig>,
    order: Seq<Seq<char>>,
    name: Seq<char>,
)
    ensures
        ({
            let chain = chain_of(models, resolved, order);
            let longer = chain_of(models, resolved, order.push(name));
            let warnings = warnings_of(models, resolved, order);
            let more = warnings_of(models, resolved, order.push(name));
            if !resolved.dom().contains(name) {
                &&& longer == chain
                &&& more == warnings.push(
                    name + ": skipped, no [model."@ + name
                        + "] entry and no built-in match"@,
                )
            } else {
                let used = layered(resolved[name]@, models, name);
                if used.keyless || resolved[name].api_key is Some {
                    &&& longer == chain.push((name, used))
                    &&& more == warnings
                } else {
                    &&& longer == chain
                    &&& more == warnings.push(name + ": skipped, no api_key configured"@)
                }
            }
        }),
        chain_of(models, resolved, Seq::empty()) == Seq::<(Seq<char>, ConfigView)>::empty(),
        warnings_of(models, resolved, Seq::empty()) == Seq::<Seq<char>>::empty(),
{
    assert(order.push(name).drop_last() =~= order);
}

/// A configuration says what it holds, field by field.
pub proof fn a_configuration_says_what_it_holds(c: SamplerConfig)
    ensures
        c@.base_url == c.base_url@,
        c@.model == c.model@,
        c.api_key is None ==> c@.api_key is None,
        c.api_key is Some ==> c@.api_key == Some(c.api_key->0@),
        c@.keyless == c.keyless,
        c@.api_backend == c.api_backend,
        c@.auth_scheme == c.auth_scheme,
        c@.extra_headers.len() == c.extra_headers@.len(),
        forall|i: int|
            0 <= i < c.extra_headers@.len() ==> #[trigger] c@.extra_headers[i] == (
                c.extra_headers@[i].0@,
                c.extra_headers@[i].1@,
            ),
        c@.header_injector == c.header_injector,
        c@.context_window == c.context_window,
        c@.max_completion_tokens == c.max_completion_tokens,
        c@.max_retries == c.max_retries,
        c@.idle_timeout_secs == c.idle_timeout_secs,
        c.client_version is None ==> c@.client_version is None,
        c.client_version is Some ==> c@.client_version == Some(c.client_version->0@),
{
}

/// A chain says what it holds, entry by entry and in order.
pub proof fn a_chain_says_what_it_holds(chain: Seq<(String, SamplerConfig)>)
    ensures
        chain_view(chain).len() == chain.len(),
        forall|i: int|
            0 <= i < chain.len() ==> #[trigger] chain_view(chain)[i] == (
                chain[i].0@,
                chain[i].1@,
            ),
{
}

/// A preset says what it holds, field by field.
pub proof fn a_preset_says_what_it_holds(p: ProviderPreset, list: Seq<ProviderPreset>)
    ensures
        p@.label == p.label@,
        p@.short_key == p.short_key@,
        p@.base_url == p.base_url@,
        p@.api_backend == p.api_backend,
        p@.auth_scheme == p.auth_scheme,
        p@.keyless == p.keyless,
        p@.needs_dynamic_id == p.needs_dynamic_id,
        p@.suggested_model == p.suggested_model@,
        p@.extra_headers.len() == p.extra_headers@.len(),
        forall|i: int|
            0 <= i < p.extra_headers@.len() ==> #[trigger] p@.extra_headers[i] == (
                p.extra_headers@[i].0@,
                p.extra_headers@[i].1@,
            ),
        preset_view(Some(p)) == Some(p@),
        preset_view(None) is None,
        preset_views(list).len() == list.len(),
        forall|i: int| 0 <= i < list.len() ==> #[trigger] preset_views(list)[i] == list[i]@,
{
}

/// What sets the providers of the catalogue apart. Anthropic alone speaks the messages protocol and
/// Gemini alone its own, and these two present their key in a header of its own; all others speak
/// the OpenAI protocol with a bearer token. The local server alone needs no key, Copilot alone
/// request ids, Anthropic and OpenRouter alone a header, and the custom entry alone has no
/// endpoint.
pub proof fn the_catalogue_sets_providers_apart(i: int)
    requires
        0 <= i < catalogue().len(),
    ensures
        ({
            let p = catalogue()[i];
            &&& catalogue().len() == 11
            &&& p.api_backend == if p.short_key == "anthropic"@ {
                ApiBackend::Messages
            } else if p.short_key == "gemini"@ {
                ApiBackend::Gemini
            } else {
                ApiBackend::ChatCompletions
            }
            &&& p.auth_scheme == if p.short_key == "anthropic"@ || p.short_key == "gemini"@ {
                AuthScheme::XApiKey
            } else {
                AuthScheme::Bearer
            }
            &&& p.keyless == (p.short_key == "ollama-local"@)
            &&& p.needs_dynamic_id == (p.short_key == "copilot"@)
            &&& p.extra_headers == if p.short_key == "anthropic"@ {
                seq![("anthropic-version"@, "2023-06-01"@)]
            } else if p.short_key == "openrouter"@ {
                seq![("HTTP-Referer"@, "https://github.com/"@)]
            } else {
                Seq::empty()
            }
            &&& (p.base_url == ""@) == (p.short_key == "custom"@)
        }),
{
    lemma_keys();
    reveal_strlit("");
    reveal_strlit("https://api.anthropic.com/v1");
    reveal_strlit("https://api.openai.com/v1");
    reveal_strlit("https://generativelanguage.googleapis.com");
    reveal_strlit("https://integrate.api.nvidia.com/v1");
    reveal_strlit("http://localhost:11434/v1");
    reveal_strlit("https://api.githubcopilot.com");
    reveal_strlit("https://openrouter.ai/api/v1");
    reveal_strlit("https://api.deepseek.com/v1");
    reveal_strlit("https://api.cerebras.ai/v1");
    reveal_strlit("https://api.z.ai/api/coding/paas/v4/");
    assert(""@.len() == 0);
    assert(catalogue()[i].short_key != "custom"@ ==> catalogue()[i].base_url.len() > 0);
}

proof fn lemma_keys()
    ensures
        "anthropic"@.len() == 9,
        "openai"@.len() == 6,
        "gemini"@.len() == 6,
        "nvidia"@.len() == 6,
        "ollama-local"@.len() == 12,
        "copilot"@.len() == 7,
        "openrouter"@.len() == 10,
        "deepseek"@.len() == 8,
        "cerebras"@.len() == 8,
        "glm"@.len() == 3,
        "custom"@.len() == 6,
        "openai"@ != "gemini"@,
        "nvidia"@ != "gemini"@,
        "custom"@ != "gemini"@,
        "custom"@ != "openai"@,
        "custom"@ != "nvidia"@,
{
    reveal_strlit("anthropic");
    reveal_strlit("openai");
    reveal_strlit("gemini");
    reveal_strlit("nvidia");
    reveal_strlit("ollama-local");
    reveal_strlit("copilot");
    reveal_strlit("openrouter");
    reveal_strlit("deepseek");
    reveal_strlit("cerebras");
    reveal_strlit("glm");
    reveal_strlit("custom");
    assert("openai"@[0] == 'o');
    assert("gemini"@[0] == 'g');
    assert("nvidia"@[0] == 'n');
    assert("custom"@[0] == 'c');
}

/// A name that is no key of the catalogue, however its letters are written, has no preset.
pub proof fn other_names_have_no_preset(name: Seq<char>)
    requires
        forall|i: int|
            0 <= i < catalogue().len() ==> !same_ignoring_case(
                name,
                (#[trigger] catalogue()[i]).short_key,
            ),
    ensures
        preset_named(name) is None,
{
    lemma_none_from(name, 0);
}

proof fn lemma_none_from(name: Seq<char>, from: int)
    requires
        0 <= from,
        forall|i: int|
            0 <= i < catalogue().len() ==> !same_ignoring_case(
                name,
                (#[trigger] catalogue()[i]).short_key,
            ),
    ensures
        preset_index(catalogue(), name, from) >= catalogue().len(),
    decreases catalogue().len() - from,
{
    if from < catalogue().len() {
        assert(!same_ignoring_case(name, catalogue()[from].short_key));
        lemma_none_from(name, from + 1);
    }
}

} // verus!
