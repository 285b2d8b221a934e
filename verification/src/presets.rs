//! The built-in provider catalogue: what is known of each well-known provider.
use crate::sampler_config::{ApiBackend, AuthScheme};
use crate::text::{eq_ignore_ascii_case, folded, same_ignoring_case};
use vstd::prelude::*;

verus! {

/// One well-known provider.
#[derive(Debug)]
pub struct ProviderPreset {
    /// Menu label, such as `Anthropic`.
    pub label: &'static str,
    /// The name of its model section in the configuration, such as `anthropic`.
    pub short_key: &'static str,
    /// Default endpoint; empty for `custom`, where the user types it.
    pub base_url: &'static str,
    pub api_backend: ApiBackend,
    pub auth_scheme: AuthScheme,
    /// Needs no key, as a local server.
    pub keyless: bool,
    /// Requires a request id of its own for each request, as GitHub Copilot.
    pub needs_dynamic_id: bool,
    /// Headers that every request must carry.
    pub extra_headers: Vec<(&'static str, &'static str)>,
    /// The model name that is suggested when the provider is added, a placeholder for the user to
    /// complete: Anthropic's stands without the family name that its model ids begin with.
    pub suggested_model: &'static str,
}

/// What a [`ProviderPreset`] says.
pub struct PresetView {
    pub label: Seq<char>,
    pub short_key: Seq<char>,
    pub base_url: Seq<char>,
    pub api_backend: ApiBackend,
    pub auth_scheme: AuthScheme,
    pub keyless: bool,
    pub needs_dynamic_id: bool,
    pub extra_headers: Seq<(Seq<char>, Seq<char>)>,
    pub suggested_model: Seq<char>,
}

/// The texts of pairs of string slices.
pub open spec fn slice_texts(pairs: Seq<(&'static str, &'static str)>) -> Seq<
    (Seq<char>, Seq<char>),
> {
    Seq::new(pairs.len(), |i: int| (pairs[i].0@, pairs[i].1@))
}

impl View for ProviderPreset {
    type V = PresetView;

    open spec fn view(&self) -> PresetView {
        PresetView {
            label: self.label@,
            short_key: self.short_key@,
            base_url: self.base_url@,
            api_backend: self.api_backend,
            auth_scheme: self.auth_scheme,
            keyless: self.keyless,
            needs_dynamic_id: self.needs_dynamic_id,
            extra_headers: slice_texts(self.extra_headers@),
            suggested_model: self.suggested_model@,
        }
    }
}

/// What the presets of a list say.
pub open spec fn preset_views(list: Seq<ProviderPreset>) -> Seq<PresetView> {
    Seq::new(list.len(), |i: int| list[i]@)
}

/// The catalogue. `custom` is the way out for any other server that speaks the OpenAI protocol.
pub open spec fn catalogue() -> Seq<PresetView> {
    seq![
        PresetView {
            label: "Anthropic"@,
            short_key: "anthropic"@,
            base_url: "https://api.anthropic.com/v1"@,
            api_backend: ApiBackend::Messages,
            auth_scheme: AuthScheme::XApiKey,
            keyless: false,
            needs_dynamic_id: false,
            extra_headers: seq![("anthropic-version"@, "2023-06-01"@)],
            suggested_model: "sonnet-4-5"@,
        },
        PresetView {
            label: "OpenAI"@,
            short_key: "openai"@,
            base_url: "https://api.openai.com/v1"@,
            api_backend: ApiBackend::ChatCompletions,
            auth_scheme: AuthScheme::Bearer,
            keyless: false,
            needs_dynamic_id: false,
            extra_headers: Seq::empty(),
            suggested_model: "gpt-5"@,
        },
        PresetView {
            label: "Gemini"@,
            short_key: "gemini"@,
            base_url: "https://generativelanguage.googleapis.com"@,
            api_backend: ApiBackend::Gemini,
            auth_scheme: AuthScheme::XApiKey,
            keyless: false,
            needs_dynamic_id: false,
            extra_headers: Seq::empty(),
            suggested_model: "gemini-2.5-pro"@,
        },
        PresetView {
            label: "NVIDIA"@,
            short_key: "nvidia"@,
            base_url: "https://integrate.api.nvidia.com/v1"@,
            api_backend: ApiBackend::ChatCompletions,
            auth_scheme: AuthScheme::Bearer,
            keyless: false,
            needs_dynamic_id: false,
            extra_headers: Seq::empty(),
            suggested_model: "meta/llama-3.3-70b-instruct"@,
        },
        PresetView {
            label: "Ollama (local)"@,
            short_key: "ollama-local"@,
            base_url: "http://localhost:11434/v1"@,
            api_backend: ApiBackend::ChatCompletions,
            auth_scheme: AuthScheme::Bearer,
            keyless: true,
            needs_dynamic_id: false,
            extra_headers: Seq::empty(),
            suggested_model: "llama3.1"@,
        },
        PresetView {
            label: "GitHub Copilot"@,
            short_key: "copilot"@,
            base_url: "https://api.githubcopilot.com"@,
            api_backend: ApiBackend::ChatCompletions,
            auth_scheme: AuthScheme::Bearer,
            keyless: false,
            needs_dynamic_id: true,
            extra_headers: Seq::empty(),
            suggested_model: "gpt-4o"@,
        },
        PresetView {
            label: "OpenRouter"@,
            short_key: "openrouter"@,
            base_url: "https://openrouter.ai/api/v1"@,
            api_backend: ApiBackend::ChatCompletions,
            auth_scheme: AuthScheme::Bearer,
            keyless: false,
            needs_dynamic_id: false,
            extra_headers: seq![("HTTP-Referer"@, "https://github.com/"@)],
            suggested_model: "openai/gpt-4o"@,
        },
        PresetView {
            label: "DeepSeek"@,
            short_key: "deepseek"@,
            base_url: "https://api.deepseek.com/v1"@,
            api_backend: ApiBackend::ChatCompletions,
            auth_scheme: AuthScheme::Bearer,
            keyless: false,
            needs_dynamic_id: false,
            extra_headers: Seq::empty(),
            suggested_model: "deepseek-chat"@,
        },
        PresetView {
            label: "Cerebras"@,
            short_key: "cerebras"@,
            base_url: "https://api.cerebras.ai/v1"@,
            api_backend: ApiBackend::ChatCompletions,
            auth_scheme: AuthScheme::Bearer,
            keyless: false,
            needs_dynamic_id: false,
            extra_headers: Seq::empty(),
            suggested_model: "llama3.1-8b"@,
        },
        PresetView {
            label: "GLM Coding"@,
            short_key: "glm"@,
            base_url: "https://api.z.ai/api/coding/paas/v4/"@,
            api_backend: ApiBackend::ChatCompletions,
            auth_scheme: AuthScheme::Bearer,
            keyless: false,
            needs_dynamic_id: false,
            extra_headers: Seq::empty(),
            suggested_model: "glm-4.6"@,
        },
        PresetView {
            label: "Custom (OpenAI-compatible)"@,
            short_key: "custom"@,
            base_url: ""@,
            api_backend: ApiBackend::ChatCompletions,
            auth_scheme: AuthScheme::Bearer,
            keyless: false,
            needs_dynamic_id: false,
            extra_headers: Seq::empty(),
            suggested_model: "custom-model"@,
        },
    ]
}

fn one_header(name: &'static str, value: &'static str) -> (r: Vec<(&'static str, &'static str)>)
    ensures
        slice_texts(r@) == seq![(name@, value@)],
{
    let mut r: Vec<(&'static str, &'static str)> = Vec::new();
    r.push((name, value));
    assert(slice_texts(r@) =~= seq![(name@, value@)]);
    r
}

/// The catalogue, in the order in which it is shown.
pub fn presets() -> (list: Vec<ProviderPreset>)
    ensures
        preset_views(list@) == catalogue(),
{
    let mut list: Vec<ProviderPreset> = Vec::new();
    list.push(
        ProviderPreset {
            label: "Anthropic",
            short_key: "anthropic",
            base_url: "https://api.anthropic.com/v1",
            api_backend: ApiBackend::Messages,
            auth_scheme: AuthScheme::XApiKey,
            keyless: false,
            needs_dynamic_id: false,
            extra_headers: one_header("anthropic-version", "2023-06-01"),
            suggested_model: "sonnet-4-5",
        },
    );
    list.push(
        ProviderPreset {
            label: "OpenAI",
            short_key: "openai",
            base_url: "https://api.openai.com/v1",
            api_backend: ApiBackend::ChatCompletions,
            auth_scheme: AuthScheme::Bearer,
            keyless: false,
            needs_dynamic_id: false,
            extra_headers: Vec::new(),
            suggested_model: "gpt-5",
        },
    );
    list.push(
        ProviderPreset {
            label: "Gemini",
            short_key: "gemini",
            base_url: "https://generativelanguage.googleapis.com",
            api_backend: ApiBackend::Gemini,
            auth_scheme: AuthScheme::XApiKey,
            keyless: false,
            needs_dynamic_id: false,
            extra_headers: Vec::new(),
            suggested_model: "gemini-2.5-pro",
        },
    );
    list.push(
        ProviderPreset {
            label: "NVIDIA",
            short_key: "nvidia",
            base_url: "https://integrate.api.nvidia.com/v1",
            api_backend: ApiBackend::ChatCompletions,
            auth_scheme: AuthScheme::Bearer,
            keyless: false,
            needs_dynamic_id: false,
            extra_headers: Vec::new(),
            suggested_model: "meta/llama-3.3-70b-instruct",
        },
    );
    list.push(
        ProviderPreset {
            label: "Ollama (local)",
            short_key: "ollama-local",
            base_url: "http://localhost:11434/v1",
            api_backend: ApiBackend::ChatCompletions,
            auth_scheme: AuthScheme::Bearer,
            keyless: true,
            needs_dynamic_id: false,
            extra_headers: Vec::new(),
            suggested_model: "llama3.1",
        },
    );
    list.push(
        ProviderPreset {
            label: "GitHub Copilot",
            short_key: "copilot",
            base_url: "https://api.githubcopilot.com",
            api_backend: ApiBackend::ChatCompletions,
            auth_scheme: AuthScheme::Bearer,
            keyless: false,
            needs_dynamic_id: true,
            extra_headers: Vec::new(),
            suggested_model: "gpt-4o",
        },
    );
    list.push(
        ProviderPreset {
            label: "OpenRouter",
            short_key: "openrouter",
            base_url: "https://openrouter.ai/api/v1",
            api_backend: ApiBackend::ChatCompletions,
            auth_scheme: AuthScheme::Bearer,
            keyless: false,
            needs_dynamic_id: false,
            extra_headers: one_header("HTTP-Referer", "https://github.com/"),
            suggested_model: "openai/gpt-4o",
        },
    );
    list.push(
        ProviderPreset {
            label: "DeepSeek",
            short_key: "deepseek",
            base_url: "https://api.deepseek.com/v1",
            api_backend: ApiBackend::ChatCompletions,
            auth_scheme: AuthScheme::Bearer,
            keyless: false,
            needs_dynamic_id: false,
            extra_headers: Vec::new(),
            suggested_model: "deepseek-chat",
        },
    );
    list.push(
        ProviderPreset {
            label: "Cerebras",
            short_key: "cerebras",
            base_url: "https://api.cerebras.ai/v1",
            api_backend: ApiBackend::ChatCompletions,
            auth_scheme: AuthScheme::Bearer,
            keyless: false,
            needs_dynamic_id: false,
            extra_headers: Vec::new(),
            suggested_model: "llama3.1-8b",
        },
    );
    list.push(
        ProviderPreset {
            label: "GLM Coding",
            short_key: "glm",
            base_url: "https://api.z.ai/api/coding/paas/v4/",
            api_backend: ApiBackend::ChatCompletions,
            auth_scheme: AuthScheme::Bearer,
            keyless: false,
            needs_dynamic_id: false,
            extra_headers: Vec::new(),
            suggested_model: "glm-4.6",
        },
    );
    list.push(
        ProviderPreset {
            label: "Custom (OpenAI-compatible)",
            short_key: "custom",
            base_url: "",
            api_backend: ApiBackend::ChatCompletions,
            auth_scheme: AuthScheme::Bearer,
            keyless: false,
            needs_dynamic_id: false,
            extra_headers: Vec::new(),
            suggested_model: "custom-model",
        },
    );
    proof {
        let shown = preset_views(list@);
        let wanted = catalogue();
        assert(slice_texts(Seq::<(&'static str, &'static str)>::empty()) =~= Seq::empty());
        assert forall|i: int| 0 <= i < 11 implies shown[i] == wanted[i] by {
            assert(shown[i].extra_headers =~= wanted[i].extra_headers);
        }
        assert(shown =~= wanted);
    }
    list
}

/// The first index from `from` on whose preset has the key `name`, whatever the case of its
/// letters, or the length of the list.
pub open spec fn preset_index(list: Seq<PresetView>, name: Seq<char>, from: int) -> int
    decreases list.len() - from,
{
    if from >= list.len() || same_ignoring_case(name, list[from].short_key) {
        from
    } else {
        preset_index(list, name, from + 1)
    }
}

/// The preset with the key `name`, whatever the case of its letters.
pub open spec fn preset_named(name: Seq<char>) -> Option<PresetView> {
    let i = preset_index(catalogue(), name, 0);
    if i < catalogue().len() {
        Some(catalogue()[i])
    } else {
        None
    }
}

/// What an optional preset says.
pub open spec fn preset_view(preset: Option<ProviderPreset>) -> Option<PresetView> {
    match preset {
        Some(p) => Some(p@),
        None => None,
    }
}

/// The preset with the key `name`, whatever the case of its letters.
pub fn preset_for(name: &str) -> (preset: Option<ProviderPreset>)
    ensures
        preset_view(preset) == preset_named(name@),
{
    let mut list = presets();
    let ghost all = list@;
    let mut i: usize = 0;
    while i < list.len()
        invariant
            i <= list@.len(),
            list@ == all,
            preset_views(all) == catalogue(),
            preset_index(catalogue(), name@, 0) == preset_index(catalogue(), name@, i as int),
        decreases list@.len() - i,
    {
        assert(preset_views(all)[i as int] == all[i as int]@);
        if eq_ignore_ascii_case(name, list[i].short_key) {
            return Some(list.swap_remove(i));
        }
        i = i + 1;
    }
    None
}

proof fn lemma_first_match(list: Seq<PresetView>, name: Seq<char>, from: int, i: int)
    requires
        0 <= from <= i < list.len(),
        same_ignoring_case(name, list[i].short_key),
        forall|k: int|
            from <= k < i ==> !same_ignoring_case(name, (#[trigger] list[k]).short_key),
    ensures
        preset_index(list, name, from) == i,
    decreases i - from,
{
    if from < i {
        assert(!same_ignoring_case(name, list[from].short_key));
        lemma_first_match(list, name, from + 1, i);
    }
}

proof fn lemma_keys_differ(i: int, k: int)
    requires
        0 <= k < i < catalogue().len(),
    ensures
        !same_ignoring_case(catalogue()[i].short_key, catalogue()[k].short_key),
{
    reveal_strlit("anthropic");
    assert("anthropic"@.len() == 9);
    reveal_strlit("openai");
    assert("openai"@.len() == 6);
    reveal_strlit("gemini");
    assert("gemini"@.len() == 6);
    reveal_strlit("nvidia");
    assert("nvidia"@.len() == 6);
    reveal_strlit("ollama-local");
    assert("ollama-local"@.len() == 12);
    reveal_strlit("copilot");
    assert("copilot"@.len() == 7);
    reveal_strlit("openrouter");
    assert("openrouter"@.len() == 10);
    reveal_strlit("deepseek");
    assert("deepseek"@.len() == 8);
    reveal_strlit("cerebras");
    assert("cerebras"@.len() == 8);
    reveal_strlit("glm");
    assert("glm"@.len() == 3);
    reveal_strlit("custom");
    assert("custom"@.len() == 6);
    let a = catalogue()[i].short_key;
    let b = catalogue()[k].short_key;
    if a.len() == b.len() {
        assert(folded(a[0]) != folded(b[0]));
    }
}

/// Every preset is found under its own key, however its letters are written: no other one has the
/// same key.
pub proof fn presets_are_found_by_key(i: int, name: Seq<char>)
    requires
        0 <= i < catalogue().len(),
        same_ignoring_case(name, catalogue()[i].short_key),
    ensures
        preset_named(name) == Some(catalogue()[i]),
{
    let list = catalogue();
    assert forall|k: int| 0 <= k < i implies !same_ignoring_case(
        name,
        (#[trigger] list[k]).short_key,
    ) by {
        lemma_keys_differ(i, k);
        let a = list[i].short_key;
        let b = list[k].short_key;
        if same_ignoring_case(name, b) {
            assert forall|j: int| 0 <= j < a.len() implies folded(#[trigger] a[j]) == folded(
                b[j],
            ) by {
                assert(folded(name[j]) == folded(a[j]));
                assert(folded(name[j]) == folded(b[j]));
            }
            assert(same_ignoring_case(a, b));
        }
    }
    lemma_first_match(list, name, 0, i);
}

} // verus!
