//! How a provider is reached and what the sampler asks of it.
use crate::copilot_headers::CopilotHeaderInjector;
use crate::text::{opt_text, same_text};
use vstd::prelude::*;

verus! {

/// The wire protocol of a provider.
#[derive(Debug, Clone, Copy, PartialEq, Eq, Structural)]
pub enum ApiBackend {
    ChatCompletions,
    Responses,
    Messages,
    Gemini,
}

/// How a key is presented to a provider.
#[derive(Debug, Clone, Copy, PartialEq, Eq, Structural)]
pub enum AuthScheme {
    Bearer,
    XApiKey,
}

/// How often a request is tried again.
#[derive(Debug, Clone, Copy, PartialEq, Eq, Structural)]
pub struct RetryPolicy {
    pub max_retries: u32,
}

impl Default for RetryPolicy {
    fn default() -> (r: Self)
        ensures
            r.max_retries == 15,
    {
        RetryPolicy { max_retries: 15 }
    }
}

/// All that is needed to sample from one provider. A header name occurs at most once in
/// `extra_headers`.
#[derive(Debug)]
pub struct SamplerConfig {
    pub base_url: String,
    pub model: String,
    pub api_key: Option<String>,
    /// The provider needs no key.
    pub keyless: bool,
    pub api_backend: ApiBackend,
    pub auth_scheme: AuthScheme,
    pub extra_headers: Vec<(String, String)>,
    pub header_injector: Option<CopilotHeaderInjector>,
    pub context_window: u64,
    pub max_completion_tokens: Option<u32>,
    pub max_retries: Option<u32>,
    pub idle_timeout_secs: Option<u64>,
    pub client_version: Option<String>,
}

/// What a [`SamplerConfig`] says.
pub struct ConfigView {
    pub base_url: Seq<char>,
    pub model: Seq<char>,
    pub api_key: Option<Seq<char>>,
    pub keyless: bool,
    pub api_backend: ApiBackend,
    pub auth_scheme: AuthScheme,
    pub extra_headers: Seq<(Seq<char>, Seq<char>)>,
    pub header_injector: Option<CopilotHeaderInjector>,
    pub context_window: u64,
    pub max_completion_tokens: Option<u32>,
    pub max_retries: Option<u32>,
    pub idle_timeout_secs: Option<u64>,
    pub client_version: Option<Seq<char>>,
}

/// The texts of pairs of strings.
pub open spec fn pair_texts(pairs: Seq<(String, String)>) -> Seq<(Seq<char>, Seq<char>)> {
    Seq::new(pairs.len(), |i: int| (pairs[i].0@, pairs[i].1@))
}

impl View for SamplerConfig {
    type V = ConfigView;

    open spec fn view(&self) -> ConfigView {
        ConfigView {
            base_url: self.base_url@,
            model: self.model@,
            api_key: opt_text(self.api_key),
            keyless: self.keyless,
            api_backend: self.api_backend,
            auth_scheme: self.auth_scheme,
            extra_headers: pair_texts(self.extra_headers@),
            header_injector: self.header_injector,
            context_window: self.context_window,
            max_completion_tokens: self.max_completion_tokens,
            max_retries: self.max_retries,
            idle_timeout_secs: self.idle_timeout_secs,
            client_version: opt_text(self.client_version),
        }
    }
}

/// The same pairs again.
pub fn copy_pairs(pairs: &Vec<(String, String)>) -> (r: Vec<(String, String)>)
    ensures
        pair_texts(r@) == pair_texts(pairs@),
{
    let mut r: Vec<(String, String)> = Vec::new();
    let mut i: usize = 0;
    while i < pairs.len()
        invariant
            i <= pairs@.len(),
            r@.len() == i,
            forall|k: int|
                0 <= k < i ==> (#[trigger] r@[k]).0@ == pairs@[k].0@ && r@[k].1@ == pairs@[k].1@,
        decreases pairs@.len() - i,
    {
        r.push((pairs[i].0.clone(), pairs[i].1.clone()));
        i = i + 1;
    }
    assert(pair_texts(r@) =~= pair_texts(pairs@));
    r
}

impl SamplerConfig {
    /// The same configuration again.
    pub fn copy(&self) -> (r: Self)
        ensures
            r@ == self@,
    {
        SamplerConfig {
            base_url: self.base_url.clone(),
            model: self.model.clone(),
            api_key: self.api_key.clone(),
            keyless: self.keyless,
            api_backend: self.api_backend,
            auth_scheme: self.auth_scheme,
            extra_headers: copy_pairs(&self.extra_headers),
            header_injector: self.header_injector,
            context_window: self.context_window,
            max_completion_tokens: self.max_completion_tokens,
            max_retries: self.max_retries,
            idle_timeout_secs: self.idle_timeout_secs,
            client_version: self.client_version.clone(),
        }
    }
}

impl Default for SamplerConfig {
    fn default() -> (r: Self)
        ensures
            r@ == (ConfigView {
                base_url: Seq::empty(),
                model: Seq::empty(),
                api_key: None,
                keyless: false,
                api_backend: ApiBackend::ChatCompletions,
                auth_scheme: AuthScheme::Bearer,
                extra_headers: Seq::empty(),
                header_injector: None,
                context_window: 0,
                max_completion_tokens: None,
                max_retries: None,
                idle_timeout_secs: None,
                client_version: None,
            }),
    {
        let r = SamplerConfig {
            base_url: String::new(),
            model: String::new(),
            api_key: None,
            keyless: false,
            api_backend: ApiBackend::ChatCompletions,
            auth_scheme: AuthScheme::Bearer,
            extra_headers: Vec::new(),
            header_injector: None,
            context_window: 0,
            max_completion_tokens: None,
            max_retries: None,
            idle_timeout_secs: None,
            client_version: None,
        };
        assert(r@.extra_headers =~= Seq::empty());
        r
    }
}

/// The providers of a walk, in the order in which they are tried, each with its name.
pub type FailoverChain = Vec<(String, SamplerConfig)>;

/// What a chain says.
pub open spec fn chain_view(chain: Seq<(String, SamplerConfig)>) -> Seq<(Seq<char>, ConfigView)> {
    Seq::new(chain.len(), |i: int| (chain[i].0@, chain[i].1@))
}

/// The same chain again.
pub fn copy_chain(chain: &FailoverChain) -> (r: FailoverChain)
    ensures
        chain_view(r@) == chain_view(chain@),
{
    let mut r: FailoverChain = Vec::new();
    let mut i: usize = 0;
    while i < chain.len()
        invariant
            i <= chain@.len(),
            r@.len() == i,
            forall|k: int|
                0 <= k < i ==> (#[trigger] r@[k]).0@ == chain@[k].0@ && r@[k].1@ == chain@[k].1@,
        decreases chain@.len() - i,
    {
        r.push((chain[i].0.clone(), chain[i].1.copy()));
        i = i + 1;
    }
    assert(chain_view(r@) =~= chain_view(chain@));
    r
}

/// Whether `headers` hold the name at `i`.
pub open spec fn names_header(
    headers: Seq<(Seq<char>, Seq<char>)>,
    name: Seq<char>,
    i: int,
) -> bool {
    0 <= i < headers.len() && headers[i].0 == name
}

/// `headers` with `value` under `name`: a name that is there keeps its place, a new one comes
/// last.
pub open spec fn with_header(
    headers: Seq<(Seq<char>, Seq<char>)>,
    name: Seq<char>,
    value: Seq<char>,
) -> Seq<(Seq<char>, Seq<char>)> {
    if exists|i: int| names_header(headers, name, i) {
        let at = choose|i: int|
            names_header(headers, name, i) && forall|k: int|
                0 <= k < i ==> (#[trigger] headers[k]).0 != name;
        headers.update(at, (name, value))
    } else {
        headers.push((name, value))
    }
}

/// Puts `value` under `name`: a name that is there keeps its place, a new one comes last.
pub fn put_header(headers: &mut Vec<(String, String)>, name: &str, value: &str)
    ensures
        pair_texts(final(headers)@) == with_header(pair_texts(old(headers)@), name@, value@),
{
    let ghost before = pair_texts(headers@);
    let mut i: usize = 0;
    while i < headers.len()
        invariant
            i <= headers@.len(),
            headers@ == old(headers)@,
            before == pair_texts(old(headers)@),
            forall|k: int| 0 <= k < i ==> (#[trigger] before[k]).0 != name@,
        decreases headers@.len() - i,
    {
        if same_text(headers[i].0.as_str(), name) {
            headers.set(i, (name.to_owned(), value.to_owned()));
            proof {
                assert(names_header(before, name@, i as int));
                let at = choose|k: int|
                    names_header(before, name@, k) && forall|m: int|
                        0 <= m < k ==> (#[trigger] before[m]).0 != name@;
                assert(before[i as int].0 == name@);
                assert(at == i) by {
                    if at < i {
                        assert(before[at].0 != name@);
                    }
                }
                assert(pair_texts(headers@) =~= before.update(i as int, (name@, value@)));
            }
            return ;
        }
        i = i + 1;
    }
    headers.push((name.to_owned(), value.to_owned()));
    proof {
        assert forall|k: int| !names_header(before, name@, k) by {
            if 0 <= k < before.len() {
                assert(before[k].0 != name@);
            }
        }
        assert(pair_texts(headers@) =~= before.push((name@, value@)));
    }
}

} // verus!
