use vstd::prelude::*;
use crate::text::str_eq;
use crate::chat::opt_view;

verus! {

/// The upstream providers that the proxy can forward to.
#[derive(PartialEq, Eq, Structural, Debug, Clone, Copy)]
pub enum ProviderKind {
    Ollama,
    Groq,
    AiStudio,
    Nim,
    OpenRouter,
    OpenAI,
}

/// The canonical name of a provider.
pub open spec fn provider_name(p: ProviderKind) -> Seq<char> {
    match p {
        ProviderKind::Ollama => "ollama"@,
        ProviderKind::Groq => "groq"@,
        ProviderKind::AiStudio => "ai-studio"@,
        ProviderKind::Nim => "nvidia-nim"@,
        ProviderKind::OpenRouter => "openrouter"@,
        ProviderKind::OpenAI => "openai"@,
    }
}

/// The provider that a name designates: a canonical name, or one of the
/// aliases `gemini` and `google-ai-studio` of AI Studio.
pub open spec fn provider_named(name: Seq<char>) -> Option<ProviderKind> {
    if name == "ollama"@ {
        Some(ProviderKind::Ollama)
    } else if name == "groq"@ {
        Some(ProviderKind::Groq)
    } else if name == "ai-studio"@ || name == "gemini"@ || name == "google-ai-studio"@ {
        Some(ProviderKind::AiStudio)
    } else if name == "nvidia-nim"@ {
        Some(ProviderKind::Nim)
    } else if name == "openrouter"@ {
        Some(ProviderKind::OpenRouter)
    } else if name == "openai"@ {
        Some(ProviderKind::OpenAI)
    } else {
        None
    }
}

/// The canonical provider names, in the order the proxy lists them.
pub open spec fn supported_names() -> Seq<Seq<char>> {
    seq!["ollama"@, "groq"@, "ai-studio"@, "nvidia-nim"@, "openrouter"@, "openai"@]
}

impl ProviderKind {
    /// The canonical name.
    pub fn name(&self) -> (r: &'static str)
        ensures
            r@ == provider_name(*self),
    {
        match self {
            ProviderKind::Ollama => "ollama",
            ProviderKind::Groq => "groq",
            ProviderKind::AiStudio => "ai-studio",
            ProviderKind::Nim => "nvidia-nim",
            ProviderKind::OpenRouter => "openrouter",
            ProviderKind::OpenAI => "openai",
        }
    }

    /// Whether calls need an API key; only the local Ollama server does without.
    pub fn requires_api_key(&self) -> (r: bool)
        ensures
            r == (*self != ProviderKind::Ollama),
    {
        match self {
            ProviderKind::Ollama => false,
            _ => true,
        }
    }
}

/// The canonical provider names.
pub fn supported_providers() -> (r: Vec<&'static str>)
    ensures
        r@.map_values(|s: &str| s@) == supported_names(),
{
    let r = vec!["ollama", "groq", "ai-studio", "nvidia-nim", "openrouter", "openai"];
    assert(r@.map_values(|s: &str| s@) =~= supported_names());
    r
}

/// The canonical name of the provider that `name` designates.
pub fn canonical_provider(name: &str) -> (r: Option<&'static str>)
    ensures
        match r {
            Some(c) => provider_named(name@) matches Some(p) && c@ == provider_name(p),
            None => provider_named(name@) is None,
        },
{
    match provider_kind(name) {
        Some(p) => Some(p.name()),
        None => None,
    }
}

/// Whether `name` designates a provider.
pub fn provider_exists(name: &str) -> (r: bool)
    ensures
        r == provider_named(name@) is Some,
{
    canonical_provider(name).is_some()
}

/// The provider that `name` designates.
pub fn provider_kind(name: &str) -> (r: Option<ProviderKind>)
    ensures
        r == provider_named(name@),
{
    if str_eq(name, "ollama") {
        Some(ProviderKind::Ollama)
    } else if str_eq(name, "groq") {
        Some(ProviderKind::Groq)
    } else if str_eq(name, "ai-studio") || str_eq(name, "gemini") || str_eq(name, "google-ai-studio") {
        Some(ProviderKind::AiStudio)
    } else if str_eq(name, "nvidia-nim") {
        Some(ProviderKind::Nim)
    } else if str_eq(name, "openrouter") {
        Some(ProviderKind::OpenRouter)
    } else if str_eq(name, "openai") {
        Some(ProviderKind::OpenAI)
    } else {
        None
    }
}

/// The error of looking up a provider by a name that designates none.
#[derive(Debug)]
pub struct UnsupportedProvider {
    pub name: String,
}

impl UnsupportedProvider {
    /// The error text: `unsupported provider '<name>'`.
    pub fn message(&self) -> (r: String)
        ensures
            r@ == "unsupported provider '"@ + self.name@ + "'"@,
    {
        let mut s = String::from_str("unsupported provider '");
        s.append(self.name.as_str());
        s.append("'");
        s
    }
}

/// The provider that `name` designates, or the error naming it.
pub fn get_provider(name: &str) -> (r: Result<ProviderKind, UnsupportedProvider>)
    ensures
        match r {
            Ok(p) => provider_named(name@) == Some(p),
            Err(e) => provider_named(name@) is None && e.name@ == name@,
        },
{
    match provider_kind(name) {
        Some(p) => Ok(p),
        None => Err(UnsupportedProvider { name: String::from_str(name) }),
    }
}

/// What a provider reports about one of its models.
#[derive(Debug)]
pub struct ModelInfo {
    pub id: String,
    pub supports_chat: bool,
    pub supports_embeddings: bool,
}

/// The value of a model description.
#[verifier::ext_equal]
pub struct ModelInfoV {
    pub id: Seq<char>,
    pub supports_chat: bool,
    pub supports_embeddings: bool,
}

impl View for ModelInfo {
    type V = ModelInfoV;

    open spec fn view(&self) -> ModelInfoV {
        ModelInfoV { id: self.id@, supports_chat: self.supports_chat, supports_embeddings: self.supports_embeddings }
    }
}

impl ModelInfo {
    /// A model of unknown capabilities, taken to be a chat model.
    pub fn unknown(id: String) -> (m: Self)
        ensures
            m.id == id,
            m.supports_chat,
            !m.supports_embeddings,
    {
        ModelInfo { id, supports_chat: true, supports_embeddings: false }
    }
}

/// What `nimbox provider <name>` stores: the canonical name of the provider
/// that the name designates (so an alias shares the provider's settings), or
/// the error for a missing or unsupported name.
pub fn provider_setting(name: Option<String>) -> (r: Result<&'static str, String>)
    ensures
        match name {
            None => r matches Err(e) && e@ == "provider required"@,
            Some(n) => match provider_named(n@) {
                Some(p) => r matches Ok(c) && c@ == provider_name(p),
                None => r matches Err(e) && e@ == "unsupported provider '"@ + n@ + "'"@,
            },
        },
{
    match name {
        None => Err(String::from_str("provider required")),
        Some(n) => match get_provider(n.as_str()) {
            Ok(p) => Ok(p.name()),
            Err(e) => Err(e.message()),
        },
    }
}

/// The error with which a provider refuses embedding requests; Groq and
/// OpenRouter offer no text embeddings endpoint.
pub open spec fn embeddings_refusal(p: ProviderKind) -> Option<Seq<char>> {
    match p {
        ProviderKind::Groq => Some("Groq does not provide a text embeddings endpoint"@),
        ProviderKind::OpenRouter => Some("OpenRouter does not provide a text embeddings endpoint"@),
        _ => None,
    }
}

impl ProviderKind {
    /// The error with which the provider refuses embedding requests, if it does.
    pub fn refuses_embeddings(&self) -> (r: Option<String>)
        ensures
            opt_view(r) == embeddings_refusal(*self),
    {
        match self {
            ProviderKind::Groq => Some(String::from_str("Groq does not provide a text embeddings endpoint")),
            ProviderKind::OpenRouter => Some(String::from_str("OpenRouter does not provide a text embeddings endpoint")),
            _ => None,
        }
    }
}

/// The first position at or after `i` of a model with the id `id`.
pub open spec fn model_from(ms: Seq<ModelInfoV>, id: Seq<char>, i: nat) -> Option<int>
    decreases ms.len() - i,
{
    if i >= ms.len() {
        None
    } else if ms[i as int].id == id {
        Some(i as int)
    } else {
        model_from(ms, id, i + 1)
    }
}

/// The position of the first model with the id `id`.
pub open spec fn model_index(ms: Seq<ModelInfoV>, id: Seq<char>) -> Option<int> {
    model_from(ms, id, 0)
}

/// The models with the configured chat model added, as a chat model of
/// unknown capabilities, when none has its id.
pub open spec fn with_chat_model(ms: Seq<ModelInfoV>, model: Option<Seq<char>>) -> Seq<ModelInfoV> {
    match model {
        Some(id) => if model_index(ms, id) is Some {
            ms
        } else {
            ms.push(ModelInfoV { id, supports_chat: true, supports_embeddings: false })
        },
        None => ms,
    }
}

/// The models with the configured embedding model marked: the first with its
/// id is said to embed, or an embedding-only model is added.
pub open spec fn with_embedding_model(ms: Seq<ModelInfoV>, embedding: Option<Seq<char>>) -> Seq<ModelInfoV> {
    match embedding {
        Some(id) => match model_index(ms, id) {
            Some(i) => ms.update(i, ModelInfoV { supports_embeddings: true, ..ms[i] }),
            None => ms.push(ModelInfoV { id, supports_chat: false, supports_embeddings: true }),
        },
        None => ms,
    }
}

/// The values of a list of models.
pub open spec fn models_view(ms: Seq<ModelInfo>) -> Seq<ModelInfoV> {
    ms.map_values(|m: ModelInfo| m@)
}

/// The position of the first model with the id `id`.
pub fn find_model(ms: &Vec<ModelInfo>, id: &str) -> (r: Option<usize>)
    ensures
        r matches Some(i) ==> i < ms@.len() && model_index(models_view(ms@), id@) == Some(i as int),
        r is None ==> model_index(models_view(ms@), id@) is None,
{
    let ghost vs = models_view(ms@);
    let mut i: usize = 0;
    while i < ms.len()
        invariant
            i <= ms@.len(),
            vs == models_view(ms@),
            vs.len() == ms@.len(),
            model_index(vs, id@) == model_from(vs, id@, i as nat),
        decreases ms@.len() - i,
    {
        assert(vs[i as int] == ms@[i as int]@);
        if str_eq(ms[i].id.as_str(), id) {
            return Some(i);
        }
        i = i + 1;
    }
    None
}

/// The models that a provider lists, with the configured chat and embedding
/// models added or marked.
pub fn merge_configured_models(available: Vec<ModelInfo>, model: Option<String>, embedding: Option<String>) -> (r: Vec<ModelInfo>)
    ensures
        models_view(r@) == with_embedding_model(
            with_chat_model(models_view(available@), opt_view(model)),
            opt_view(embedding),
        ),
{
    let mut ms = available;
    let ghost start = models_view(ms@);
    if let Some(m) = model {
        if find_model(&ms, m.as_str()).is_none() {
            ms.push(ModelInfo::unknown(m));
            assert(models_view(ms@) =~= start.push(ModelInfoV { id: m@, supports_chat: true, supports_embeddings: false }));
        }
    }
    let ghost mid = models_view(ms@);
    assert(mid == with_chat_model(start, opt_view(model)));
    if let Some(e) = embedding {
        match find_model(&ms, e.as_str()) {
            Some(i) => {
                let old_m = ms[i].clone_info();
                let updated = ModelInfo { id: old_m.id, supports_chat: old_m.supports_chat, supports_embeddings: true };
                ms.set(i, updated);
                assert(models_view(ms@) =~= mid.update(i as int, ModelInfoV { supports_embeddings: true, ..mid[i as int] }));
            },
            None => {
                ms.push(ModelInfo { id: e, supports_chat: false, supports_embeddings: true });
                assert(models_view(ms@) =~= mid.push(ModelInfoV { id: e@, supports_chat: false, supports_embeddings: true }));
            },
        }
    }
    ms
}

impl ModelInfo {
    /// A copy of the description.
    pub fn clone_info(&self) -> (r: Self)
        ensures
            r@ == self@,
    {
        ModelInfo { id: self.id.clone(), supports_chat: self.supports_chat, supports_embeddings: self.supports_embeddings }
    }
}

/// Every listed provider name designates itself, and every canonical name of a
/// provider is listed.
pub proof fn law_listed_names_are_canonical()
    ensures
        forall|i: int| 0 <= i < supported_names().len() ==>
            (provider_named(#[trigger] supported_names()[i]) matches Some(p) && provider_name(p) == supported_names()[i]),
        forall|p: ProviderKind| #[trigger] provider_named(provider_name(p)) == Some(p),
{
    reveal_strlit("ollama");
    reveal_strlit("groq");
    reveal_strlit("ai-studio");
    reveal_strlit("gemini");
    reveal_strlit("google-ai-studio");
    reveal_strlit("nvidia-nim");
    reveal_strlit("openrouter");
    reveal_strlit("openai");
    assert("ollama"@.len() == 6 && "groq"@.len() == 4 && "ai-studio"@.len() == 9 && "gemini"@.len() == 6
        && "google-ai-studio"@.len() == 16 && "nvidia-nim"@.len() == 10 && "openrouter"@.len() == 10
        && "openai"@.len() == 6);
    assert("ollama"@[0] == 'o' && "gemini"@[0] == 'g' && "nvidia-nim"@[0] == 'n' && "openrouter"@[0] == 'o'
        && "openai"@[0] == 'o' && "openai"@[1] == 'p' && "ollama"@[1] == 'l');
    assert("ollama"@ != "groq"@);
    assert(provider_named("ollama"@) == Some(ProviderKind::Ollama));
    assert(provider_named("groq"@) == Some(ProviderKind::Groq));
    assert("ai-studio"@ != "ollama"@ && "ai-studio"@ != "groq"@);
    assert(provider_named("ai-studio"@) == Some(ProviderKind::AiStudio));
    assert("nvidia-nim"@ != "ollama"@ && "nvidia-nim"@ != "groq"@ && "nvidia-nim"@ != "ai-studio"@
        && "nvidia-nim"@ != "gemini"@ && "nvidia-nim"@ != "google-ai-studio"@);
    assert(provider_named("nvidia-nim"@) == Some(ProviderKind::Nim));
    assert("openrouter"@ != "ollama"@ && "openrouter"@ != "groq"@ && "openrouter"@ != "ai-studio"@
        && "openrouter"@ != "gemini"@ && "openrouter"@ != "google-ai-studio"@ && "openrouter"@ != "nvidia-nim"@);
    assert(provider_named("openrouter"@) == Some(ProviderKind::OpenRouter));
    assert("openai"@ != "ollama"@ && "openai"@ != "groq"@ && "openai"@ != "ai-studio"@
        && "openai"@ != "gemini"@ && "openai"@ != "google-ai-studio"@ && "openai"@ != "nvidia-nim"@
        && "openai"@ != "openrouter"@);
    assert(provider_named("openai"@) == Some(ProviderKind::OpenAI));
    assert(supported_names()[0] == "ollama"@);
    assert(supported_names()[1] == "groq"@);
    assert(supported_names()[2] == "ai-studio"@);
    assert(supported_names()[3] == "nvidia-nim"@);
    assert(supported_names()[4] == "openrouter"@);
    assert(supported_names()[5] == "openai"@);
    assert forall|p: ProviderKind| #[trigger] provider_named(provider_name(p)) == Some(p) by {
        match p {
            ProviderKind::Ollama => {},
            ProviderKind::Groq => {},
            ProviderKind::AiStudio => {},
            ProviderKind::Nim => {},
            ProviderKind::OpenRouter => {},
            ProviderKind::OpenAI => {},
        }
    }
    assert forall|i: int| 0 <= i < supported_names().len() implies
        (provider_named(#[trigger] supported_names()[i]) matches Some(p) && provider_name(p) == supported_names()[i]) by {
        if i == 0 {} else if i == 1 {} else if i == 2 {} else if i == 3 {} else if i == 4 {} else {}
    }
}

} // verus!
