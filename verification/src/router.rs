//! Inference-request router: picks the backend for OpenAI-shaped traffic
//! from the stored backend configuration and the engine's state, and builds
//! the exact target of each proxied call.

use vstd::prelude::*;
use vstd::string::*;

use crate::registry::Registry;
use crate::text::{dec_str, is_prefix, str_eq, str_starts_with, str_trim, str_trim_trailing_slashes, trim_spaces, trim_trailing_slashes};
use crate::u64_to_string;

verus! {

/// Stored backend configuration, as shown to and taken from clients.
///
/// The API key is never echoed: reads carry `api_key: None` and signal
/// `api_key_set` instead.
#[derive(Debug)]
pub struct BackendConfig {
    /// "llamacpp" | "ollama" | "lmstudio" | "vllm" | "openai" | "custom"
    pub backend_type: String,
    pub url: String,
    pub model: String,
    pub api_key: Option<String>,
    pub api_key_set: Option<bool>,
}

impl Default for BackendConfig {
    /// The local engine, with nothing external configured.
    fn default() -> (r: BackendConfig)
        ensures
            r.backend_type@ == "llamacpp"@,
            r.url@.len() == 0,
            r.model@.len() == 0,
            r.api_key is None,
            r.api_key_set == Some(false),
    {
        BackendConfig {
            backend_type: String::from_str("llamacpp"),
            url: String::new(),
            model: String::new(),
            api_key: None,
            api_key_set: Some(false),
        }
    }
}

/// Query for listing a prospective backend's models.
#[derive(Debug)]
pub struct ModelsQuery {
    pub backend_type: String,
    pub url: String,
    pub api_key: Option<String>,
}

/// Where a chat-completions request goes.
#[derive(Debug)]
pub enum ChatRoute {
    /// Proxy the body to this URL, with this bearer token if any.
    Proxy { url: String, bearer: Option<String> },
    /// Refuse with this HTTP status and message.
    Unavailable { status: u16, message: String },
}

/// Where a model-list request goes.
#[derive(Debug)]
pub enum ModelsRoute {
    /// Proxy to this URL, with this bearer token if any.
    Proxy { url: String, bearer: Option<String> },
    /// Answer with an empty OpenAI-shaped list, so clients stay connected.
    EmptyList,
}

/// Why a backend-models query was refused.
#[derive(Debug, Clone, Copy, PartialEq, Eq, Structural)]
pub enum RouterError {
    /// The url parameter is required.
    UrlRequired,
    /// The url must start with "http://" or "https://".
    BadScheme,
}

/// The target of a backend-models query.
#[derive(Debug)]
pub struct ModelsFetchTarget {
    pub url: String,
    pub bearer: Option<String>,
    /// The upstream answers in Ollama's tag-list shape rather than the
    /// OpenAI list shape.
    pub ollama_shape: bool,
}

/// The bearer token attached to a proxied call: the key, when one is set
/// and non-empty.
pub open spec fn spec_bearer(api_key: Option<String>) -> Option<String> {
    match api_key {
        Some(k) => if k@.len() > 0 {
            Some(k)
        } else {
            None
        },
        None => None,
    }
}

fn bearer_of(api_key: Option<String>) -> (r: Option<String>)
    ensures
        r == spec_bearer(api_key),
{
    match api_key {
        Some(k) => {
            if k.as_str().unicode_len() > 0 {
                Some(k)
            } else {
                None
            }
        },
        None => None,
    }
}

/// Route a chat-completions request.
///
/// The local engine serves it only while running; an external backend only
/// when a URL is configured; otherwise the request is refused with 503.
pub fn route_chat_completions(
    backend_type: &str,
    inference_running: bool,
    inference_port: u16,
    backend_url: &str,
    api_key: Option<String>,
) -> (r: ChatRoute)
    ensures
        backend_type@ == "llamacpp"@ && !inference_running ==> (r matches ChatRoute::Unavailable {
            status,
            message,
        } && status == 503 && message@
            == "Inference server is not running. Start it from the Inference page first."@),
        backend_type@ == "llamacpp"@ && inference_running ==> (r matches ChatRoute::Proxy {
            url,
            bearer,
        } && url@ == "http://127.0.0.1:"@ + dec_str(inference_port as nat)
            + "/v1/chat/completions"@ && bearer is None),
        backend_type@ != "llamacpp"@ && backend_url@.len() == 0 ==> (r matches
            ChatRoute::Unavailable { status, message } && status == 503 && message@
            == "No backend URL configured. Set a backend in the Inference page."@),
        backend_type@ != "llamacpp"@ && backend_url@.len() > 0 ==> (r matches ChatRoute::Proxy {
            url,
            bearer,
        } && url@ == trim_trailing_slashes(backend_url@) + "/v1/chat/completions"@ && bearer
            == spec_bearer(api_key)),
{
    if str_eq(backend_type, "llamacpp") {
        if !inference_running {
            return ChatRoute::Unavailable {
                status: 503,
                message: String::from_str(
                    "Inference server is not running. Start it from the Inference page first.",
                ),
            };
        }
        let mut url = String::from_str("http://127.0.0.1:");
        url.append(u64_to_string(inference_port as u64).as_str());
        url.append("/v1/chat/completions");
        return ChatRoute::Proxy { url, bearer: None };
    }
    if backend_url.unicode_len() == 0 {
        return ChatRoute::Unavailable {
            status: 503,
            message: String::from_str(
                "No backend URL configured. Set a backend in the Inference page.",
            ),
        };
    }
    let mut url = str_trim_trailing_slashes(backend_url);
    url.append("/v1/chat/completions");
    ChatRoute::Proxy { url, bearer: bearer_of(api_key) }
}

/// Route a model-list request.  An unreachable or unconfigured target
/// yields the empty list instead of an error, so clients do not treat
/// disconnection as fatal.
pub fn route_models(
    backend_type: &str,
    inference_running: bool,
    inference_port: u16,
    backend_url: &str,
    api_key: Option<String>,
) -> (r: ModelsRoute)
    ensures
        backend_type@ == "llamacpp"@ && !inference_running ==> r is EmptyList,
        backend_type@ == "llamacpp"@ && inference_running ==> (r matches ModelsRoute::Proxy {
            url,
            bearer,
        } && url@ == "http://127.0.0.1:"@ + dec_str(inference_port as nat) + "/v1/models"@
            && bearer is None),
        backend_type@ != "llamacpp"@ && backend_url@.len() == 0 ==> r is EmptyList,
        backend_type@ != "llamacpp"@ && backend_url@.len() > 0 ==> (r matches ModelsRoute::Proxy {
            url,
            bearer,
        } && url@ == trim_trailing_slashes(backend_url@) + "/v1/models"@ && bearer == spec_bearer(
            api_key,
        )),
{
    if str_eq(backend_type, "llamacpp") {
        if !inference_running {
            return ModelsRoute::EmptyList;
        }
        let mut url = String::from_str("http://127.0.0.1:");
        url.append(u64_to_string(inference_port as u64).as_str());
        url.append("/v1/models");
        return ModelsRoute::Proxy { url, bearer: None };
    }
    if backend_url.unicode_len() == 0 {
        return ModelsRoute::EmptyList;
    }
    let mut url = str_trim_trailing_slashes(backend_url);
    url.append("/v1/models");
    ModelsRoute::Proxy { url, bearer: bearer_of(api_key) }
}

/// The body of the empty OpenAI-shaped model list.
pub fn empty_models_body() -> (r: &'static str)
    ensures
        r@ == "{\"object\":\"list\",\"data\":[]}"@,
{
    "{\"object\":\"list\",\"data\":[]}"
}

/// The target of a backend-models query: validate the URL and pick the
/// upstream's list endpoint.
pub fn plan_backend_models_fetch(
    backend_type: &str,
    url: &str,
    api_key: Option<String>,
) -> (r: Result<ModelsFetchTarget, RouterError>)
    ensures
        r == Err::<ModelsFetchTarget, RouterError>(RouterError::UrlRequired) <==> trim_spaces(
            url@,
        ).len() == 0,
        r == Err::<ModelsFetchTarget, RouterError>(RouterError::BadScheme) <==> (trim_spaces(
            url@,
        ).len() > 0 && !is_prefix("http://"@, trim_spaces(url@)) && !is_prefix(
            "https://"@,
            trim_spaces(url@),
        )),
        r matches Ok(t) ==> ({
            let base = trim_trailing_slashes(trim_spaces(url@));
            &&& t.ollama_shape == (backend_type@ == "ollama"@)
            &&& t.ollama_shape ==> t.url@ == base + "/api/tags"@ && t.bearer is None
            &&& !t.ollama_shape ==> t.url@ == base + "/v1/models"@ && t.bearer == spec_bearer(
                api_key,
            )
        }),
{
    let trimmed = str_trim(url);
    if trimmed.as_str().unicode_len() == 0 {
        return Err(RouterError::UrlRequired);
    }
    if !str_starts_with(trimmed.as_str(), "http://") && !str_starts_with(
        trimmed.as_str(),
        "https://",
    ) {
        return Err(RouterError::BadScheme);
    }
    let mut base = str_trim_trailing_slashes(trimmed.as_str());
    if str_eq(backend_type, "ollama") {
        base.append("/api/tags");
        Ok(ModelsFetchTarget { url: base, bearer: None, ollama_shape: true })
    } else {
        base.append("/v1/models");
        Ok(ModelsFetchTarget { url: base, bearer: bearer_of(api_key), ollama_shape: false })
    }
}

// ─── Stored backend configuration ────────────────────────────────────────────

/// Read the backend configuration.  The stored API key itself is never
/// echoed; only whether one is set.
pub fn get_backend_config(reg: &Registry) -> (r: BackendConfig)
    requires
        reg.wf(),
    ensures
        r.backend_type@ == match reg.setting_view("backend_type"@) {
            Some(v) => v,
            None => "llamacpp"@,
        },
        r.url@ == match reg.setting_view("backend_url"@) {
            Some(v) => v,
            None => Seq::<char>::empty(),
        },
        r.model@ == match reg.setting_view("backend_model"@) {
            Some(v) => v,
            None => Seq::<char>::empty(),
        },
        r.api_key is None,
        r.api_key_set == Some(
            match reg.setting_view("backend_api_key"@) {
                Some(v) => v.len() > 0,
                None => false,
            },
        ),
{
    let backend_type = match reg.get_setting("backend_type") {
        Some(v) => v,
        None => String::from_str("llamacpp"),
    };
    let url = match reg.get_setting("backend_url") {
        Some(v) => v,
        None => String::new(),
    };
    let model = match reg.get_setting("backend_model") {
        Some(v) => v,
        None => String::new(),
    };
    let api_key_set = match reg.get_setting("backend_api_key") {
        Some(v) => v.as_str().unicode_len() > 0,
        None => false,
    };
    BackendConfig { backend_type, url, model, api_key: None, api_key_set: Some(api_key_set) }
}

/// Store the backend configuration.  The stored API key is replaced only
/// when the client sent a non-empty value that is not the masking
/// placeholder; an omitted, empty or masked key leaves the stored one.
pub fn set_backend_config(reg: &mut Registry, cfg: BackendConfig)
    requires
        old(reg).wf(),
    ensures
        final(reg).wf(),
        final(reg).devices == old(reg).devices,
        final(reg).roles == old(reg).roles,
        final(reg).allocations == old(reg).allocations,
        final(reg).setting_view("backend_type"@) == Some(cfg.backend_type@),
        final(reg).setting_view("backend_url"@) == Some(cfg.url@),
        final(reg).setting_view("backend_model"@) == Some(cfg.model@),
        final(reg).setting_view("backend_api_key"@) == (match cfg.api_key {
            Some(k) => if k@.len() > 0 && k@ != "****"@ {
                Some(k@)
            } else {
                old(reg).setting_view("backend_api_key"@)
            },
            None => old(reg).setting_view("backend_api_key"@),
        }),
        forall|k: Seq<char>|
            k != "backend_type"@ && k != "backend_url"@ && k != "backend_model"@ && k
                != "backend_api_key"@ ==> #[trigger] final(reg).setting_view(k) == old(
                reg,
            ).setting_view(k),
{
    proof {
        reveal_strlit("backend_type");
        reveal_strlit("backend_url");
        reveal_strlit("backend_model");
        reveal_strlit("backend_api_key");
        assert("backend_type"@.len() != "backend_url"@.len());
        assert("backend_type"@.len() != "backend_model"@.len());
        assert("backend_type"@.len() != "backend_api_key"@.len());
        assert("backend_url"@.len() != "backend_model"@.len());
        assert("backend_url"@.len() != "backend_api_key"@.len());
        assert("backend_model"@.len() != "backend_api_key"@.len());
    }
    reg.set_setting("backend_type", cfg.backend_type.as_str());
    reg.set_setting("backend_url", cfg.url.as_str());
    reg.set_setting("backend_model", cfg.model.as_str());
    if let Some(key) = &cfg.api_key {
        if key.as_str().unicode_len() > 0 && !str_eq(key.as_str(), "****") {
            reg.set_setting("backend_api_key", key.as_str());
        }
    }
}

} // verus!
