//! Ollama integration: the model records it reports and the endpoints the
//! manager talks to.  The process and HTTP handling around them live in the
//! surrounding application.

use vstd::prelude::*;
use vstd::string::*;

verus! {

/// A locally available model, as the Ollama daemon reports it.
#[derive(Debug)]
pub struct OllamaModel {
    pub name: String,
    pub size: u64,
    pub digest: String,
    pub modified_at: String,
}

/// Body of a model-pull request.
#[derive(Debug)]
pub struct PullModelRequest {
    pub name: String,
}

/// The daemon's tag-list endpoint, also used as its health probe.
pub fn ollama_tags_url(host: &str) -> (r: String)
    ensures
        r@ == host@ + "/api/tags"@,
{
    let mut url = String::from_str(host);
    url.append("/api/tags");
    url
}

/// The daemon's model-pull endpoint.
pub fn ollama_pull_url(host: &str) -> (r: String)
    ensures
        r@ == host@ + "/api/pull"@,
{
    let mut url = String::from_str(host);
    url.append("/api/pull");
    url
}

/// The daemon's model-delete endpoint.
pub fn ollama_delete_url(host: &str) -> (r: String)
    ensures
        r@ == host@ + "/api/delete"@,
{
    let mut url = String::from_str(host);
    url.append("/api/delete");
    url
}

} // verus!
