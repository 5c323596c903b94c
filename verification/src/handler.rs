//! The state shared by the request handlers, and the routing decisions
//! they make before calling the backend.
use std::sync::Arc;

use vstd::prelude::*;

use crate::config::{first_named, unknown_model_message, AppConfig, ModelConfig};
use crate::error::AppError;
use crate::text::{concat, trim_end_char, trim_end_matches_char};

verus! {

/// The HTTP client type the handlers send backend requests with
/// (`reqwest::Client`); the library only carries it.
#[verifier::external_type_specification]
#[verifier::external_body]
pub struct ExClient(reqwest::Client);

/// Cloning a client (`reqwest::Client::clone`): reqwest documents that a
/// `Client` keeps its connection pool behind an `Arc`, so the clone shares
/// it. Nothing is stated of the result.
pub assume_specification[ <reqwest::Client as std::clone::Clone>::clone ](
    client: &reqwest::Client,
) -> reqwest::Client;

/// The state every handler receives: the configuration and the HTTP client.
#[derive(Clone)]
pub struct AppState {
    pub config: Arc<AppConfig>,
    pub client: reqwest::Client,
}

/// The configured model a request names; an unknown name is an invalid
/// request (`Unknown model: <name>`).
pub fn resolve_model<'a>(state: &'a AppState, model_name: &str) -> (r: Result<
    &'a ModelConfig,
    AppError,
>)
    ensures
        match first_named(state.config.models@, model_name@) {
            Some(i) => r == Ok::<&ModelConfig, AppError>(&state.config.models@[i]),
            None => r matches Err(AppError::InvalidRequestError(m)) && m@ == unknown_model_message(
                model_name@,
            ),
        },
{
    state.config.require_model(model_name)
}

/// The path of the backend's chat completions endpoint.
pub open spec fn chat_path() -> Seq<char> {
    "/v1/chat/completions"@
}

/// The backend URL for chat completions: the model's base URL without
/// trailing slashes, then `/v1/chat/completions`.
pub fn backend_chat_url(base_url: &str) -> (r: String)
    ensures
        r@ == trim_end_char(base_url@, '/') + chat_path(),
{
    let base = trim_end_matches_char(base_url, '/');
    let r = concat(base.as_str(), "/v1/chat/completions");
    proof {
        reveal_strlit("/v1/chat/completions");
    }
    r
}

} // verus!
