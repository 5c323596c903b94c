//! OpenAI response → Anthropic response, and backend errors → gateway errors.
use vstd::prelude::*;

use crate::anthropic::{
    AnthropicResponse, AnthropicResponseContentBlock, AnthropicUsage, ResponseBlockModel,
};
use crate::error::{message_of, status_of, AppError};
use crate::openai::{opt_view, OpenAIErrorResponse, OpenAIResponse};
use crate::text::{concat, decimal, decimal_string, owned, text_eq};

verus! {

/// The Anthropic stop reason for an OpenAI finish reason: `stop`,
/// `length` and `tool_calls` are renamed, any other passes unchanged.
pub open spec fn stop_reason_for(reason: Seq<char>) -> Seq<char> {
    if reason == "stop"@ {
        "end_turn"@
    } else if reason == "length"@ {
        "max_tokens"@
    } else if reason == "tool_calls"@ {
        "tool_use"@
    } else {
        reason
    }
}

/// Maps an OpenAI finish reason to the Anthropic stop reason.
pub fn map_stop_reason(reason: &str) -> (r: String)
    ensures
        r@ == stop_reason_for(reason@),
{
    if text_eq(reason, "stop") {
        owned("end_turn")
    } else if text_eq(reason, "length") {
        owned("max_tokens")
    } else if text_eq(reason, "tool_calls") {
        owned("tool_use")
    } else {
        owned(reason)
    }
}

/// Converts a non-streaming OpenAI response into an Anthropic response,
/// from its first choice: the role is always `assistant`, the text content
/// becomes one text block, the finish reason is the stop reason, and
/// missing usage counts as zero.
pub fn convert_response(resp: OpenAIResponse) -> (r: AnthropicResponse)
    requires
        resp.choices@.len() > 0,
    ensures
        r.id@ == resp.id@,
        r.response_type@ == "message"@,
        r.role@ == "assistant"@,
        r.content@.map_values(|b: AnthropicResponseContentBlock| b@) == match resp.choices@[0].message.content {
            Some(t) => seq![ResponseBlockModel::Text(t@)],
            None => Seq::<ResponseBlockModel>::empty(),
        },
        r.model@ == resp.model@,
        opt_view(r.stop_reason) == opt_view(resp.choices@[0].finish_reason),
        r.stop_sequence is None,
        r.usage.input_tokens == match resp.usage {
            Some(u) => u.prompt_tokens,
            None => 0,
        },
        r.usage.output_tokens == match resp.usage {
            Some(u) => u.completion_tokens,
            None => 0,
        },
{
    let choice = &resp.choices[0];
    let mut content: Vec<AnthropicResponseContentBlock> = Vec::new();
    if let Some(text) = &choice.message.content {
        content.push(AnthropicResponseContentBlock::Text { text: text.clone() });
        assert(content@.map_values(|b: AnthropicResponseContentBlock| b@) =~= seq![
            ResponseBlockModel::Text(text@),
        ]);
    } else {
        assert(content@.map_values(|b: AnthropicResponseContentBlock| b@) =~= Seq::<
            ResponseBlockModel,
        >::empty());
    }
    let usage = match &resp.usage {
        Some(u) => AnthropicUsage { input_tokens: u.prompt_tokens, output_tokens: u.completion_tokens },
        None => AnthropicUsage { input_tokens: 0, output_tokens: 0 },
    };
    let role = owned("assistant");
    proof {
        reveal_strlit("assistant");
    }
    let stop_reason = match &choice.finish_reason {
        Some(f) => Some(f.clone()),
        None => None,
    };
    AnthropicResponse {
        id: resp.id,
        response_type: owned("message"),
        role,
        content,
        model: resp.model,
        stop_reason,
        stop_sequence: None,
        usage,
    }
}

/// The status of the gateway error that answers a backend failure status:
/// 401 and 403 are authentication errors, 429 a rate limit, anything else
/// an API error.
pub open spec fn backend_error_status(status: u16) -> u16 {
    if status == 401 || status == 403 {
        401
    } else if status == 429 {
        429
    } else {
        502
    }
}

/// The message of the gateway error that answers a backend failure: the
/// backend's own message when its body is an OpenAI error, otherwise a
/// description of the status (and, for other errors, of the body).
pub open spec fn backend_error_message(
    status: u16,
    body: Seq<char>,
    parsed: Option<OpenAIErrorResponse>,
) -> Seq<char> {
    match parsed {
        Some(e) => e.error.message@,
        None => if backend_error_status(status) == 502 {
            "Backend returned "@ + decimal(status as nat) + ": "@ + body
        } else {
            "Backend returned "@ + decimal(status as nat)
        },
    }
}

/// Maps a failed backend response to the gateway error. `body` is the
/// response body; `parsed` is that body read as an OpenAI error body, or
/// `None` when it is not one.
pub fn map_openai_error(status: u16, body: &str, parsed: Option<OpenAIErrorResponse>) -> (r:
    AppError)
    ensures
        status_of(r) == backend_error_status(status),
        message_of(r) == backend_error_message(status, body@, parsed),
        (r is AuthenticationError) <==> (status == 401 || status == 403),
        (r is RateLimitError) <==> status == 429,
        (r is ApiError) <==> !(status == 401 || status == 403 || status == 429),
        match parsed {
            Some(e) => message_of(r) == e.error.message@,
            None => true,
        },
{
    let msg = match parsed {
        Some(err_resp) => err_resp.error.message,
        None => {
            let mut m = concat("Backend returned ", decimal_string(status as u64).as_str());
            if !(status == 401 || status == 403 || status == 429) {
                m.append(": ");
                m.append(body);
            }
            m
        },
    };
    if status == 401 || status == 403 {
        AppError::AuthenticationError(msg)
    } else if status == 429 {
        AppError::RateLimitError(msg)
    } else {
        AppError::ApiError(msg)
    }
}

/// Which gateway error answers a backend failure status: authentication
/// (401) exactly for 401 and 403, rate limit (429) exactly for 429, and an
/// API error (502) for every other status.
pub proof fn law_backend_status_classes(status: u16)
    ensures
        (backend_error_status(status) == 401) <==> (status == 401 || status == 403),
        (backend_error_status(status) == 429) <==> status == 429,
        (backend_error_status(status) == 502) <==> !(status == 401 || status == 403 || status
            == 429),
{
}

/// A backend error body that reads as an OpenAI error gives its message to
/// the gateway error, whatever the status.
pub proof fn law_backend_message_kept(status: u16, body: Seq<char>, e: OpenAIErrorResponse)
    ensures
        backend_error_message(status, body, Some(e)) == e.error.message@,
{
}

} // verus!
