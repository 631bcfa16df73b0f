//! The gateway's dispatch decisions and request builders.
//!
//! The routing itself, the retry rule, header filtering, and the
//! construction of outgoing backend requests are decided here over plain
//! values; the surrounding process performs the transport work and hands
//! the outcomes back.

use vstd::prelude::*;
use vstd::string::StrSliceExecFns;
use vstd::string::StringExecFns;

use crate::model_metadata::ModelMetadata;
use crate::modifier::apply_modifiers;
use crate::modifier::effective_context;
use crate::modifier::spec_effective_context;
use crate::modifier::RequestPayload;
use crate::text::spec_lower;
use crate::text::str_eq_lower;
use crate::translator::spec_keep_alive_hint;
use crate::translator::translate_openai_chat_to_ollama;
use crate::translator::OllamaChatOptions;
use crate::translator::OllamaChatRequest;
use crate::translator::OllamaEmbedRequest;
use crate::translator::OllamaOptions;
use crate::translator::OpenAIChatRequest;
use crate::translator::OpenAIEmbedding;
use crate::translator::OpenAIEmbeddingsResponse;
use crate::translator::OpenAIUsage;
use crate::translator::spec_any_over;

verus! {

/// What to do after a failed attempt at a chunk sub-request.
#[derive(Clone, Copy, Debug, PartialEq, Eq, Structural)]
pub enum RetryAction {
    /// Give the attempt up and surface the failure.
    Abort,
    /// Wait [`RETRY_BACKOFF_MILLIS`] and send again.
    Retry,
}

/// The fixed delay between retry attempts, in milliseconds.
pub const RETRY_BACKOFF_MILLIS: u64 = 500;

/// The retry rule for chunk sub-requests: a timeout fails at once, a
/// spent attempt budget fails, anything else waits out the backoff and
/// tries again.
pub fn retry_decision(attempts: usize, max_retries: usize, is_timeout: bool) -> (r: RetryAction)
    ensures
        r == RetryAction::Retry <==> (!is_timeout && attempts < max_retries),
{
    if is_timeout {
        RetryAction::Abort
    } else if attempts >= max_retries {
        RetryAction::Abort
    } else {
        RetryAction::Retry
    }
}

/// The model a request body names: the client schema's `model` field
/// first, then the native schema's `name` field.
pub fn extract_model_name(model: &Option<String>, name: &Option<String>) -> (r: Option<String>)
    ensures
        model matches Some(m) ==> (r matches Some(s) && s@ == m@),
        model is None ==> (name matches Some(m) ==> (r matches Some(s) && s@ == m@)),
        model is None && name is None ==> r is None,
{
    if let Some(m) = model {
        return Some(m.clone());
    }
    if let Some(m) = name {
        return Some(m.clone());
    }
    None
}

/// A request asks for streaming exactly when its body sets `stream` to
/// true.
pub fn is_streaming_request(stream: Option<bool>) -> (r: bool)
    ensures
        r == (stream == Some(true)),
{
    match stream {
        Some(b) => b,
        None => false,
    }
}

/// Headers the passthrough copies to the backend: everything except
/// `host` and `content-length`, compared without regard to letter case.
pub fn should_forward_header(name: &str) -> (r: bool)
    ensures
        r <==> !(spec_lower(name@) == "host"@ || spec_lower(name@) == "content-length"@),
{
    !(str_eq_lower(name, "host") || str_eq_lower(name, "content-length"))
}

/// Some input is longer than the cap, so the embeddings flow must chunk.
pub fn any_input_exceeds(inputs: &Vec<String>, cap: usize) -> (r: bool)
    ensures
        r == spec_any_over(inputs.deep_view(), cap as int),
{
    let n = inputs.len();
    let mut i: usize = 0;
    while i < n
        invariant
            i <= n,
            n == inputs@.len(),
            n == inputs.deep_view().len(),
            forall|j: int| 0 <= j < n ==> (#[trigger] inputs.deep_view()[j]) == inputs@[j]@,
            forall|j: int| 0 <= j < i ==> (#[trigger] inputs.deep_view()[j]).len() <= cap,
        decreases n - i,
    {
        if inputs[i].as_str().unicode_len() > cap {
            proof {
                assert(inputs.deep_view()[i as int].len() > cap);
            }
            return true;
        }
        i += 1;
    }
    false
}

/// One backend embed request per chunk: each carries exactly one chunk
/// as its input, `truncate` set, and the effective context size.
pub fn build_chunk_requests(model: &str, chunks: &Vec<String>, num_ctx: u32) -> (r: Vec<
    OllamaEmbedRequest,
>)
    ensures
        r@.len() == chunks@.len(),
        forall|i: int|
            0 <= i < r@.len() ==> {
                &&& (#[trigger] r@[i]).model@ == model@
                &&& r@[i].input.deep_view() =~= seq![chunks@[i]@]
                &&& r@[i].truncate == Some(true)
                &&& r@[i].options == Some(OllamaOptions { num_ctx })
                &&& r@[i].keep_alive is None
            },
{
    let n = chunks.len();
    let mut out: Vec<OllamaEmbedRequest> = Vec::new();
    let mut i: usize = 0;
    while i < n
        invariant
            i <= n,
            n == chunks@.len(),
            out@.len() == i,
            forall|j: int|
                0 <= j < i ==> {
                    &&& (#[trigger] out@[j]).model@ == model@
                    &&& out@[j].input.deep_view() =~= seq![chunks@[j]@]
                    &&& out@[j].truncate == Some(true)
                    &&& out@[j].options == Some(OllamaOptions { num_ctx })
                    &&& out@[j].keep_alive is None
                },
        decreases n - i,
    {
        let mut input: Vec<String> = Vec::new();
        input.push(chunks[i].clone());
        let req = OllamaEmbedRequest {
            model: String::from_str(model),
            input,
            truncate: Some(true),
            options: Some(OllamaOptions { num_ctx }),
            keep_alive: None,
        };
        proof {
            assert(req.input.deep_view() =~= seq![chunks@[i as int]@]);
        }
        out.push(req);
        i += 1;
    }
    out
}

/// The usage figure of a merged embedding answer: ten per chunk,
/// saturating at the 32-bit ceiling.
pub open spec fn spec_merged_usage(chunk_count: int) -> u32 {
    if chunk_count <= (u32::MAX / 10) as int {
        (chunk_count * 10) as u32
    } else {
        u32::MAX
    }
}

/// The client answer of the chunked embeddings flow.
///
/// However many inputs and chunks went in, everything is pooled into the
/// one vector handed here, which becomes the single embedding at
/// position zero, with the usage [`spec_merged_usage`] states.
pub fn build_merged_response(embedding: Vec<u32>, model: String, chunk_count: usize) -> (r:
    OpenAIEmbeddingsResponse)
    ensures
        r.object@ == "list"@,
        r.model == model,
        r.data@.len() == 1,
        r.data@[0].object@ == "embedding"@,
        r.data@[0].embedding == embedding,
        r.data@[0].index == 0,
        r.usage.prompt_tokens == spec_merged_usage(chunk_count as int),
        r.usage.total_tokens == spec_merged_usage(chunk_count as int),
{
    let tokens: u32 = if chunk_count <= (u32::MAX / 10) as usize {
        (chunk_count as u32) * 10
    } else {
        u32::MAX
    };
    let mut data: Vec<OpenAIEmbedding> = Vec::new();
    data.push(OpenAIEmbedding { object: String::from_str("embedding"), embedding, index: 0 });
    OpenAIEmbeddingsResponse {
        object: String::from_str("list"),
        data,
        model,
        usage: OpenAIUsage { prompt_tokens: tokens, total_tokens: tokens },
    }
}

/// The payload image of a backend chat request, for the modifier
/// pipeline: chat-shaped, no top-level fields, and the options block's
/// `num_predict` and `num_ctx`.
pub fn chat_request_payload(r: &OllamaChatRequest) -> (p: RequestPayload)
    ensures
        p.is_chat,
        p.has_options == (r.options is Some),
        p.max_tokens is None,
        p.num_predict == (match r.options {
            Some(o) => o.num_predict,
            None => None,
        }),
        p.options_num_ctx == (match r.options {
            Some(o) => match o.num_ctx {
                Some(c) => Some(c as u64),
                None => None,
            },
            None => None,
        }),
        p.top_num_ctx is None,
{
    let (has_options, num_predict, options_num_ctx): (bool, Option<u32>, Option<u64>) =
        match &r.options {
        Some(o) => (
            true,
            o.num_predict,
            match o.num_ctx {
                Some(c) => Some(c as u64),
                None => None,
            },
        ),
        None => (false, None, None),
    };
    RequestPayload {
        is_chat: true,
        has_options,
        max_tokens: None,
        num_predict,
        options_num_ctx,
        top_num_ctx: None,
    }
}

/// Writes the pipeline's outcome back into a backend chat request: the
/// options block takes the payload's `num_predict` and `num_ctx`; every
/// other field stays as it was.
pub fn apply_payload_to_chat_request(r: &mut OllamaChatRequest, p: &RequestPayload)
    requires
        p.options_num_ctx matches Some(v) ==> v <= u32::MAX,
    ensures
        final(r).model == old(r).model,
        final(r).messages == old(r).messages,
        final(r).stream == old(r).stream,
        final(r).keep_alive == old(r).keep_alive,
        final(r).options matches Some(o) && o == (OllamaChatOptions {
            num_ctx: match p.options_num_ctx {
                Some(v) => Some(v as u32),
                None => match old(r).options {
                    Some(oo) => oo.num_ctx,
                    None => None,
                },
            },
            num_predict: p.num_predict,
            temperature: match old(r).options {
                Some(oo) => oo.temperature,
                None => None,
            },
            top_p: match old(r).options {
                Some(oo) => oo.top_p,
                None => None,
            },
        }),
{
    let ctx: Option<u32> = match p.options_num_ctx {
        Some(v) => Some(v as u32),
        None => match &r.options {
            Some(oo) => oo.num_ctx,
            None => None,
        },
    };
    match &mut r.options {
        Some(o) => {
            o.num_predict = p.num_predict;
            o.num_ctx = ctx;
        },
        None => {
            r.options = Some(
                OllamaChatOptions {
                    num_ctx: ctx,
                    num_predict: p.num_predict,
                    temperature: None,
                    top_p: None,
                },
            );
        },
    }
}

/// Builds the backend chat request the gateway sends.
///
/// The client request is translated with the effective context size,
/// then the modifier pipeline runs over it. The result always carries
/// `num_ctx` equal to `min(trainedContextLength, maxContextOverride)` —
/// never more — and `num_predict` equal to the requested `max_tokens`,
/// or 4096 when none was requested.
pub fn build_chat_backend_request(
    req: OpenAIChatRequest,
    metadata: &ModelMetadata,
    max_context_override: u32,
) -> (r: OllamaChatRequest)
    ensures
        ({
            let eff = spec_effective_context(metadata.n_ctx_train, max_context_override);
            let tokens: u32 = match req.max_tokens {
                Some(t) => t,
                None => 4096,
            };
            &&& r.model == req.model
            &&& r.messages == req.messages
            &&& r.stream == (if req.stream is Some {
                req.stream
            } else {
                Some(false)
            })
            &&& (r.keep_alive is Some) == (spec_keep_alive_hint(Some(eff)) is Some)
            &&& (r.keep_alive matches Some(s) ==> Some(s@) == spec_keep_alive_hint(Some(eff)))
            &&& r.options == Some(
                OllamaChatOptions {
                    num_ctx: Some(eff),
                    num_predict: Some(tokens),
                    temperature: req.temperature,
                    top_p: req.top_p,
                },
            )
        }),
{
    let eff = effective_context(metadata.n_ctx_train, max_context_override);
    let mut native = translate_openai_chat_to_ollama(req, Some(eff));
    let mut payload = chat_request_payload(&native);
    apply_modifiers(&mut payload, metadata, max_context_override);
    apply_payload_to_chat_request(&mut native, &payload);
    native
}

} // verus!
