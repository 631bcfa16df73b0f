//! Bidirectional schema mapping between the client-facing OpenAI-style
//! wire format and the backend's native format, for chat and embeddings.
//!
//! JSON parsing and serialisation happen outside the library; the types
//! here carry the parsed fields as plain values. Floating-point numbers
//! travel as their IEEE 754 single-precision bit patterns, which the
//! translation moves but never computes with.

use vstd::prelude::*;
use vstd::string::StrSliceExecFns;
use vstd::string::StringExecFns;

use crate::chunker::chunk_text;
use crate::chunker::spec_chunk_text;
use crate::text::str_eq;
use crate::text::spec_dec;
use crate::text::usize_to_string;

verus! {

/// Client chat request.
#[derive(Debug)]
pub struct OpenAIChatRequest {
    pub model: String,
    pub messages: Vec<OpenAIChatMessage>,
    pub max_tokens: Option<u32>,
    /// Sampling temperature, as an `f32` bit pattern.
    pub temperature: Option<u32>,
    /// Nucleus-sampling bound, as an `f32` bit pattern.
    pub top_p: Option<u32>,
    pub stream: Option<bool>,
}

/// One chat message: a role and its text.
#[derive(Debug, Clone)]
pub struct OpenAIChatMessage {
    pub role: String,
    pub content: String,
}

/// Client chat response.
#[derive(Debug)]
pub struct OpenAIChatResponse {
    pub id: String,
    pub object: String,
    pub created: u64,
    pub model: String,
    pub choices: Vec<OpenAIChatChoice>,
    pub usage: OpenAIChatUsage,
}

/// One answer choice of a chat response.
#[derive(Debug)]
pub struct OpenAIChatChoice {
    pub index: u32,
    pub message: OpenAIChatMessage,
    pub finish_reason: String,
}

/// Token accounting of a chat response.
#[derive(Debug, Clone, Copy, PartialEq, Eq, Structural)]
pub struct OpenAIChatUsage {
    pub prompt_tokens: u32,
    pub completion_tokens: u32,
    pub total_tokens: u32,
}

/// Backend chat request.
#[derive(Debug)]
pub struct OllamaChatRequest {
    pub model: String,
    pub messages: Vec<OpenAIChatMessage>,
    pub stream: Option<bool>,
    pub options: Option<OllamaChatOptions>,
    pub keep_alive: Option<String>,
}

/// Options block of a backend chat request.
#[derive(Debug, Clone, Copy, PartialEq, Eq, Structural)]
pub struct OllamaChatOptions {
    pub num_ctx: Option<u32>,
    pub num_predict: Option<u32>,
    /// Sampling temperature, as an `f32` bit pattern.
    pub temperature: Option<u32>,
    /// Nucleus-sampling bound, as an `f32` bit pattern.
    pub top_p: Option<u32>,
}

/// Backend chat response.
#[derive(Debug)]
pub struct OllamaChatResponse {
    pub model: String,
    pub created_at: String,
    pub message: OpenAIChatMessage,
    pub done: bool,
    pub done_reason: Option<String>,
    pub prompt_eval_count: Option<u32>,
    pub eval_count: Option<u32>,
}

/// Client embeddings request.
#[derive(Debug)]
pub struct OpenAIEmbeddingsRequest {
    pub model: String,
    pub input: InputType,
    pub dimensions: Option<u32>,
    pub encoding_format: Option<String>,
    pub user: Option<String>,
}

/// The embeddings input: one string, or an ordered list of strings.
#[derive(Debug)]
pub enum InputType {
    Single(String),
    Multiple(Vec<String>),
}

/// Backend embeddings request.
#[derive(Debug)]
pub struct OllamaEmbedRequest {
    pub model: String,
    pub input: Vec<String>,
    pub truncate: Option<bool>,
    pub options: Option<OllamaOptions>,
    pub keep_alive: Option<String>,
}

/// Options block of a backend embeddings request.
#[derive(Debug, Clone, Copy, PartialEq, Eq, Structural)]
pub struct OllamaOptions {
    pub num_ctx: u32,
}

/// Backend embeddings response.
#[derive(Debug)]
pub struct OllamaEmbedResponse {
    pub model: String,
    /// The embedding vectors; every entry is an `f32` bit pattern.
    pub embeddings: Vec<Vec<u32>>,
    pub total_duration: Option<u64>,
    pub load_duration: Option<u64>,
    pub prompt_eval_count: Option<u32>,
}

/// Client embeddings response.
#[derive(Debug)]
pub struct OpenAIEmbeddingsResponse {
    pub object: String,
    pub data: Vec<OpenAIEmbedding>,
    pub model: String,
    pub usage: OpenAIUsage,
}

/// One embedding of a client response, with its position.
#[derive(Debug)]
pub struct OpenAIEmbedding {
    pub object: String,
    /// The embedding vector; every entry is an `f32` bit pattern.
    pub embedding: Vec<u32>,
    pub index: usize,
}

/// Token accounting of an embeddings response.
#[derive(Debug, Clone, Copy, PartialEq, Eq, Structural)]
pub struct OpenAIUsage {
    pub prompt_tokens: u32,
    pub total_tokens: u32,
}

/// Some input is longer than the cap.
pub open spec fn spec_any_over(items: Seq<Seq<char>>, cap: int) -> bool {
    exists|j: int| 0 <= j < items.len() && (#[trigger] items[j]).len() > cap
}

/// The longest input's length.
pub open spec fn spec_max_input_len(items: Seq<Seq<char>>) -> int
    decreases items.len(),
{
    if items.len() == 0 {
        0
    } else {
        let rest = spec_max_input_len(items.drop_last());
        if items.last().len() >= rest {
            items.last().len() as int
        } else {
            rest
        }
    }
}

/// The inputs after chunking: inputs within the cap stay as they are,
/// each oversized input is replaced by its chunks, in order.
pub open spec fn spec_prepared(items: Seq<Seq<char>>, cap: int) -> Seq<Seq<char>>
    decreases items.len(),
{
    if items.len() == 0 {
        Seq::empty()
    } else {
        spec_prepared(items.drop_last(), cap) + (if items.last().len() <= cap {
            seq![items.last()]
        } else {
            spec_chunk_text(items.last(), cap)
        })
    }
}

/// When no input is oversized, chunking changes nothing.
pub proof fn lemma_prepared_identity(items: Seq<Seq<char>>, cap: int)
    requires
        forall|j: int| 0 <= j < items.len() ==> (#[trigger] items[j]).len() <= cap,
    ensures
        spec_prepared(items, cap) == items,
    decreases items.len(),
{
    if items.len() > 0 {
        lemma_prepared_identity(items.drop_last(), cap);
        assert(spec_prepared(items, cap) =~= items);
    }
}

/// The message refused oversized input carries: it names the longest
/// input's length and the configured cap.
pub open spec fn spec_too_large_message(size: int, cap: int) -> Seq<char> {
    "Input too large ("@ + spec_dec(size as nat) + " characters). Maximum is "@ + spec_dec(
        cap as nat,
    ) + " characters. Enable chunking or reduce input size."@
}

fn too_large_message(size: usize, cap: usize) -> (r: String)
    ensures
        r@ == spec_too_large_message(size as int, cap as int),
{
    let mut m = String::from_str("Input too large (");
    m.append(usize_to_string(size).as_str());
    m.append(" characters). Maximum is ");
    m.append(usize_to_string(cap).as_str());
    m.append(" characters. Enable chunking or reduce input size.");
    m
}

/// Readies embedding inputs for the backend.
///
/// When every input fits the cap the inputs pass through unchanged. When
/// one is oversized and chunking is off, the call fails with the message
/// [`spec_too_large_message`] states, naming the longest input and the
/// cap. With chunking on, each oversized input is replaced by its
/// chunks, as [`spec_prepared`] states.
pub fn prepare_embeddings_input(
    input: Vec<String>,
    max_input_length: usize,
    enable_chunking: bool,
) -> (r: Result<Vec<String>, String>)
    ensures
        r is Ok <==> (enable_chunking || !spec_any_over(input.deep_view(), max_input_length as int)),
        r matches Ok(out) ==> out.deep_view() == spec_prepared(
            input.deep_view(),
            max_input_length as int,
        ),
        r matches Err(e) ==> e@ == spec_too_large_message(
            spec_max_input_len(input.deep_view()),
            max_input_length as int,
        ),
{
    let ghost items = input.deep_view();
    let n = input.len();
    proof {
        assert(items.len() == n);
    }
    let mut needs: bool = false;
    let mut longest: usize = 0;
    let mut i: usize = 0;
    while i < n
        invariant
            i <= n,
            n == items.len(),
            items == input.deep_view(),
            n == input@.len(),
            forall|j: int| 0 <= j < n ==> (#[trigger] items[j]) == input@[j]@,
            needs ==> spec_any_over(items, max_input_length as int),
            !needs ==> forall|j: int|
                0 <= j < i ==> (#[trigger] items[j]).len() <= max_input_length,
            longest == spec_max_input_len(items.subrange(0, i as int)),
            longest <= usize::MAX,
        decreases n - i,
    {
        let len_i = input[i].as_str().unicode_len();
        proof {
            assert(items.subrange(0, i + 1).drop_last() =~= items.subrange(0, i as int));
            assert(items.subrange(0, i + 1).last() == items[i as int]);
        }
        if len_i > max_input_length {
            proof {
                assert(items[i as int].len() > max_input_length);
            }
            needs = true;
        }
        if len_i > longest {
            longest = len_i;
        }
        i += 1;
    }
    proof {
        assert(items.subrange(0, n as int) =~= items);
    }
    if !needs {
        proof {
            lemma_prepared_identity(items, max_input_length as int);
        }
        return Ok(input);
    }
    if !enable_chunking {
        return Err(too_large_message(longest, max_input_length));
    }
    let mut out: Vec<String> = Vec::new();
    let mut k: usize = 0;
    while k < n
        invariant
            k <= n,
            n == items.len(),
            items == input.deep_view(),
            n == input@.len(),
            forall|j: int| 0 <= j < n ==> (#[trigger] items[j]) == input@[j]@,
            out.deep_view() == spec_prepared(items.subrange(0, k as int), max_input_length as int),
        decreases n - k,
    {
        let ghost before = out.deep_view();
        let len_k = input[k].as_str().unicode_len();
        proof {
            assert(items.subrange(0, k + 1).drop_last() =~= items.subrange(0, k as int));
            assert(items.subrange(0, k + 1).last() == items[k as int]);
        }
        if len_k <= max_input_length {
            out.push(input[k].clone());
            proof {
                assert(out.deep_view() =~= before + seq![items[k as int]]);
            }
        } else {
            let mut chunks = chunk_text(input[k].as_str(), max_input_length);
            let ghost cview = chunks.deep_view();
            out.append(&mut chunks);
            proof {
                assert(out.deep_view() =~= before + cview);
            }
        }
        proof {
            assert(out.deep_view() =~= spec_prepared(
                items.subrange(0, k + 1),
                max_input_length as int,
            ));
        }
        k += 1;
    }
    proof {
        assert(items.subrange(0, n as int) =~= items);
    }
    Ok(out)
}

/// The ordered string sequence an embeddings input denotes.
pub open spec fn spec_inputs_of(input: InputType) -> Seq<Seq<char>> {
    match input {
        InputType::Single(s) => seq![s@],
        InputType::Multiple(v) => v.deep_view(),
    }
}

/// Normalises the embeddings input to an ordered list of strings.
pub fn inputs_of(input: InputType) -> (r: Vec<String>)
    ensures
        r.deep_view() == spec_inputs_of(input),
{
    match input {
        InputType::Single(s) => {
            let mut v: Vec<String> = Vec::new();
            let ghost sv = s@;
            v.push(s);
            proof {
                assert(v.deep_view() =~= seq![sv]);
            }
            v
        },
        InputType::Multiple(v) => v,
    }
}

/// Translates a client embeddings request to the backend schema.
///
/// The input is normalised to a list, readied by
/// [`prepare_embeddings_input`], and wrapped with `truncate` set and the
/// effective context size in the options block. Failure happens exactly
/// when an input is oversized while chunking is off, with the message
/// [`spec_too_large_message`] states.
pub fn translate_openai_embeddings_to_ollama(
    req: OpenAIEmbeddingsRequest,
    num_ctx: u32,
    max_input_length: usize,
    enable_chunking: bool,
) -> (r: Result<OllamaEmbedRequest, String>)
    ensures
        r is Ok <==> (enable_chunking || !spec_any_over(
            spec_inputs_of(req.input),
            max_input_length as int,
        )),
        r matches Ok(o) ==> {
            &&& o.model == req.model
            &&& o.input.deep_view() == spec_prepared(
                spec_inputs_of(req.input),
                max_input_length as int,
            )
            &&& o.truncate == Some(true)
            &&& o.options == Some(OllamaOptions { num_ctx })
            &&& o.keep_alive is None
        },
        r matches Err(e) ==> e@ == spec_too_large_message(
            spec_max_input_len(spec_inputs_of(req.input)),
            max_input_length as int,
        ),
{
    let ghost inputs0 = spec_inputs_of(req.input);
    let input = inputs_of(req.input);
    match prepare_embeddings_input(input, max_input_length, enable_chunking) {
        Ok(prepared) => Ok(
            OllamaEmbedRequest {
                model: req.model,
                input: prepared,
                truncate: Some(true),
                options: Some(OllamaOptions { num_ctx }),
                keep_alive: None,
            },
        ),
        Err(e) => Err(e),
    }
}

/// The token count an embeddings response reports, zero when absent.
pub open spec fn spec_prompt_tokens(count: Option<u32>) -> u32 {
    match count {
        Some(c) => c,
        None => 0,
    }
}

/// Translates a backend embeddings response to the client schema: the
/// vectors in order, each tagged with its position, and the usage taken
/// from the reported token count.
pub fn translate_ollama_embed_to_openai(resp: OllamaEmbedResponse, model: String) -> (r:
    OpenAIEmbeddingsResponse)
    ensures
        r.object@ == "list"@,
        r.model == model,
        r.data@.len() == resp.embeddings@.len(),
        forall|i: int|
            0 <= i < r.data@.len() ==> {
                &&& (#[trigger] r.data@[i]).object@ == "embedding"@
                &&& r.data@[i].embedding@ == resp.embeddings@[i]@
                &&& r.data@[i].index == i
            },
        r.usage.prompt_tokens == spec_prompt_tokens(resp.prompt_eval_count),
        r.usage.total_tokens == spec_prompt_tokens(resp.prompt_eval_count),
{
    let mut data: Vec<OpenAIEmbedding> = Vec::new();
    let mut embeddings = resp.embeddings;
    let ghost evs = embeddings@;
    let n = embeddings.len();
    let mut i: usize = 0;
    while i < n
        invariant
            i <= n,
            n == evs.len(),
            embeddings@.len() == n - i,
            forall|j: int| 0 <= j < n - i ==> (#[trigger] embeddings@[j]) == evs[i + j],
            data@.len() == i,
            forall|j: int|
                0 <= j < i ==> {
                    &&& (#[trigger] data@[j]).object@ == "embedding"@
                    &&& data@[j].embedding@ == evs[j]@
                    &&& data@[j].index == j
                },
        decreases n - i,
    {
        let v = embeddings.remove(0);
        data.push(OpenAIEmbedding { object: String::from_str("embedding"), embedding: v, index: i });
        i += 1;
    }
    let prompt_tokens: u32 = match resp.prompt_eval_count {
        Some(c) => c,
        None => 0,
    };
    OpenAIEmbeddingsResponse {
        object: String::from_str("list"),
        data,
        model,
        usage: OpenAIUsage { prompt_tokens, total_tokens: prompt_tokens },
    }
}

/// Paths the gateway translates rather than passes through.
pub fn needs_translation(path: &str) -> (r: bool)
    ensures
        r <==> (path@ == "/v1/embeddings"@ || path@ == "/v1/chat/completions"@),
{
    str_eq(path, "/v1/embeddings") || str_eq(path, "/v1/chat/completions")
}

/// The backend path a client path maps to: the two translated routes go
/// to the native embed and chat paths, everything else is unchanged.
pub fn get_ollama_endpoint<'a>(openai_path: &'a str) -> (r: &'a str)
    ensures
        openai_path@ == "/v1/embeddings"@ ==> r@ == "/api/embed"@,
        openai_path@ == "/v1/chat/completions"@ ==> r@ == "/api/chat"@,
        openai_path@ != "/v1/embeddings"@ && openai_path@ != "/v1/chat/completions"@ ==> r@
            == openai_path@,
{
    if str_eq(openai_path, "/v1/embeddings") {
        proof {
            // The two translated routes differ, so only this branch matches.
            reveal_strlit("/v1/embeddings");
            reveal_strlit("/v1/chat/completions");
            assert("/v1/embeddings"@.len() == 14);
            assert("/v1/chat/completions"@.len() == 20);
            assert(openai_path@ != "/v1/chat/completions"@);
        }
        "/api/embed"
    } else if str_eq(openai_path, "/v1/chat/completions") {
        "/api/chat"
    } else {
        openai_path
    }
}

/// Epoch seconds an RFC 3339 timestamp denotes, by chrono's parser.
pub uninterp spec fn spec_rfc3339_epoch(s: Seq<char>) -> Option<i64>;

/// Relies on chrono's `DateTime::parse_from_rfc3339` and `timestamp`:
/// the outcome depends on the characters of `s` alone.
#[verifier::external_body]
fn parse_rfc3339_epoch(s: &str) -> (r: Option<i64>)
    ensures
        r == spec_rfc3339_epoch(s@),
{
    chrono::DateTime::parse_from_rfc3339(s).ok().map(|d| d.timestamp())
}

/// Epoch seconds a bare `YYYY-MM-DDTHH:MM:SS[.f]Z` timestamp denotes,
/// read as UTC, by chrono's parser.
pub uninterp spec fn spec_simple_datetime_epoch(s: Seq<char>) -> Option<i64>;

/// Relies on chrono's `NaiveDateTime::parse_from_str` with the fixed
/// layout `%Y-%m-%dT%H:%M:%S%.fZ`, and `and_utc().timestamp()`: the
/// outcome depends on the characters of `s` alone.
#[verifier::external_body]
fn parse_simple_datetime_epoch(s: &str) -> (r: Option<i64>)
    ensures
        r == spec_simple_datetime_epoch(s@),
{
    chrono::NaiveDateTime::parse_from_str(s, "%Y-%m-%dT%H:%M:%S%.fZ")
        .ok()
        .map(|d| d.and_utc().timestamp())
}

/// Relies on uuid's `Uuid::new_v4` and the simple format: the string is
/// 32 hexadecimal digits, freshly drawn at random. The one failure uuid
/// admits is environmental: when the operating system's randomness
/// source fails, the call aborts the process.
#[verifier::external_body]
fn random_uuid_simple() -> (r: String)
    ensures
        r@.len() == 32,
{
    uuid::Uuid::new_v4().simple().to_string()
}

/// Relies on std's `SystemTime::now` and `duration_since`: seconds since
/// the Unix epoch by the system clock, zero if the clock reads earlier.
#[verifier::external_body]
fn now_epoch_secs() -> u64 {
    std::time::SystemTime::now()
        .duration_since(std::time::UNIX_EPOCH)
        .map(|d| d.as_secs())
        .unwrap_or(0)
}

/// Epoch seconds a backend timestamp denotes: first read as RFC 3339,
/// then as a bare UTC timestamp; the signed count is narrowed to `u64`.
pub open spec fn spec_parse_ollama_timestamp(s: Seq<char>) -> Option<u64> {
    match spec_rfc3339_epoch(s) {
        Some(t) => Some(t as u64),
        None => match spec_simple_datetime_epoch(s) {
            Some(t) => Some(t as u64),
            None => None,
        },
    }
}

/// Reads a backend timestamp, as [`spec_parse_ollama_timestamp`] states.
fn parse_ollama_timestamp(timestamp: &str) -> (r: Option<u64>)
    ensures
        r == spec_parse_ollama_timestamp(timestamp@),
{
    if let Some(t) = parse_rfc3339_epoch(timestamp) {
        return Some(#[verifier::truncate] (t as u64));
    }
    if let Some(t) = parse_simple_datetime_epoch(timestamp) {
        return Some(#[verifier::truncate] (t as u64));
    }
    None
}

/// The model-keep-alive hint, tiered by context size: above 32,000 the
/// backend is asked to hold the model ten minutes, above 16,000 five,
/// otherwise nothing is asked.
pub open spec fn spec_keep_alive_hint(num_ctx: Option<u32>) -> Option<Seq<char>> {
    match num_ctx {
        Some(c) => if c > 32000 {
            Some("10m"@)
        } else if c > 16000 {
            Some("5m"@)
        } else {
            None
        },
        None => None,
    }
}

/// Translates a client chat request to the backend schema: the messages
/// travel unchanged, the options block carries the context size, the
/// generation limit and the sampling settings, streaming defaults to
/// off, and the keep-alive hint follows [`spec_keep_alive_hint`].
pub fn translate_openai_chat_to_ollama(req: OpenAIChatRequest, num_ctx: Option<u32>) -> (r:
    OllamaChatRequest)
    ensures
        r.model == req.model,
        r.messages == req.messages,
        r.stream == (if req.stream is Some {
            req.stream
        } else {
            Some(false)
        }),
        r.options == Some(
            OllamaChatOptions {
                num_ctx,
                num_predict: req.max_tokens,
                temperature: req.temperature,
                top_p: req.top_p,
            },
        ),
        (r.keep_alive is Some) == (spec_keep_alive_hint(num_ctx) is Some),
        r.keep_alive matches Some(s) ==> Some(s@) == spec_keep_alive_hint(num_ctx),
{
    let options = Some(
        OllamaChatOptions {
            num_ctx,
            num_predict: req.max_tokens,
            temperature: req.temperature,
            top_p: req.top_p,
        },
    );
    let keep_alive: Option<String> = match num_ctx {
        Some(c) => {
            if c > 32000 {
                Some(String::from_str("10m"))
            } else if c > 16000 {
                Some(String::from_str("5m"))
            } else {
                None
            }
        },
        None => None,
    };
    let stream = match req.stream {
        Some(b) => Some(b),
        None => Some(false),
    };
    OllamaChatRequest { model: req.model, messages: req.messages, stream, options, keep_alive }
}

/// The finish reason a backend chat response maps to: a reported
/// `"length"` keeps its name, every other reported reason and a finished
/// response read `"stop"`, and an unfinished response reads `"length"`.
pub open spec fn spec_finish_reason(resp: OllamaChatResponse) -> Seq<char> {
    match resp.done_reason {
        Some(reason) => if reason@ == "length"@ {
            "length"@
        } else {
            "stop"@
        },
        None => if resp.done {
            "stop"@
        } else {
            "length"@
        },
    }
}

/// Translates a backend chat response to the client schema.
///
/// The answer becomes the single choice, under a fresh opaque completion
/// id. `created` is the backend's timestamp when it parses — otherwise
/// the clock now. The finish reason follows [`spec_finish_reason`], and
/// the usage adds the prompt and completion counts, wrapping at 32 bits.
pub fn translate_ollama_chat_to_openai(resp: OllamaChatResponse, _model_fallback: String) -> (r:
    OpenAIChatResponse)
    ensures
        r.id@.len() == 33,
        r.id@.subrange(0, 9) == "chatcmpl-"@,
        r.object@ == "chat.completion"@,
        spec_parse_ollama_timestamp(resp.created_at@) matches Some(t) ==> r.created == t,
        r.model == resp.model,
        r.choices@.len() == 1,
        r.choices@[0].index == 0,
        r.choices@[0].message == resp.message,
        r.choices@[0].finish_reason@ == spec_finish_reason(resp),
        r.usage.prompt_tokens == spec_prompt_tokens(resp.prompt_eval_count),
        r.usage.completion_tokens == spec_prompt_tokens(resp.eval_count),
        ({
            let p = spec_prompt_tokens(resp.prompt_eval_count) as int;
            let c = spec_prompt_tokens(resp.eval_count) as int;
            &&& p + c <= u32::MAX ==> r.usage.total_tokens == p + c
            &&& p + c > u32::MAX ==> r.usage.total_tokens == p + c - 0x1_0000_0000
        }),
{
    let uuid_hex = random_uuid_simple();
    let head = uuid_hex.as_str().substring_char(0, 24);
    let mut id = String::from_str("chatcmpl-");
    id.append(head);
    proof {
        reveal_strlit("chatcmpl-");
        assert(id@.subrange(0, 9) =~= "chatcmpl-"@);
    }
    let created: u64 = match parse_ollama_timestamp(resp.created_at.as_str()) {
        Some(t) => t,
        None => now_epoch_secs(),
    };
    let finish_reason: String = match &resp.done_reason {
        Some(reason) => {
            if str_eq(reason.as_str(), "length") {
                String::from_str("length")
            } else {
                String::from_str("stop")
            }
        },
        None => {
            if resp.done {
                String::from_str("stop")
            } else {
                String::from_str("length")
            }
        },
    };
    let prompt_tokens: u32 = match resp.prompt_eval_count {
        Some(c) => c,
        None => 0,
    };
    let completion_tokens: u32 = match resp.eval_count {
        Some(c) => c,
        None => 0,
    };
    let total_tokens = prompt_tokens.wrapping_add(completion_tokens);
    let mut choices: Vec<OpenAIChatChoice> = Vec::new();
    choices.push(OpenAIChatChoice { index: 0, message: resp.message, finish_reason });
    OpenAIChatResponse {
        id,
        object: String::from_str("chat.completion"),
        created,
        model: resp.model,
        choices,
        usage: OpenAIChatUsage { prompt_tokens, completion_tokens, total_tokens },
    }
}

} // verus!
