use ollama_proxy::chunker::chunk_text;
use ollama_proxy::gateway::{
    any_input_exceeds, build_chat_backend_request, build_chunk_requests, build_merged_response,
    extract_model_name, is_streaming_request, retry_decision, should_forward_header, RetryAction,
    RETRY_BACKOFF_MILLIS,
};
use ollama_proxy::model_metadata::{
    extract_model_type, extract_n_ctx_train, metadata_from_description, InfoField,
    ModelDescription, ModelMetadata,
};
use ollama_proxy::modifier::{effective_context, ContextLimitModifier, ContextSeverity};
use ollama_proxy::relay::LineBuffer;
use ollama_proxy::translator::{
    prepare_embeddings_input, translate_ollama_chat_to_openai, translate_openai_chat_to_ollama,
    OllamaChatResponse, OpenAIChatMessage, OpenAIChatRequest,
};

fn chat_request(max_tokens: Option<u32>, stream: Option<bool>) -> OpenAIChatRequest {
    OpenAIChatRequest {
        model: "llama3.3".to_string(),
        messages: vec![OpenAIChatMessage {
            role: "user".to_string(),
            content: "Hello".to_string(),
        }],
        max_tokens,
        temperature: Some(0.7f32.to_bits()),
        top_p: None,
        stream,
    }
}

fn chat_response(
    created_at: &str,
    done: bool,
    done_reason: Option<&str>,
    prompt: Option<u32>,
    eval: Option<u32>,
) -> OllamaChatResponse {
    OllamaChatResponse {
        model: "llama3.3".to_string(),
        created_at: created_at.to_string(),
        message: OpenAIChatMessage {
            role: "assistant".to_string(),
            content: "Hi there".to_string(),
        },
        done,
        done_reason: done_reason.map(|s| s.to_string()),
        prompt_eval_count: prompt,
        eval_count: eval,
    }
}

fn description(
    model_info: Vec<(&str, Option<u64>)>,
    details_num_ctx: Option<u64>,
    modelfile: Option<&str>,
    parameters: Option<&str>,
    template: Option<&str>,
) -> ModelDescription {
    ModelDescription {
        model_info: model_info
            .into_iter()
            .map(|(k, v)| InfoField { key: k.to_string(), num_value: v })
            .collect(),
        details_num_ctx,
        modelfile: modelfile.map(|s| s.to_string()),
        parameters: parameters.map(|s| s.to_string()),
        template: template.map(|s| s.to_string()),
    }
}

#[test]
fn test_effective_context_minimum() {
    assert_eq!(effective_context(8192, 16384), 8192);
    assert_eq!(effective_context(131072, 16384), 16384);
    assert_eq!(effective_context(16384, 16384), 16384);
}

#[test]
fn test_context_severity_tiers() {
    assert_eq!(ContextLimitModifier::warn_on_large_context(150000), ContextSeverity::Critical);
    assert_eq!(ContextLimitModifier::warn_on_large_context(100001), ContextSeverity::Critical);
    assert_eq!(ContextLimitModifier::warn_on_large_context(100000), ContextSeverity::Warning);
    assert_eq!(ContextLimitModifier::warn_on_large_context(60001), ContextSeverity::Warning);
    assert_eq!(ContextLimitModifier::warn_on_large_context(60000), ContextSeverity::Caution);
    assert_eq!(ContextLimitModifier::warn_on_large_context(32001), ContextSeverity::Caution);
    assert_eq!(ContextLimitModifier::warn_on_large_context(32000), ContextSeverity::Informational);
    assert_eq!(ContextLimitModifier::warn_on_large_context(16385), ContextSeverity::Informational);
    assert_eq!(ContextLimitModifier::warn_on_large_context(16384), ContextSeverity::Silent);
    assert_eq!(ContextLimitModifier::warn_on_large_context(0), ContextSeverity::Silent);
}

#[test]
fn test_chat_translation_keep_alive_tiers() {
    let r = translate_openai_chat_to_ollama(chat_request(None, None), Some(40000));
    assert_eq!(r.keep_alive.as_deref(), Some("10m"));

    let r = translate_openai_chat_to_ollama(chat_request(None, None), Some(16384));
    assert_eq!(r.keep_alive.as_deref(), Some("5m"));

    let r = translate_openai_chat_to_ollama(chat_request(None, None), Some(8192));
    assert_eq!(r.keep_alive, None);

    let r = translate_openai_chat_to_ollama(chat_request(None, None), None);
    assert_eq!(r.keep_alive, None);
}

#[test]
fn test_chat_translation_stream_defaults_off() {
    let r = translate_openai_chat_to_ollama(chat_request(None, None), Some(8192));
    assert_eq!(r.stream, Some(false));

    let r = translate_openai_chat_to_ollama(chat_request(None, Some(true)), Some(8192));
    assert_eq!(r.stream, Some(true));
}

#[test]
fn test_build_chat_request_sets_default_generation_limit() {
    let metadata = ModelMetadata {
        n_ctx_train: 131072,
        model_type: "chat".to_string(),
    };
    let r = build_chat_backend_request(chat_request(None, None), &metadata, 16384);
    let options = r.options.unwrap();
    assert_eq!(options.num_predict, Some(4096));
    assert_eq!(options.num_ctx, Some(16384));
    assert_eq!(options.temperature, Some(0.7f32.to_bits()));
    assert_eq!(r.messages.len(), 1);
    assert_eq!(r.messages[0].content, "Hello");
}

#[test]
fn test_build_chat_request_keeps_requested_tokens() {
    let metadata = ModelMetadata {
        n_ctx_train: 8192,
        model_type: "chat".to_string(),
    };
    let r = build_chat_backend_request(chat_request(Some(2048), None), &metadata, 16384);
    let options = r.options.unwrap();
    assert_eq!(options.num_predict, Some(2048));
    // The trained length is the smaller bound here.
    assert_eq!(options.num_ctx, Some(8192));
}

#[test]
fn test_chat_response_translation_known_timestamp() {
    let resp = chat_response("2025-11-21T16:08:11.735252Z", true, Some("stop"), Some(10), Some(5));
    let r = translate_ollama_chat_to_openai(resp, "fallback".to_string());

    assert!(r.id.starts_with("chatcmpl-"));
    assert_eq!(r.id.len(), 33);
    assert_eq!(r.object, "chat.completion");
    assert_eq!(r.created, 1763741291);
    assert_eq!(r.model, "llama3.3");
    assert_eq!(r.choices.len(), 1);
    assert_eq!(r.choices[0].index, 0);
    assert_eq!(r.choices[0].message.content, "Hi there");
    assert_eq!(r.choices[0].finish_reason, "stop");
    assert_eq!(r.usage.prompt_tokens, 10);
    assert_eq!(r.usage.completion_tokens, 5);
    assert_eq!(r.usage.total_tokens, 15);
}

#[test]
fn test_chat_response_translation_lenient_timestamp() {
    // A single-digit month is outside the strict RFC 3339 shape; the
    // lenient second parse still reads it as UTC.
    let resp = chat_response("2025-1-01T00:00:00Z", true, None, None, None);
    let r = translate_ollama_chat_to_openai(resp, "fallback".to_string());
    assert_eq!(r.created, 1735689600);
}

#[test]
fn test_chat_response_translation_bad_timestamp_falls_back_to_clock() {
    let resp = chat_response("not a timestamp", true, None, None, None);
    let r = translate_ollama_chat_to_openai(resp, "fallback".to_string());
    // The clock fallback: any moment after this crate was written.
    assert!(r.created > 1_700_000_000);
    assert_eq!(r.usage.total_tokens, 0);
}

#[test]
fn test_chat_response_finish_reasons() {
    let r = translate_ollama_chat_to_openai(
        chat_response("x", true, Some("length"), None, None),
        "m".to_string(),
    );
    assert_eq!(r.choices[0].finish_reason, "length");

    let r = translate_ollama_chat_to_openai(
        chat_response("x", true, Some("anything else"), None, None),
        "m".to_string(),
    );
    assert_eq!(r.choices[0].finish_reason, "stop");

    let r = translate_ollama_chat_to_openai(chat_response("x", true, None, None, None), "m".to_string());
    assert_eq!(r.choices[0].finish_reason, "stop");

    let r = translate_ollama_chat_to_openai(chat_response("x", false, None, None, None), "m".to_string());
    assert_eq!(r.choices[0].finish_reason, "length");
}

#[test]
fn test_fresh_completion_ids_differ() {
    let a = translate_ollama_chat_to_openai(chat_response("x", true, None, None, None), "m".to_string());
    let b = translate_ollama_chat_to_openai(chat_response("x", true, None, None, None), "m".to_string());
    assert_ne!(a.id, b.id);
}

#[test]
fn test_chunked_backend_requests_stay_under_cap() {
    // One 5,000-character input against a 2,000-character cap.
    let long_text = "This is a test sentence. ".repeat(200);
    let prepared = prepare_embeddings_input(vec![long_text], 2000, true).unwrap();
    assert!(prepared.len() > 1);

    let requests = build_chunk_requests("nomic-embed-text", &prepared, 8192);
    assert_eq!(requests.len(), prepared.len());
    for (i, req) in requests.iter().enumerate() {
        assert_eq!(req.model, "nomic-embed-text");
        assert_eq!(req.input.len(), 1);
        assert!(req.input[0].len() <= 2000);
        assert_eq!(req.input[0], prepared[i]);
        assert_eq!(req.truncate, Some(true));
        assert_eq!(req.options.unwrap().num_ctx, 8192);
    }
}

#[test]
fn test_merged_response_single_vector() {
    let pooled: Vec<u32> = [0.25f32, 0.5f32].iter().map(|v| v.to_bits()).collect();
    let r = build_merged_response(pooled.clone(), "nomic-embed-text".to_string(), 3);
    assert_eq!(r.object, "list");
    assert_eq!(r.data.len(), 1);
    assert_eq!(r.data[0].index, 0);
    assert_eq!(r.data[0].embedding, pooled);
    assert_eq!(r.usage.prompt_tokens, 30);
    assert_eq!(r.usage.total_tokens, 30);
}

#[test]
fn test_oversized_error_names_length_and_cap() {
    let err = prepare_embeddings_input(vec!["a".repeat(5000)], 2000, false).unwrap_err();
    assert_eq!(
        err,
        "Input too large (5000 characters). Maximum is 2000 characters. \
         Enable chunking or reduce input size."
    );
}

#[test]
fn test_any_input_exceeds() {
    let inputs = vec!["short".to_string(), "a".repeat(3000)];
    assert!(any_input_exceeds(&inputs, 2000));
    let inputs = vec!["short".to_string()];
    assert!(!any_input_exceeds(&inputs, 2000));
}

#[test]
fn test_retry_rule() {
    assert_eq!(retry_decision(1, 2, false), RetryAction::Retry);
    assert_eq!(retry_decision(2, 2, false), RetryAction::Abort);
    assert_eq!(retry_decision(1, 2, true), RetryAction::Abort);
    assert_eq!(RETRY_BACKOFF_MILLIS, 500);
}

#[test]
fn test_header_filter() {
    assert!(!should_forward_header("host"));
    assert!(!should_forward_header("Host"));
    assert!(!should_forward_header("Content-Length"));
    assert!(should_forward_header("content-type"));
    assert!(should_forward_header("authorization"));
}

#[test]
fn test_streaming_flag() {
    assert!(is_streaming_request(Some(true)));
    assert!(!is_streaming_request(Some(false)));
    assert!(!is_streaming_request(None));
}

#[test]
fn test_model_name_extraction() {
    assert_eq!(
        extract_model_name(&Some("m1".to_string()), &Some("m2".to_string())),
        Some("m1".to_string())
    );
    assert_eq!(extract_model_name(&None, &Some("m2".to_string())), Some("m2".to_string()));
    assert_eq!(extract_model_name(&None, &None), None);
}

#[test]
fn test_metadata_default() {
    let d = ModelMetadata::default();
    assert_eq!(d.n_ctx_train, 8192);
    assert_eq!(d.model_type, "unknown");
}

#[test]
fn test_ctx_from_capability_map() {
    let desc = description(
        vec![("general.name", None), ("llama.context_length", Some(4096))],
        Some(1111),
        None,
        None,
        None,
    );
    // The capability map wins over the parameters map.
    assert_eq!(extract_n_ctx_train(&desc), 4096);
}

#[test]
fn test_ctx_key_without_number_is_passed_over() {
    let desc = description(
        vec![("llama.context_length", None)],
        Some(2048),
        None,
        None,
        None,
    );
    assert_eq!(extract_n_ctx_train(&desc), 2048);
}

#[test]
fn test_ctx_from_modelfile() {
    let desc = description(
        vec![],
        None,
        Some("FROM llama\nPARAMETER num_ctx 4096\nPARAMETER temperature 1"),
        None,
        None,
    );
    assert_eq!(extract_n_ctx_train(&desc), 4096);
}

#[test]
fn test_ctx_from_params_string() {
    let desc = description(vec![], None, None, Some("num_keep 24\nnum_ctx 2048"), None);
    assert_eq!(extract_n_ctx_train(&desc), 2048);
}

#[test]
fn test_ctx_default_when_nothing_matches() {
    let desc = description(vec![], None, Some("FROM llama"), Some("num_keep 24"), None);
    assert_eq!(extract_n_ctx_train(&desc), 8192);
}

#[test]
fn test_model_type_from_modelfile() {
    let desc = description(vec![], None, Some("FROM nomic-EMBED-text"), None, Some("{{ .System }}"));
    assert_eq!(extract_model_type(&desc), "embedding");
}

#[test]
fn test_model_type_from_template() {
    let desc = description(vec![], None, Some("FROM llama"), None, Some(""));
    assert_eq!(extract_model_type(&desc), "embedding");
    let desc = description(vec![], None, Some("FROM llama"), None, Some("{{ .Prompt }}"));
    assert_eq!(extract_model_type(&desc), "embedding");
}

#[test]
fn test_model_type_chat_otherwise() {
    let desc = description(vec![], None, Some("FROM llama"), None, Some("{{ .System }}"));
    let m = metadata_from_description(&desc);
    assert_eq!(m.model_type, "chat");
    assert_eq!(m.n_ctx_train, 8192);
}

#[test]
fn test_line_buffer_framing() {
    let mut buf = LineBuffer::new();
    buf.push_chunk(b"ab\ncd");
    assert_eq!(buf.next_line(), Some(b"ab\n".to_vec()));
    assert_eq!(buf.next_line(), None);
    buf.push_chunk(b"\nef");
    assert_eq!(buf.next_line(), Some(b"cd\n".to_vec()));
    assert_eq!(buf.next_line(), None);
    assert_eq!(buf.take_remainder(), b"ef".to_vec());
    assert_eq!(buf.len(), 0);
}

#[test]
fn test_word_boundary_cut_falls_after_whitespace() {
    // No sentence terminator in the tail region [16, 20); the last
    // whitespace there sits at position 17, and the cut falls just
    // after it.
    let text = "Hello world. This is a test.";
    assert_eq!(ollama_proxy::chunker::find_break_point(text, 20), 18);
    assert_eq!(&text[..18], "Hello world. This ");
}

#[test]
fn test_chunker_hard_cut_when_no_boundary() {
    // No whitespace and no sentence end: the cut falls at the window end
    // and consecutive chunks share a tenth of the window.
    let text = "x".repeat(1200);
    let chunks = chunk_text(&text, 1000);
    assert_eq!(chunks.len(), 2);
    assert_eq!(chunks[0].len(), 1000);
    // The second chunk starts 100 characters before the first cut.
    assert_eq!(chunks[1].len(), 300);
}
