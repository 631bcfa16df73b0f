use ollama_proxy::model_metadata::ModelMetadata;
use ollama_proxy::modifier::{ContextLimitModifier, NumPredictModifier, RequestPayload};

// Each payload below spells out the same request body the gateway would
// see as JSON: `is_chat` says whether a `messages` array is present,
// `has_options` whether an `options` object is, and the option fields
// carry the corresponding values.

fn payload(
    is_chat: bool,
    has_options: bool,
    max_tokens: Option<u32>,
    num_predict: Option<u32>,
    options_num_ctx: Option<u64>,
    top_num_ctx: Option<u64>,
) -> RequestPayload {
    RequestPayload { is_chat, has_options, max_tokens, num_predict, options_num_ctx, top_num_ctx }
}

#[test]
fn test_context_limit_modifier_reduces_high_value() {
    // {"model": "nomic-embed-text", "options": {"num_ctx": 131072}}
    let mut request = payload(false, true, None, None, Some(131072), None);

    let metadata = ModelMetadata {
        n_ctx_train: 8192,
        model_type: "embedding".to_string(),
    };

    let modifier = ContextLimitModifier;
    let modified = modifier.modify(&mut request, &metadata, 16384);

    assert!(modified);
    assert_eq!(
        request.options_num_ctx.unwrap(),
        8192 // Model limit is lower than override
    );
}

#[test]
fn test_context_limit_modifier_keeps_valid_value() {
    // {"model": "nomic-embed-text", "options": {"num_ctx": 4096}}
    let mut request = payload(false, true, None, None, Some(4096), None);

    let metadata = ModelMetadata {
        n_ctx_train: 8192,
        model_type: "embedding".to_string(),
    };

    let modifier = ContextLimitModifier;
    let modified = modifier.modify(&mut request, &metadata, 16384);

    assert!(!modified);
    assert_eq!(request.options_num_ctx.unwrap(), 4096);
}

#[test]
fn test_adds_num_ctx_for_embedding_without_it() {
    // {"model": "nomic-embed-text", "input": "test text"}
    let mut request = payload(false, false, None, None, None, None);

    let metadata = ModelMetadata {
        n_ctx_train: 8192,
        model_type: "embedding".to_string(),
    };

    let modifier = ContextLimitModifier;
    let modified = modifier.modify(&mut request, &metadata, 16384);

    assert!(modified);
    assert_eq!(request.options_num_ctx.unwrap(), 8192);
}

#[test]
fn test_adds_num_ctx_for_chat_without_it() {
    // {"model": "llama3.3", "messages": [{"role": "user", "content": "Hello"}]}
    let mut request = payload(true, false, None, None, None, None);

    let metadata = ModelMetadata {
        n_ctx_train: 131072,
        model_type: "chat".to_string(),
    };

    let modifier = ContextLimitModifier;
    // Override caps the model's capability
    let modified = modifier.modify(&mut request, &metadata, 16384);

    assert!(modified);
    // Should set to override limit (16384) not model's full capacity (131072)
    assert_eq!(request.options_num_ctx.unwrap(), 16384);
}

#[test]
fn test_max_context_override_caps_large_model() {
    // {"model": "gpt-oss:20b", "options": {"num_ctx": 131072}}
    let mut request = payload(false, true, None, None, Some(131072), None);

    let metadata = ModelMetadata {
        n_ctx_train: 131072,
        model_type: "chat".to_string(),
    };

    let modifier = ContextLimitModifier;
    // Override caps at 16384
    let modified = modifier.modify(&mut request, &metadata, 16384);

    assert!(modified);
    assert_eq!(
        request.options_num_ctx.unwrap(),
        16384 // Capped by override, not model limit
    );
}

#[test]
fn test_num_predict_added_when_missing() {
    // {"model": "gpt-oss:20b", "messages": [{"role": "user", "content": "Hello"}]}
    let mut request = payload(true, false, None, None, None, None);

    let metadata = ModelMetadata {
        n_ctx_train: 131072,
        model_type: "chat".to_string(),
    };

    let modifier = NumPredictModifier;
    let modified = modifier.modify(&mut request, &metadata, 16384);

    assert!(modified);
    assert_eq!(
        request.num_predict.unwrap(),
        4096 // Default value
    );
}

#[test]
fn test_num_predict_uses_max_tokens() {
    // {"model": "gpt-oss:20b", "messages": [...], "max_tokens": 2048}
    let mut request = payload(true, false, Some(2048), None, None, None);

    let metadata = ModelMetadata {
        n_ctx_train: 131072,
        model_type: "chat".to_string(),
    };

    let modifier = NumPredictModifier;
    let modified = modifier.modify(&mut request, &metadata, 16384);

    assert!(modified);
    assert_eq!(
        request.num_predict.unwrap(),
        2048 // Uses max_tokens value
    );
}

#[test]
fn test_num_predict_preserved_when_exists() {
    // {"model": "gpt-oss:20b", "messages": [...], "options": {"num_predict": 1000}}
    let mut request = payload(true, true, None, Some(1000), None, None);

    let metadata = ModelMetadata {
        n_ctx_train: 131072,
        model_type: "chat".to_string(),
    };

    let modifier = NumPredictModifier;
    let modified = modifier.modify(&mut request, &metadata, 16384);

    assert!(!modified); // Should not modify
    assert_eq!(
        request.num_predict.unwrap(),
        1000 // Preserved existing value
    );
}

#[test]
fn test_num_predict_not_added_to_embeddings() {
    // {"model": "nomic-embed-text", "input": "test text"}
    let mut request = payload(false, false, None, None, None, None);

    let metadata = ModelMetadata {
        n_ctx_train: 8192,
        model_type: "embedding".to_string(),
    };

    let modifier = NumPredictModifier;
    let modified = modifier.modify(&mut request, &metadata, 16384);

    assert!(!modified); // Should not modify embeddings
    assert!(!request.has_options);
    assert!(request.num_predict.is_none());
}
