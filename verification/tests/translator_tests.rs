use ollama_proxy::translator::{
    get_ollama_endpoint, needs_translation, translate_ollama_embed_to_openai,
    translate_openai_embeddings_to_ollama, InputType, OllamaEmbedResponse,
    OpenAIEmbeddingsRequest,
};

fn embeddings_request(model: &str, input: InputType) -> OpenAIEmbeddingsRequest {
    OpenAIEmbeddingsRequest {
        model: model.to_string(),
        input,
        dimensions: None,
        encoding_format: None,
        user: None,
    }
}

fn bits(values: &[f32]) -> Vec<u32> {
    values.iter().map(|v| v.to_bits()).collect()
}

#[test]
fn test_translate_openai_single_input() {
    // {"model": "nomic-embed-text", "input": "Hello world"}
    let openai_req = embeddings_request("nomic-embed-text", InputType::Single("Hello world".to_string()));

    let result = translate_openai_embeddings_to_ollama(openai_req, 8192, 2000, true).unwrap();

    assert_eq!(result.model, "nomic-embed-text");
    assert_eq!(result.input.len(), 1);
    assert_eq!(result.input[0], "Hello world");
    assert_eq!(result.options.as_ref().unwrap().num_ctx, 8192);
    assert_eq!(result.truncate, Some(true));
}

#[test]
fn test_translate_openai_multiple_inputs() {
    // {"model": "nomic-embed-text", "input": ["Hello", "World", "Test"]}
    let openai_req = embeddings_request(
        "nomic-embed-text",
        InputType::Multiple(vec!["Hello".to_string(), "World".to_string(), "Test".to_string()]),
    );

    let result = translate_openai_embeddings_to_ollama(openai_req, 4096, 2000, true).unwrap();

    assert_eq!(result.input.len(), 3);
    assert_eq!(result.options.as_ref().unwrap().num_ctx, 4096);
}

#[test]
fn test_translate_with_chunking() {
    let long_text = "a".repeat(5000);
    let openai_req = embeddings_request("nomic-embed-text", InputType::Single(long_text));

    let result = translate_openai_embeddings_to_ollama(openai_req, 8192, 2000, true).unwrap();

    // Should be split into multiple chunks
    assert!(result.input.len() > 1);

    // Each chunk should not exceed max length
    for chunk in &result.input {
        assert!(chunk.len() <= 2000);
    }
}

#[test]
fn test_translate_chunking_disabled_error() {
    let long_text = "a".repeat(5000);
    let openai_req = embeddings_request("nomic-embed-text", InputType::Single(long_text));

    let result = translate_openai_embeddings_to_ollama(openai_req, 8192, 2000, false);

    // Should return error when chunking is disabled
    assert!(result.is_err());
    assert!(result.unwrap_err().contains("too large"));
}

#[test]
fn test_translate_ollama_response() {
    // {"model": "nomic-embed-text", "embeddings": [[0.1, 0.2, 0.3], [0.4, 0.5, 0.6]],
    //  "prompt_eval_count": 10}
    let ollama_resp = OllamaEmbedResponse {
        model: "nomic-embed-text".to_string(),
        embeddings: vec![bits(&[0.1, 0.2, 0.3]), bits(&[0.4, 0.5, 0.6])],
        total_duration: None,
        load_duration: None,
        prompt_eval_count: Some(10),
    };

    let result = translate_ollama_embed_to_openai(ollama_resp, "nomic-embed-text".to_string());

    assert_eq!(result.object, "list");
    assert_eq!(result.data.len(), 2);
    assert_eq!(result.data[0].index, 0);
    assert_eq!(result.data[1].index, 1);
    assert_eq!(result.usage.prompt_tokens, 10);
}

#[test]
fn test_needs_translation() {
    assert!(needs_translation("/v1/embeddings"));
    assert!(needs_translation("/v1/chat/completions"));
    assert!(!needs_translation("/v1/models"));
    assert!(!needs_translation("/api/embed"));
}

#[test]
fn test_get_ollama_endpoint() {
    assert_eq!(get_ollama_endpoint("/v1/embeddings"), "/api/embed");
    assert_eq!(get_ollama_endpoint("/v1/chat/completions"), "/api/chat");
    assert_eq!(get_ollama_endpoint("/v1/models"), "/v1/models"); // Passthrough
}
