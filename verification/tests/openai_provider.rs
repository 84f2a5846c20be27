use luminus::providers::openai_compatible::{
    parse_chat_completion, parse_model_ids, parse_sse_line, chat_result, ChatCompletionRequest,
    ChatMessage, ChatResult, ChatRole, ModelList, OpenAiCompatibleConfig, OpenAiCompatibleEndpoint,
    OpenAiCompatibleProvider, OpenAiError, OpenAiResponse, SseEvent,
};
use luminus::config::ProviderConfig;
use luminus::providers::openai_runtime::{cancelled_stream, chat_events, connection_settings, stream_step};
use luminus::event::ProviderEvent;

#[test]
fn parses_sse_delta_and_done() {
    assert_eq!(
        parse_sse_line(r#"data: {"choices":[{"delta":{"content":"Hi"}}]}"#),
        SseEvent::Delta("Hi".into())
    );
    assert_eq!(parse_sse_line("data: [DONE]"), SseEvent::Done);
    assert_eq!(parse_sse_line(": keep-alive"), SseEvent::Ignore);
}

#[test]
fn parses_completion_and_api_error() {
    assert_eq!(parse_chat_completion(r#"{"choices":[{"message":{"content":"answer"}}]}"#).unwrap(), "answer");
    assert_eq!(
        parse_chat_completion(r#"{"error":{"message":"bad key","type":"auth","code":"401"}}"#),
        Err(OpenAiError::Api { message: "bad key".into(), error_type: Some("auth".into()), code: Some("401".into()) })
    );
}

#[test]
fn config_has_secret_safe_debug_and_typed_url() {
    let endpoint = OpenAiCompatibleEndpoint::new("https://example.test/v1/").unwrap();
    assert_eq!(endpoint.chat_completions_url(), "https://example.test/v1/chat/completions");
    let config = OpenAiCompatibleConfig { endpoint, api_key: "super-secret".into(), model: "gpt-test".into() };
    let debug = config.describe();
    assert!(debug.contains("[REDACTED]"));
    assert!(!debug.contains("super-secret"));
}

#[test]
fn request_escapes_json_deterministically() {
    let request = ChatCompletionRequest {
        model: "m".into(),
        stream: true,
        messages: vec![ChatMessage { role: ChatRole::User, content: "a\"b\nc".into() }],
    };
    assert_eq!(request.json(), r#"{"model":"m","messages":[{"role":"user","content":"a\"b\nc"}],"stream":true}"#);
}

#[test]
fn endpoint_requires_http_scheme() {
    assert_eq!(OpenAiCompatibleEndpoint::new("ftp://x").unwrap_err(), OpenAiError::InvalidEndpoint);
    assert_eq!(OpenAiCompatibleEndpoint::new("http://x//").unwrap().models_url(), "http://x/models");
}

#[test]
fn model_ids_are_extracted_once_each() {
    let body = r#"{"data":[{"id":"a"},{"id":"b"},{"id":"a"}]}"#;
    assert_eq!(parse_model_ids(body).unwrap(), vec!["a", "b"]);
    assert_eq!(parse_model_ids("{}").unwrap_err(), OpenAiError::InvalidJson);
    let response = OpenAiResponse { status: 500, body: r#"{"error":{"message":"down"}}"#.into() };
    assert!(matches!(ModelList::from_response(&response), Err(OpenAiError::Api { ref message, .. }) if message == "down"));
}

#[test]
fn streamed_reply_becomes_provider_events() {
    let response = OpenAiResponse {
        status: 200,
        body: "data: {\"choices\":[{\"delta\":{\"content\":\"Hel\"}}]}\ndata: {\"choices\":[{\"delta\":{\"content\":\"lo\"}}]}\ndata: [DONE]\n".into(),
    };
    let result = chat_result(true, &response);
    let events = chat_events("r1", &result);
    assert_eq!(events.len(), 3);
    assert!(matches!(&events[0], ProviderEvent::Delta { text, .. } if text == "Hel"));
    assert!(matches!(&events[2], ProviderEvent::Completed { .. }));
    let (event, stop) = stream_step("r1", &SseEvent::Done);
    assert!(stop);
    assert!(matches!(event, Some(ProviderEvent::Completed { .. })));
}

#[test]
fn plain_completion_for_streamed_request_is_accepted() {
    let response = OpenAiResponse { status: 200, body: r#" {"choices":[{"message":{"content":"whole"}}]}"#.into() };
    assert_eq!(chat_result(true, &response), Ok(ChatResult::Complete("whole".into())));
}

#[test]
fn provider_fills_default_model_and_builds_requests() {
    let config = OpenAiCompatibleConfig {
        endpoint: OpenAiCompatibleEndpoint::new("https://example.test/v1").unwrap(),
        api_key: "k".into(),
        model: "default-model".into(),
    };
    let provider = OpenAiCompatibleProvider::new(config, ());
    let listing = provider.list_models_request();
    assert_eq!(listing.method, "GET");
    assert_eq!(listing.url, "https://example.test/v1/models");
    assert_eq!(listing.headers, vec![("authorization".to_string(), "Bearer k".to_string())]);
    let (request, http) = provider.prepare_chat(ChatCompletionRequest {
        model: String::new(),
        messages: vec![ChatMessage { role: ChatRole::User, content: "hi".into() }],
        stream: false,
    });
    assert_eq!(request.model, "default-model");
    assert_eq!(http.method, "POST");
    assert_eq!(http.url, "https://example.test/v1/chat/completions");
    assert_eq!(
        http.body,
        r#"{"model":"default-model","messages":[{"role":"user","content":"hi"}],"stream":false}"#
    );
    let (kept, _) = provider.prepare_chat(ChatCompletionRequest {
        model: "other".into(),
        messages: vec![],
        stream: true,
    });
    assert_eq!(kept.model, "other");
}

#[test]
fn connection_settings_take_url_key_and_model_and_refuse_bad_urls() {
    let settings = connection_settings(&ProviderConfig {
        base_url: "https://api.example.test/v1/".into(),
        api_key: None,
        model: "m".into(),
    })
    .ok()
    .unwrap();
    assert_eq!(settings.endpoint.as_str(), "https://api.example.test/v1");
    assert_eq!(settings.api_key, "");
    assert_eq!(settings.model, "m");
    let keyed = connection_settings(&ProviderConfig {
        base_url: "http://localhost:20128/v1".into(),
        api_key: Some("k".into()),
        model: "BomWaktu".into(),
    })
    .ok()
    .unwrap();
    assert_eq!(keyed.api_key, "k");
    assert!(matches!(
        connection_settings(&ProviderConfig { base_url: "ftp://x".into(), api_key: Some("k".into()), model: "m".into() }),
        Err(OpenAiError::InvalidEndpoint)
    ));
}

#[test]
fn a_request_read_as_a_completion_gives_its_first_message() {
    let request = ChatCompletionRequest {
        model: "m\"x".into(),
        messages: vec![
            ChatMessage { role: ChatRole::System, content: "say \"hi\"\nback\\slash".into() },
            ChatMessage { role: ChatRole::User, content: "second".into() },
        ],
        stream: true,
    };
    assert_eq!(parse_chat_completion(&request.json()).unwrap(), "say \"hi\"\nback\\slash");
}

#[test]
fn a_stream_cancelled_midway_keeps_the_events_read_so_far() {
    let chunks = vec![
        SseEvent::Delta("a".into()),
        SseEvent::Ignore,
        SseEvent::Delta("b".into()),
        SseEvent::Done,
    ];
    let at_start = cancelled_stream("r", &chunks, 0);
    assert_eq!(at_start, vec![ProviderEvent::Cancelled { request_id: "r".into() }]);
    let after_two = cancelled_stream("r", &chunks, 2);
    assert_eq!(
        after_two,
        vec![
            ProviderEvent::Delta { request_id: "r".into(), text: "a".into() },
            ProviderEvent::Cancelled { request_id: "r".into() },
        ]
    );
    let ended = cancelled_stream("r", &[SseEvent::Done, SseEvent::Delta("x".into())].to_vec(), 2);
    assert_eq!(ended, vec![ProviderEvent::Completed { request_id: "r".into() }]);
}
