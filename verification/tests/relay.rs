use chat_relay::chat::ChatError;
use chat_relay::chat::Message;
use chat_relay::chat::Provider;
use chat_relay::chat::Role;
use chat_relay::chat::TransportReply;
use chat_relay::chat::build_chat_request;
use chat_relay::chat::cohere_request;
use chat_relay::chat::gemini_request;
use chat_relay::chat::interpret_models_reply;
use chat_relay::chat::interpret_reply;
use chat_relay::chat::ollama_request;
use chat_relay::chat::openai_request;
use chat_relay::chat::provider_from_name;
use chat_relay::json::Json;

fn msg(role: Role, content: &str) -> Message {
    Message { role, content: content.to_string() }
}

const ALL_PROVIDERS: [Provider; 7] = [
    Provider::OpenAi,
    Provider::Claude,
    Provider::OpenRouter,
    Provider::Gemini,
    Provider::Mistral,
    Provider::Cohere,
    Provider::Ollama,
];

fn good_body(p: Provider) -> &'static str {
    match p {
        Provider::OpenAi | Provider::OpenRouter | Provider::Mistral => {
            "{\"choices\":[{\"message\":{\"content\":\"hello\"}}]}"
        }
        Provider::Claude => "{\"content\":[{\"text\":\"hello\"}]}",
        Provider::Gemini => "{\"candidates\":[{\"content\":{\"parts\":[{\"text\":\"hello\"}]}}]}",
        Provider::Cohere => "{\"text\":\"hello\"}",
        Provider::Ollama => "{\"message\":{\"content\":\"hello\"}}",
    }
}

#[test]
fn reply_extracted_for_every_provider() {
    for p in ALL_PROVIDERS {
        let reply = TransportReply::Response(200, good_body(p).to_string());
        let r = interpret_reply(p, reply);
        assert_eq!(r.unwrap(), "hello");
    }
}

#[test]
fn http_error_surfaces_status_and_body() {
    for p in ALL_PROVIDERS {
        let reply = TransportReply::Response(500, "server error".to_string());
        match interpret_reply(p, reply) {
            Err(ChatError::Api(status, body)) => {
                assert_eq!(status, 500);
                assert_eq!(body, "server error");
                let text = ChatError::Api(status, body).describe();
                assert!(text.contains("server error"));
            }
            other => panic!("expected an Api error, got {:?}", other),
        }
    }
}

#[test]
fn missing_field_is_malformed_not_a_panic() {
    for p in ALL_PROVIDERS {
        let reply = TransportReply::Response(200, "{\"unexpected\":[1,2,3]}".to_string());
        match interpret_reply(p, reply) {
            Err(ChatError::Malformed) => {}
            other => panic!("expected Malformed, got {:?}", other),
        }
    }
}

#[test]
fn invalid_json_is_malformed() {
    for p in ALL_PROVIDERS {
        let reply = TransportReply::Response(200, "not json at all".to_string());
        assert!(matches!(interpret_reply(p, reply), Err(ChatError::Malformed)));
    }
}

#[test]
fn transport_failure_keeps_its_cause() {
    let reply = TransportReply::Failure("connection refused".to_string());
    match interpret_reply(Provider::OpenAi, reply) {
        Err(ChatError::Transport(cause)) => {
            assert_eq!(cause, "connection refused");
            assert_eq!(
                ChatError::Transport(cause).describe(),
                "Request failed: connection refused"
            );
        }
        other => panic!("expected a Transport error, got {:?}", other),
    }
}

fn field<'a>(j: &'a Json, key: &str) -> &'a Json {
    j.get(key).expect(key)
}

fn text(j: &Json) -> String {
    j.as_text().expect("a string").clone()
}

#[test]
fn cohere_last_message_stands_alone_and_history_is_remapped() {
    let messages = vec![
        msg(Role::User, "hi"),
        msg(Role::Assistant, "hello"),
        msg(Role::User, "how are you"),
    ];
    let req = cohere_request("k", "command-r", &messages).unwrap();
    assert_eq!(req.url, "https://api.cohere.ai/v1/chat");
    let body = &req.body;
    assert_eq!(text(field(body, "message")), "how are you");
    let history = field(body, "chat_history");
    let first = history.at(0).unwrap();
    let second = history.at(1).unwrap();
    assert!(history.at(2).is_none());
    assert_eq!(text(field(first, "role")), "USER");
    assert_eq!(text(field(first, "message")), "hi");
    assert_eq!(text(field(second, "role")), "CHATBOT");
    assert_eq!(text(field(second, "message")), "hello");
}

#[test]
fn cohere_refuses_an_empty_conversation_before_any_request() {
    let messages: Vec<Message> = Vec::new();
    match cohere_request("k", "command-r", &messages) {
        Err(ChatError::Configuration(m)) => assert_eq!(m, "No messages provided"),
        other => panic!("expected a Configuration error, got {:?}", other),
    }
}

#[test]
fn gemini_roles_are_remapped_in_order() {
    let messages = vec![msg(Role::User, "a"), msg(Role::Assistant, "b")];
    let req = gemini_request("secret", "gemini-pro", &messages);
    assert_eq!(
        req.url,
        "https://generativelanguage.googleapis.com/v1beta/models/gemini-pro:generateContent?key=secret"
    );
    let contents = field(&req.body, "contents");
    let first = contents.at(0).unwrap();
    let second = contents.at(1).unwrap();
    assert_eq!(text(field(first, "role")), "user");
    assert_eq!(text(field(second, "role")), "model");
    let parts = field(second, "parts");
    assert_eq!(text(field(parts.at(0).unwrap(), "text")), "b");
}

#[test]
fn openai_request_shape() {
    let messages = vec![msg(Role::System, "be brief"), msg(Role::User, "hi")];
    let req = openai_request("sk-x", "gpt-4", &messages);
    assert_eq!(req.url, "https://api.openai.com/v1/chat/completions");
    assert_eq!(req.headers[0].0, "Authorization");
    assert_eq!(req.headers[0].1, "Bearer sk-x");
    assert_eq!(req.headers[1].0, "Content-Type");
    assert_eq!(req.headers[1].1, "application/json");
    assert_eq!(text(field(&req.body, "model")), "gpt-4");
    let wire = field(&req.body, "messages");
    assert_eq!(text(field(wire.at(0).unwrap(), "role")), "system");
    assert_eq!(text(field(wire.at(0).unwrap(), "content")), "be brief");
    assert_eq!(text(field(wire.at(1).unwrap(), "role")), "user");
    match field(&req.body, "temperature") {
        Json::Num(t) => assert_eq!(t.as_str(), "0.7"),
        other => panic!("expected a number, got {:?}", other),
    }
}

#[test]
fn ollama_request_goes_to_the_base_url() {
    let messages = vec![msg(Role::User, "hi")];
    let req = ollama_request("http://localhost:11434", "llama3", &messages);
    assert_eq!(req.url, "http://localhost:11434/api/chat");
    match field(&req.body, "stream") {
        Json::Bool(b) => assert!(!*b),
        other => panic!("expected a bool, got {:?}", other),
    }
}

#[test]
fn dispatcher_routes_by_provider() {
    let messages = vec![msg(Role::User, "hi")];
    let anthropic = build_chat_request(Provider::Claude, "key", "opus-large", &messages).unwrap();
    assert_eq!(anthropic.url, "https://api.anthropic.com/v1/messages");
    assert_eq!(anthropic.headers[0].0, "x-api-key");
    assert_eq!(anthropic.headers[0].1, "key");
    assert_eq!(anthropic.headers[1].1, "2023-06-01");
    match anthropic.body.get("max_tokens").unwrap() {
        Json::Num(t) => assert_eq!(t.as_str(), "4096"),
        other => panic!("expected a number, got {:?}", other),
    }
    let router = build_chat_request(Provider::OpenRouter, "key", "m", &messages).unwrap();
    assert_eq!(router.url, "https://openrouter.ai/api/v1/chat/completions");
    assert_eq!(router.headers[2].0, "HTTP-Referer");
    assert_eq!(router.headers[3].0, "X-Title");
    match router.body.get("temperature").unwrap() {
        Json::Num(t) => assert_eq!(t.as_str(), "0.7"),
        other => panic!("expected a number, got {:?}", other),
    }
    let mistral = build_chat_request(Provider::Mistral, "key", "m", &messages).unwrap();
    assert_eq!(mistral.url, "https://api.mistral.ai/v1/chat/completions");
    match mistral.body.get("temperature").unwrap() {
        Json::Num(t) => assert_eq!(t.as_str(), "0.7"),
        other => panic!("expected a number, got {:?}", other),
    }
}

#[test]
fn provider_names_resolve() {
    assert!(matches!(provider_from_name("openai"), Some(Provider::OpenAi)));
    assert!(matches!(provider_from_name("anthropic"), Some(Provider::Claude)));
    assert!(matches!(provider_from_name("openrouter"), Some(Provider::OpenRouter)));
    assert!(matches!(provider_from_name("gemini"), Some(Provider::Gemini)));
    assert!(matches!(provider_from_name("mistral"), Some(Provider::Mistral)));
    assert!(matches!(provider_from_name("cohere"), Some(Provider::Cohere)));
    assert!(matches!(provider_from_name("ollama"), Some(Provider::Ollama)));
    assert!(provider_from_name("something else").is_none());
}

#[test]
fn model_listing_reads_names_and_skips_nameless_entries() {
    let body = "{\"models\":[{\"name\":\"llama3\"},{\"size\":1},{\"name\":\"phi\"}]}";
    let r = interpret_models_reply(TransportReply::Response(200, body.to_string()));
    assert_eq!(r.unwrap(), vec!["llama3".to_string(), "phi".to_string()]);
}

#[test]
fn model_listing_errors() {
    let r = interpret_models_reply(TransportReply::Response(200, "{\"tags\":[]}".to_string()));
    assert!(matches!(r, Err(ChatError::Malformed)));
    let r = interpret_models_reply(TransportReply::Response(404, "gone".to_string()));
    assert!(matches!(r, Err(ChatError::Api(404, _))));
    let r = interpret_models_reply(TransportReply::Failure("timed out".to_string()));
    assert!(matches!(r, Err(ChatError::Transport(_))));
}

#[test]
fn error_descriptions() {
    assert_eq!(ChatError::Malformed.describe(), "Invalid response format");
    assert_eq!(ChatError::Api(500, "boom".to_string()).describe(), "API error: boom");
    assert_eq!(
        ChatError::Configuration("No messages provided".to_string()).describe(),
        "No messages provided"
    );
}
