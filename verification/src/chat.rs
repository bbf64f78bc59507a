//! The chat relay: one canonical conversation shape, and for each supported
//! provider the exact outbound request (URL, headers, JSON body) and the
//! documented path at which the reply text is read out of the response.
use vstd::prelude::*;

use crate::json::Json;
use crate::json::opt_at;
use crate::json::opt_get;
use crate::json::opt_str;
use crate::json::parse_json;
use crate::json::parsed_json;
use crate::json::spec_get;
use crate::json::spec_str;
use crate::textutil::str_eq;

verus! {

/// Who spoke a message of the conversation.
#[derive(Clone, Copy, Debug, PartialEq, Eq, Structural)]
pub enum Role {
    User,
    Assistant,
    System,
}

/// One turn of a conversation, in the provider-agnostic shape.
#[derive(Debug)]
pub struct Message {
    pub role: Role,
    pub content: String,
}

/// The supported chat providers.
#[derive(Clone, Copy, Debug, PartialEq, Eq, Structural)]
pub enum Provider {
    OpenAi,
    Claude,
    OpenRouter,
    Gemini,
    Mistral,
    Cohere,
    Ollama,
}

/// Why a relay call failed. Every error is terminal for the one call that
/// produced it; nothing is retried.
#[derive(Debug)]
pub enum ChatError {
    /// The request never completed (connection, name resolution, timeout);
    /// the cause text as the transport reported it.
    Transport(String),
    /// The provider answered with a non-success status; the status and the
    /// body read as text are kept.
    Api(u16, String),
    /// The provider answered with a success status, but the body was not
    /// valid JSON or lacked the documented reply field.
    Malformed,
    /// The call was refused before any request was sent.
    Configuration(String),
}

/// The wire name of a role, as the OpenAI-compatible providers take it.
pub open spec fn role_name(r: Role) -> Seq<char> {
    match r {
        Role::User => "user"@,
        Role::Assistant => "assistant"@,
        Role::System => "system"@,
    }
}

/// The wire name of a role for Gemini: the assistant is `model`, everyone
/// else (the system role included) is `user`.
pub open spec fn gemini_role_name(r: Role) -> Seq<char> {
    if r is Assistant {
        "model"@
    } else {
        "user"@
    }
}

/// The wire name of a role for Cohere's chat history: the assistant is
/// `CHATBOT`, everyone else is `USER`.
pub open spec fn cohere_role_name(r: Role) -> Seq<char> {
    if r is Assistant {
        "CHATBOT"@
    } else {
        "USER"@
    }
}

pub fn role_string(r: Role) -> (s: String)
    ensures
        s@ == role_name(r),
{
    match r {
        Role::User => String::from_str("user"),
        Role::Assistant => String::from_str("assistant"),
        Role::System => String::from_str("system"),
    }
}

fn gemini_role_string(r: Role) -> (s: String)
    ensures
        s@ == gemini_role_name(r),
{
    match r {
        Role::Assistant => String::from_str("model"),
        _ => String::from_str("user"),
    }
}

fn cohere_role_string(r: Role) -> (s: String)
    ensures
        s@ == cohere_role_name(r),
{
    match r {
        Role::Assistant => String::from_str("CHATBOT"),
        _ => String::from_str("USER"),
    }
}

/// `j` is the JSON string holding exactly `s`.
pub open spec fn is_string(j: Json, s: Seq<char>) -> bool {
    spec_str(j) == Some(s)
}

/// `j` is a JSON number written exactly as `t`.
pub open spec fn is_num_lit(j: Json, t: Seq<char>) -> bool {
    j matches Json::Num(n) && n@ == t
}

/// `j` is `{role, content}` for the message `m`, roles named as the
/// OpenAI-compatible providers take them.
pub open spec fn wire_message(m: Message, j: Json) -> bool {
    &&& j matches Json::Obj(es)
    &&& es@.len() == 2
    &&& es@[0].0@ == "role"@
    &&& is_string(es@[0].1, role_name(m.role))
    &&& es@[1].0@ == "content"@
    &&& is_string(es@[1].1, m.content@)
}

/// `j` is the array carrying `msgs` in order, each as a `wire_message`.
pub open spec fn wire_messages(msgs: Seq<Message>, j: Json) -> bool {
    &&& j matches Json::Arr(items)
    &&& items@.len() == msgs.len()
    &&& forall|i: int| 0 <= i < msgs.len() ==> wire_message(msgs[i], #[trigger] items@[i])
}

/// `j` is `{role, parts: [{text}]}` for the message `m`, Gemini's shape.
pub open spec fn gemini_wire_message(m: Message, j: Json) -> bool {
    &&& j matches Json::Obj(es)
    &&& es@.len() == 2
    &&& es@[0].0@ == "role"@
    &&& is_string(es@[0].1, gemini_role_name(m.role))
    &&& es@[1].0@ == "parts"@
    &&& es@[1].1 matches Json::Arr(parts)
    &&& parts@.len() == 1
    &&& parts@[0] matches Json::Obj(pes)
    &&& pes@.len() == 1
    &&& pes@[0].0@ == "text"@
    &&& is_string(pes@[0].1, m.content@)
}

/// `j` is `{role, message}` for the message `m`, Cohere's history shape.
pub open spec fn cohere_wire_message(m: Message, j: Json) -> bool {
    &&& j matches Json::Obj(es)
    &&& es@.len() == 2
    &&& es@[0].0@ == "role"@
    &&& is_string(es@[0].1, cohere_role_name(m.role))
    &&& es@[1].0@ == "message"@
    &&& is_string(es@[1].1, m.content@)
}

/// `{model, messages, temperature: 0.7}` — the OpenAI-compatible body, sent
/// to OpenAI, OpenRouter and Mistral alike.
pub open spec fn openai_body(model: Seq<char>, msgs: Seq<Message>, j: Json) -> bool {
    &&& j matches Json::Obj(es)
    &&& es@.len() == 3
    &&& es@[0].0@ == "model"@
    &&& is_string(es@[0].1, model)
    &&& es@[1].0@ == "messages"@
    &&& wire_messages(msgs, es@[1].1)
    &&& es@[2].0@ == "temperature"@
    &&& is_num_lit(es@[2].1, "0.7"@)
}

/// `{model, messages, max_tokens: 4096}` — the body sent to Anthropic.
pub open spec fn claude_body(model: Seq<char>, msgs: Seq<Message>, j: Json) -> bool {
    &&& j matches Json::Obj(es)
    &&& es@.len() == 3
    &&& es@[0].0@ == "model"@
    &&& is_string(es@[0].1, model)
    &&& es@[1].0@ == "messages"@
    &&& wire_messages(msgs, es@[1].1)
    &&& es@[2].0@ == "max_tokens"@
    &&& is_num_lit(es@[2].1, "4096"@)
}

/// `{model, messages, stream: false}` — the body sent to an Ollama host.
pub open spec fn ollama_body(model: Seq<char>, msgs: Seq<Message>, j: Json) -> bool {
    &&& j matches Json::Obj(es)
    &&& es@.len() == 3
    &&& es@[0].0@ == "model"@
    &&& is_string(es@[0].1, model)
    &&& es@[1].0@ == "messages"@
    &&& wire_messages(msgs, es@[1].1)
    &&& es@[2].0@ == "stream"@
    &&& es@[2].1 == Json::Bool(false)
}

/// `{contents: [...]}` with every message remapped to Gemini's shape.
pub open spec fn gemini_body(msgs: Seq<Message>, j: Json) -> bool {
    &&& j matches Json::Obj(es)
    &&& es@.len() == 1
    &&& es@[0].0@ == "contents"@
    &&& es@[0].1 matches Json::Arr(items)
    &&& items@.len() == msgs.len()
    &&& forall|i: int| 0 <= i < msgs.len() ==> gemini_wire_message(msgs[i], #[trigger] items@[i])
}

/// `{model, message, chat_history}`: the last message's text stands alone,
/// and every message before it goes to the history, remapped. Defined only
/// for a non-empty conversation.
pub open spec fn cohere_body(model: Seq<char>, msgs: Seq<Message>, j: Json) -> bool {
    &&& msgs.len() > 0
    &&& j matches Json::Obj(es)
    &&& es@.len() == 3
    &&& es@[0].0@ == "model"@
    &&& is_string(es@[0].1, model)
    &&& es@[1].0@ == "message"@
    &&& is_string(es@[1].1, msgs.last().content@)
    &&& es@[2].0@ == "chat_history"@
    &&& es@[2].1 matches Json::Arr(items)
    &&& items@.len() == msgs.len() - 1
    &&& forall|i: int|
        0 <= i < msgs.len() - 1 ==> cohere_wire_message(msgs[i], #[trigger] items@[i])
}

fn wire_message_exec(m: &Message) -> (j: Json)
    ensures
        wire_message(*m, j),
{
    let mut es: Vec<(String, Json)> = Vec::new();
    es.push((String::from_str("role"), Json::Str(role_string(m.role))));
    es.push((String::from_str("content"), Json::Str(m.content.clone())));
    Json::Obj(es)
}

fn wire_messages_exec(messages: &Vec<Message>) -> (j: Json)
    ensures
        wire_messages(messages@, j),
{
    let mut items: Vec<Json> = Vec::new();
    let n = messages.len();
    let mut i: usize = 0;
    while i < n
        invariant
            n == messages@.len(),
            i <= n,
            items@.len() == i,
            forall|k: int| 0 <= k < i ==> wire_message(messages@[k], #[trigger] items@[k]),
        decreases n - i,
    {
        items.push(wire_message_exec(&messages[i]));
        i = i + 1;
    }
    Json::Arr(items)
}

fn gemini_wire_message_exec(m: &Message) -> (j: Json)
    ensures
        gemini_wire_message(*m, j),
{
    let mut pes: Vec<(String, Json)> = Vec::new();
    pes.push((String::from_str("text"), Json::Str(m.content.clone())));
    let mut parts: Vec<Json> = Vec::new();
    parts.push(Json::Obj(pes));
    let mut es: Vec<(String, Json)> = Vec::new();
    es.push((String::from_str("role"), Json::Str(gemini_role_string(m.role))));
    es.push((String::from_str("parts"), Json::Arr(parts)));
    Json::Obj(es)
}

fn cohere_wire_message_exec(m: &Message) -> (j: Json)
    ensures
        cohere_wire_message(*m, j),
{
    let mut es: Vec<(String, Json)> = Vec::new();
    es.push((String::from_str("role"), Json::Str(cohere_role_string(m.role))));
    es.push((String::from_str("message"), Json::Str(m.content.clone())));
    Json::Obj(es)
}

/// One outbound HTTP request, ready for a transport to send: where it goes,
/// the headers it carries, and its JSON body.
#[derive(Debug)]
pub struct ChatRequest {
    pub url: String,
    pub headers: Vec<(String, String)>,
    pub body: Json,
}

/// Header `h` is named `name` and holds `value`.
pub open spec fn header_is(h: (String, String), name: Seq<char>, value: Seq<char>) -> bool {
    h.0@ == name && h.1@ == value
}

fn bearer_value(api_key: &str) -> (s: String)
    ensures
        s@ == "Bearer "@ + api_key@,
{
    let mut s = String::from_str("Bearer ");
    s.append(api_key);
    s
}

/// The request `openai_request` builds: the fixed URL, a bearer credential,
/// and the OpenAI body.
pub open spec fn openai_request_spec(
    key: Seq<char>,
    model: Seq<char>,
    msgs: Seq<Message>,
    r: ChatRequest,
) -> bool {
    &&& r.url@ == "https://api.openai.com/v1/chat/completions"@
    &&& r.headers@.len() == 2
    &&& header_is(r.headers@[0], "Authorization"@, "Bearer "@ + key)
    &&& header_is(r.headers@[1], "Content-Type"@, "application/json"@)
    &&& openai_body(model, msgs, r.body)
}

/// The request `claude_request` builds: Anthropic's URL, the credential in
/// `x-api-key` beside the pinned version header, and the Anthropic body.
pub open spec fn claude_request_spec(
    key: Seq<char>,
    model: Seq<char>,
    msgs: Seq<Message>,
    r: ChatRequest,
) -> bool {
    &&& r.url@ == "https://api.anthropic.com/v1/messages"@
    &&& r.headers@.len() == 3
    &&& header_is(r.headers@[0], "x-api-key"@, key)
    &&& header_is(r.headers@[1], "anthropic-version"@, "2023-06-01"@)
    &&& header_is(r.headers@[2], "Content-Type"@, "application/json"@)
    &&& claude_body(model, msgs, r.body)
}

/// The request `openrouter_request` builds: OpenRouter's URL, a bearer
/// credential beside the two app-identifying headers, and the
/// OpenAI-compatible body.
pub open spec fn openrouter_request_spec(
    key: Seq<char>,
    model: Seq<char>,
    msgs: Seq<Message>,
    r: ChatRequest,
) -> bool {
    &&& r.url@ == "https://openrouter.ai/api/v1/chat/completions"@
    &&& r.headers@.len() == 4
    &&& header_is(r.headers@[0], "Authorization"@, "Bearer "@ + key)
    &&& header_is(r.headers@[1], "Content-Type"@, "application/json"@)
    &&& header_is(r.headers@[2], "HTTP-Referer"@, "https://bonzo-devassist.app"@)
    &&& header_is(r.headers@[3], "X-Title"@, "BONZO DevAssist AI"@)
    &&& openai_body(model, msgs, r.body)
}

/// The request `gemini_request` builds: the credential rides in the URL as a
/// query parameter, and the body holds only `contents`.
pub open spec fn gemini_request_spec(
    key: Seq<char>,
    model: Seq<char>,
    msgs: Seq<Message>,
    r: ChatRequest,
) -> bool {
    &&& r.url@ == "https://generativelanguage.googleapis.com/v1beta/models/"@ + model
        + ":generateContent?key="@ + key
    &&& r.headers@.len() == 1
    &&& header_is(r.headers@[0], "Content-Type"@, "application/json"@)
    &&& gemini_body(msgs, r.body)
}

/// The request `mistral_request` builds: Mistral's URL, a bearer credential,
/// and the OpenAI-compatible body.
pub open spec fn mistral_request_spec(
    key: Seq<char>,
    model: Seq<char>,
    msgs: Seq<Message>,
    r: ChatRequest,
) -> bool {
    &&& r.url@ == "https://api.mistral.ai/v1/chat/completions"@
    &&& r.headers@.len() == 2
    &&& header_is(r.headers@[0], "Authorization"@, "Bearer "@ + key)
    &&& header_is(r.headers@[1], "Content-Type"@, "application/json"@)
    &&& openai_body(model, msgs, r.body)
}

/// The request `cohere_request` builds for a non-empty conversation.
pub open spec fn cohere_request_spec(
    key: Seq<char>,
    model: Seq<char>,
    msgs: Seq<Message>,
    r: ChatRequest,
) -> bool {
    &&& r.url@ == "https://api.cohere.ai/v1/chat"@
    &&& r.headers@.len() == 2
    &&& header_is(r.headers@[0], "Authorization"@, "Bearer "@ + key)
    &&& header_is(r.headers@[1], "Content-Type"@, "application/json"@)
    &&& cohere_body(model, msgs, r.body)
}

/// The request `ollama_request` builds: the caller's base URL with the chat
/// route appended, no credential, and the Ollama body.
pub open spec fn ollama_request_spec(
    base_url: Seq<char>,
    model: Seq<char>,
    msgs: Seq<Message>,
    r: ChatRequest,
) -> bool {
    &&& r.url@ == base_url + "/api/chat"@
    &&& r.headers@.len() == 1
    &&& header_is(r.headers@[0], "Content-Type"@, "application/json"@)
    &&& ollama_body(model, msgs, r.body)
}

fn content_type_header() -> (h: (String, String))
    ensures
        header_is(h, "Content-Type"@, "application/json"@),
{
    (String::from_str("Content-Type"), String::from_str("application/json"))
}

fn bearer_header(api_key: &str) -> (h: (String, String))
    ensures
        header_is(h, "Authorization"@, "Bearer "@ + api_key@),
{
    (String::from_str("Authorization"), bearer_value(api_key))
}

pub fn openai_request(api_key: &str, model: &str, messages: &Vec<Message>) -> (r: ChatRequest)
    ensures
        openai_request_spec(api_key@, model@, messages@, r),
{
    let mut headers: Vec<(String, String)> = Vec::new();
    headers.push(bearer_header(api_key));
    headers.push(content_type_header());
    let mut es: Vec<(String, Json)> = Vec::new();
    es.push((String::from_str("model"), Json::Str(model.to_owned())));
    es.push((String::from_str("messages"), wire_messages_exec(messages)));
    es.push((String::from_str("temperature"), Json::Num(String::from_str("0.7"))));
    ChatRequest {
        url: String::from_str("https://api.openai.com/v1/chat/completions"),
        headers,
        body: Json::Obj(es),
    }
}

pub fn claude_request(api_key: &str, model: &str, messages: &Vec<Message>) -> (r: ChatRequest)
    ensures
        claude_request_spec(api_key@, model@, messages@, r),
{
    let mut headers: Vec<(String, String)> = Vec::new();
    headers.push((String::from_str("x-api-key"), api_key.to_owned()));
    headers.push((String::from_str("anthropic-version"), String::from_str("2023-06-01")));
    headers.push(content_type_header());
    let mut es: Vec<(String, Json)> = Vec::new();
    es.push((String::from_str("model"), Json::Str(model.to_owned())));
    es.push((String::from_str("messages"), wire_messages_exec(messages)));
    es.push((String::from_str("max_tokens"), Json::Num(String::from_str("4096"))));
    ChatRequest {
        url: String::from_str("https://api.anthropic.com/v1/messages"),
        headers,
        body: Json::Obj(es),
    }
}

pub fn openrouter_request(api_key: &str, model: &str, messages: &Vec<Message>) -> (r: ChatRequest)
    ensures
        openrouter_request_spec(api_key@, model@, messages@, r),
{
    let mut headers: Vec<(String, String)> = Vec::new();
    headers.push(bearer_header(api_key));
    headers.push(content_type_header());
    headers.push((String::from_str("HTTP-Referer"), String::from_str(
        "https://bonzo-devassist.app",
    )));
    headers.push((String::from_str("X-Title"), String::from_str("BONZO DevAssist AI")));
    let mut es: Vec<(String, Json)> = Vec::new();
    es.push((String::from_str("model"), Json::Str(model.to_owned())));
    es.push((String::from_str("messages"), wire_messages_exec(messages)));
    es.push((String::from_str("temperature"), Json::Num(String::from_str("0.7"))));
    ChatRequest {
        url: String::from_str("https://openrouter.ai/api/v1/chat/completions"),
        headers,
        body: Json::Obj(es),
    }
}

pub fn gemini_request(api_key: &str, model: &str, messages: &Vec<Message>) -> (r: ChatRequest)
    ensures
        gemini_request_spec(api_key@, model@, messages@, r),
{
    let mut url = String::from_str("https://generativelanguage.googleapis.com/v1beta/models/");
    url.append(model);
    url.append(":generateContent?key=");
    url.append(api_key);
    let mut headers: Vec<(String, String)> = Vec::new();
    headers.push(content_type_header());
    let mut items: Vec<Json> = Vec::new();
    let n = messages.len();
    let mut i: usize = 0;
    while i < n
        invariant
            n == messages@.len(),
            i <= n,
            items@.len() == i,
            forall|k: int|
                0 <= k < i ==> gemini_wire_message(messages@[k], #[trigger] items@[k]),
        decreases n - i,
    {
        items.push(gemini_wire_message_exec(&messages[i]));
        i = i + 1;
    }
    let mut es: Vec<(String, Json)> = Vec::new();
    es.push((String::from_str("contents"), Json::Arr(items)));
    ChatRequest { url, headers, body: Json::Obj(es) }
}

pub fn mistral_request(api_key: &str, model: &str, messages: &Vec<Message>) -> (r: ChatRequest)
    ensures
        mistral_request_spec(api_key@, model@, messages@, r),
{
    let mut headers: Vec<(String, String)> = Vec::new();
    headers.push(bearer_header(api_key));
    headers.push(content_type_header());
    let mut es: Vec<(String, Json)> = Vec::new();
    es.push((String::from_str("model"), Json::Str(model.to_owned())));
    es.push((String::from_str("messages"), wire_messages_exec(messages)));
    es.push((String::from_str("temperature"), Json::Num(String::from_str("0.7"))));
    ChatRequest {
        url: String::from_str("https://api.mistral.ai/v1/chat/completions"),
        headers,
        body: Json::Obj(es),
    }
}

/// A refused Cohere call: no request was built, so none can have been sent.
pub open spec fn cohere_empty_refusal(r: Result<ChatRequest, ChatError>) -> bool {
    r matches Err(ChatError::Configuration(m)) && m@ == "No messages provided"@
}

pub fn cohere_request(api_key: &str, model: &str, messages: &Vec<Message>) -> (r: Result<
    ChatRequest,
    ChatError,
>)
    ensures
        messages@.len() == 0 ==> cohere_empty_refusal(r),
        messages@.len() > 0 ==> (r matches Ok(req) && cohere_request_spec(
            api_key@,
            model@,
            messages@,
            req,
        )),
{
    if messages.len() == 0 {
        return Err(ChatError::Configuration(String::from_str("No messages provided")));
    }
    let n = messages.len() - 1;
    let last_text = messages[n].content.clone();
    let mut items: Vec<Json> = Vec::new();
    let mut i: usize = 0;
    while i < n
        invariant
            n < messages@.len(),
            i <= n,
            items@.len() == i,
            forall|k: int|
                0 <= k < i ==> cohere_wire_message(messages@[k], #[trigger] items@[k]),
        decreases n - i,
    {
        items.push(cohere_wire_message_exec(&messages[i]));
        i = i + 1;
    }
    let mut headers: Vec<(String, String)> = Vec::new();
    headers.push(bearer_header(api_key));
    headers.push(content_type_header());
    let mut es: Vec<(String, Json)> = Vec::new();
    es.push((String::from_str("model"), Json::Str(model.to_owned())));
    es.push((String::from_str("message"), Json::Str(last_text)));
    es.push((String::from_str("chat_history"), Json::Arr(items)));
    Ok(
        ChatRequest {
            url: String::from_str("https://api.cohere.ai/v1/chat"),
            headers,
            body: Json::Obj(es),
        },
    )
}

pub fn ollama_request(base_url: &str, model: &str, messages: &Vec<Message>) -> (r: ChatRequest)
    ensures
        ollama_request_spec(base_url@, model@, messages@, r),
{
    let mut url = base_url.to_owned();
    url.append("/api/chat");
    let mut headers: Vec<(String, String)> = Vec::new();
    headers.push(content_type_header());
    let mut es: Vec<(String, Json)> = Vec::new();
    es.push((String::from_str("model"), Json::Str(model.to_owned())));
    es.push((String::from_str("messages"), wire_messages_exec(messages)));
    es.push((String::from_str("stream"), Json::Bool(false)));
    ChatRequest { url, headers, body: Json::Obj(es) }
}

/// One entry point over the closed set of providers. For Ollama the
/// credential is the host's base URL; for Gemini it rides in the URL; for
/// everyone else it becomes an auth header.
pub fn build_chat_request(
    provider: Provider,
    credential: &str,
    model: &str,
    messages: &Vec<Message>,
) -> (r: Result<ChatRequest, ChatError>)
    ensures
        match provider {
            Provider::OpenAi => r matches Ok(req) && openai_request_spec(
                credential@,
                model@,
                messages@,
                req,
            ),
            Provider::Claude => r matches Ok(req) && claude_request_spec(
                credential@,
                model@,
                messages@,
                req,
            ),
            Provider::OpenRouter => r matches Ok(req) && openrouter_request_spec(
                credential@,
                model@,
                messages@,
                req,
            ),
            Provider::Gemini => r matches Ok(req) && gemini_request_spec(
                credential@,
                model@,
                messages@,
                req,
            ),
            Provider::Mistral => r matches Ok(req) && mistral_request_spec(
                credential@,
                model@,
                messages@,
                req,
            ),
            Provider::Cohere => if messages@.len() == 0 {
                cohere_empty_refusal(r)
            } else {
                r matches Ok(req) && cohere_request_spec(credential@, model@, messages@, req)
            },
            Provider::Ollama => r matches Ok(req) && ollama_request_spec(
                credential@,
                model@,
                messages@,
                req,
            ),
        },
{
    match provider {
        Provider::OpenAi => Ok(openai_request(credential, model, messages)),
        Provider::Claude => Ok(claude_request(credential, model, messages)),
        Provider::OpenRouter => Ok(openrouter_request(credential, model, messages)),
        Provider::Gemini => Ok(gemini_request(credential, model, messages)),
        Provider::Mistral => Ok(mistral_request(credential, model, messages)),
        Provider::Cohere => cohere_request(credential, model, messages),
        Provider::Ollama => Ok(ollama_request(credential, model, messages)),
    }
}

/// The provider a caller named, by its identifier.
pub open spec fn provider_of_name(s: Seq<char>) -> Option<Provider> {
    if s == "openai"@ {
        Some(Provider::OpenAi)
    } else if s == "anthropic"@ {
        Some(Provider::Claude)
    } else if s == "openrouter"@ {
        Some(Provider::OpenRouter)
    } else if s == "gemini"@ {
        Some(Provider::Gemini)
    } else if s == "mistral"@ {
        Some(Provider::Mistral)
    } else if s == "cohere"@ {
        Some(Provider::Cohere)
    } else if s == "ollama"@ {
        Some(Provider::Ollama)
    } else {
        None
    }
}

pub fn provider_from_name(name: &str) -> (r: Option<Provider>)
    ensures
        r == provider_of_name(name@),
{
    if str_eq(name, "openai") {
        Some(Provider::OpenAi)
    } else if str_eq(name, "anthropic") {
        Some(Provider::Claude)
    } else if str_eq(name, "openrouter") {
        Some(Provider::OpenRouter)
    } else if str_eq(name, "gemini") {
        Some(Provider::Gemini)
    } else if str_eq(name, "mistral") {
        Some(Provider::Mistral)
    } else if str_eq(name, "cohere") {
        Some(Provider::Cohere)
    } else if str_eq(name, "ollama") {
        Some(Provider::Ollama)
    } else {
        None
    }
}

/// The documented reply path of each provider, read out of a response
/// document: `None` where the document does not have that shape.
pub open spec fn reply_text(p: Provider, j: Json) -> Option<Seq<char>> {
    match p {
        Provider::OpenAi | Provider::OpenRouter | Provider::Mistral => opt_str(
            opt_get(opt_get(opt_at(spec_get(j, "choices"@), 0), "message"@), "content"@),
        ),
        Provider::Claude => opt_str(opt_get(opt_at(spec_get(j, "content"@), 0), "text"@)),
        Provider::Gemini => opt_str(
            opt_get(
                opt_at(opt_get(opt_get(opt_at(spec_get(j, "candidates"@), 0), "content"@), "parts"@), 0),
                "text"@,
            ),
        ),
        Provider::Cohere => opt_str(spec_get(j, "text"@)),
        Provider::Ollama => opt_str(opt_get(spec_get(j, "message"@), "content"@)),
    }
}

/// Reads the reply text of `provider` out of a parsed response body, at the
/// path that provider documents.
pub fn extract_reply(provider: Provider, body: &Json) -> (r: Option<String>)
    ensures
        match r {
            Some(s) => reply_text(provider, *body) == Some(s@),
            None => reply_text(provider, *body) is None,
        },
{
    match provider {
        Provider::OpenAi | Provider::OpenRouter | Provider::Mistral => {
            let choices = match body.get("choices") {
                Some(v) => v,
                None => { return None; },
            };
            let first = match choices.at(0) {
                Some(v) => v,
                None => { return None; },
            };
            let message = match first.get("message") {
                Some(v) => v,
                None => { return None; },
            };
            let content = match message.get("content") {
                Some(v) => v,
                None => { return None; },
            };
            match content.as_text() {
                Some(s) => Some(s.clone()),
                None => None,
            }
        },
        Provider::Claude => {
            let content = match body.get("content") {
                Some(v) => v,
                None => { return None; },
            };
            let first = match content.at(0) {
                Some(v) => v,
                None => { return None; },
            };
            let text = match first.get("text") {
                Some(v) => v,
                None => { return None; },
            };
            match text.as_text() {
                Some(s) => Some(s.clone()),
                None => None,
            }
        },
        Provider::Gemini => {
            let candidates = match body.get("candidates") {
                Some(v) => v,
                None => { return None; },
            };
            let first = match candidates.at(0) {
                Some(v) => v,
                None => { return None; },
            };
            let content = match first.get("content") {
                Some(v) => v,
                None => { return None; },
            };
            let parts = match content.get("parts") {
                Some(v) => v,
                None => { return None; },
            };
            let part = match parts.at(0) {
                Some(v) => v,
                None => { return None; },
            };
            let text = match part.get("text") {
                Some(v) => v,
                None => { return None; },
            };
            match text.as_text() {
                Some(s) => Some(s.clone()),
                None => None,
            }
        },
        Provider::Cohere => {
            let text = match body.get("text") {
                Some(v) => v,
                None => { return None; },
            };
            match text.as_text() {
                Some(s) => Some(s.clone()),
                None => None,
            }
        },
        Provider::Ollama => {
            let message = match body.get("message") {
                Some(v) => v,
                None => { return None; },
            };
            let content = match message.get("content") {
                Some(v) => v,
                None => { return None; },
            };
            match content.as_text() {
                Some(s) => Some(s.clone()),
                None => None,
            }
        },
    }
}

/// What a transport hands back for one attempted request.
#[derive(Debug)]
pub enum TransportReply {
    /// The provider answered: the HTTP status, and the body read as text.
    Response(u16, String),
    /// The request never completed; the cause as the transport names it.
    Failure(String),
}

/// A success status in HTTP's sense.
pub open spec fn is_success_status(status: u16) -> bool {
    200 <= status < 300
}

/// Turns one transport outcome into the relay's result: a failed request is a
/// `Transport` error; a non-success answer keeps its status and body as an
/// `Api` error; a success answer yields exactly the text at the provider's
/// documented reply path, and is `Malformed` where the body is not valid JSON
/// or that path is missing.
pub fn interpret_reply(provider: Provider, reply: TransportReply) -> (r: Result<String, ChatError>)
    ensures
        match reply {
            TransportReply::Failure(cause) => r matches Err(ChatError::Transport(c)) && c@
                == cause@,
            TransportReply::Response(status, body) => if !is_success_status(status) {
                r matches Err(ChatError::Api(s, b)) && s == status && b@ == body@
            } else {
                match parsed_json(body@) {
                    None => r matches Err(ChatError::Malformed),
                    Some(doc) => match reply_text(provider, doc) {
                        None => r matches Err(ChatError::Malformed),
                        Some(t) => r matches Ok(s) && s@ == t,
                    },
                }
            },
        },
{
    match reply {
        TransportReply::Failure(cause) => Err(ChatError::Transport(cause)),
        TransportReply::Response(status, body) => {
            if !(200 <= status && status < 300) {
                return Err(ChatError::Api(status, body));
            }
            match parse_json(body.as_str()) {
                None => Err(ChatError::Malformed),
                Some(doc) => match extract_reply(provider, &doc) {
                    None => Err(ChatError::Malformed),
                    Some(s) => Ok(s),
                },
            }
        },
    }
}

impl ChatError {
    /// The descriptive text handed to the caller, phrased as the application
    /// reports each failure.
    pub fn describe(&self) -> (r: String)
        ensures
            match *self {
                ChatError::Transport(c) => r@ == "Request failed: "@ + c@,
                ChatError::Api(_, b) => r@ == "API error: "@ + b@,
                ChatError::Malformed => r@ == "Invalid response format"@,
                ChatError::Configuration(m) => r@ == m@,
            },
    {
        match self {
            ChatError::Transport(c) => {
                let mut s = String::from_str("Request failed: ");
                s.append(c.as_str());
                s
            },
            ChatError::Api(_, b) => {
                let mut s = String::from_str("API error: ");
                s.append(b.as_str());
                s
            },
            ChatError::Malformed => String::from_str("Invalid response format"),
            ChatError::Configuration(m) => m.clone(),
        }
    }
}

/// The URL an Ollama host lists its models at.
pub fn ollama_models_url(base_url: &str) -> (r: String)
    ensures
        r@ == base_url@ + "/api/tags"@,
{
    let mut u = base_url.to_owned();
    u.append("/api/tags");
    u
}

/// The `name` of each entry, in order, passing over entries that carry none.
pub open spec fn model_names(items: Seq<Json>) -> Seq<Seq<char>>
    decreases items.len(),
{
    if items.len() == 0 {
        Seq::empty()
    } else {
        match opt_str(spec_get(items[0], "name"@)) {
            Some(n) => seq![n] + model_names(items.drop_first()),
            None => model_names(items.drop_first()),
        }
    }
}

/// What an Ollama tag listing names: the `name` fields under `models`, or
/// `None` where the document has no `models` array.
pub open spec fn spec_model_list(j: Json) -> Option<Seq<Seq<char>>> {
    match spec_get(j, "models"@) {
        Some(m) => match m {
            Json::Arr(items) => Some(model_names(items@)),
            _ => None,
        },
        None => None,
    }
}

/// Reads the model names out of a parsed Ollama tag listing.
pub fn extract_model_names(doc: &Json) -> (r: Option<Vec<String>>)
    ensures
        match r {
            Some(v) => spec_model_list(*doc) == Some(v.deep_view()),
            None => spec_model_list(*doc) is None,
        },
{
    let models = match doc.get("models") {
        Some(v) => v,
        None => { return None; },
    };
    match models {
        Json::Arr(items) => {
            let mut out: Vec<String> = Vec::new();
            let n = items.len();
            let mut i: usize = 0;
            proof {
                assert(items@.skip(0) =~= items@);
                assert(out.deep_view() + model_names(items@) =~= model_names(items@));
            }
            while i < n
                invariant
                    n == items@.len(),
                    i <= n,
                    out.deep_view() + model_names(items@.skip(i as int)) =~= model_names(
                        items@,
                    ),
                decreases n - i,
            {
                proof {
                    assert(items@.skip(i as int)[0] == items@[i as int]);
                    assert(items@.skip(i as int).drop_first() =~= items@.skip(i + 1 as int));
                }
                let ghost prev = out.deep_view();
                let entry = &items[i];
                match entry.get("name") {
                    Some(nm) => match nm.as_text() {
                        Some(s) => {
                            out.push(s.clone());
                            proof {
                                assert(out.deep_view() =~= prev.push(s@));
                                assert(prev.push(s@) + model_names(items@.skip(i + 1 as int))
                                    =~= prev + (seq![s@] + model_names(
                                    items@.skip(i + 1 as int),
                                )));
                            }
                        },
                        None => {},
                    },
                    None => {},
                }
                i = i + 1;
            }
            proof {
                assert(items@.skip(n as int) =~= Seq::<Json>::empty());
                assert(out.deep_view() + Seq::<Seq<char>>::empty() =~= out.deep_view());
            }
            Some(out)
        },
        _ => None,
    }
}

/// Turns the transport outcome of an Ollama tag listing into the model list,
/// under the same error taxonomy as the chat relay.
pub fn interpret_models_reply(reply: TransportReply) -> (r: Result<Vec<String>, ChatError>)
    ensures
        match reply {
            TransportReply::Failure(cause) => r matches Err(ChatError::Transport(c)) && c@
                == cause@,
            TransportReply::Response(status, body) => if !is_success_status(status) {
                r matches Err(ChatError::Api(s, b)) && s == status && b@ == body@
            } else {
                match parsed_json(body@) {
                    None => r matches Err(ChatError::Malformed),
                    Some(doc) => match spec_model_list(doc) {
                        None => r matches Err(ChatError::Malformed),
                        Some(names) => r matches Ok(v) && v.deep_view() == names,
                    },
                }
            },
        },
{
    match reply {
        TransportReply::Failure(cause) => Err(ChatError::Transport(cause)),
        TransportReply::Response(status, body) => {
            if !(200 <= status && status < 300) {
                return Err(ChatError::Api(status, body));
            }
            match parse_json(body.as_str()) {
                None => Err(ChatError::Malformed),
                Some(doc) => match extract_model_names(&doc) {
                    None => Err(ChatError::Malformed),
                    Some(v) => Ok(v),
                },
            }
        },
    }
}

/// An `Api` error surfaces the response body verbatim: its description is the
/// fixed prefix followed by exactly the body text.
pub proof fn lemma_api_error_surfaces_body(b: Seq<char>)
    ensures
        ("API error: "@ + b).len() == 11 + b.len(),
        ("API error: "@ + b).subrange(11, 11 + b.len() as int) =~= b,
{
    reveal_strlit("API error: ");
}

} // verus!
