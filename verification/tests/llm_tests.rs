use lai::llm::{
    bearer, completion_url, delta_token, map_messages, reply_content, sse_line, stream_step, trim_url, Json,
    Message, ReplyMessage, Role, SseLine, StreamStep,
};

fn obj(fields: Vec<(&str, Json)>) -> Json {
    Json::Object(fields.into_iter().map(|(k, v)| (k.to_string(), v)).collect())
}

#[test]
fn role_labels() {
    assert_eq!(Role::System.label(), "system");
    assert_eq!(Role::User.label(), "user");
    assert_eq!(Role::Assistant.label(), "assistant");
    assert_eq!(Role::Tool.label(), "tool");
}

#[test]
fn request_messages() {
    let messages = vec![
        Message::new(Role::System, "s".to_string()),
        Message::new(Role::User, "u".to_string()),
        Message::new(Role::Assistant, "a".to_string()),
        Message::new(Role::Tool, "3".to_string()),
    ];
    let mapped = map_messages(&messages);
    let pairs: Vec<(String, String)> = mapped.into_iter().map(|m| (m.role, m.content)).collect();
    assert_eq!(
        pairs,
        vec![
            ("system".to_string(), "s".to_string()),
            ("user".to_string(), "u".to_string()),
            ("assistant".to_string(), "a".to_string()),
            ("user".to_string(), "[Tool Result]\n3".to_string())
        ]
    );
}

#[test]
fn urls() {
    assert_eq!(trim_url("http://localhost:8080///"), "http://localhost:8080");
    assert_eq!(trim_url("http://x/v1"), "http://x/v1");
    assert_eq!(completion_url("http://x/v1"), "http://x/v1/chat/completions");
    assert_eq!(bearer("k"), "Bearer k");
}

#[test]
fn reply_text() {
    let with_content = vec![ReplyMessage { content: Some("hi".to_string()), reasoning: None }];
    assert_eq!(reply_content(with_content, false), Ok("hi".to_string()));
    let reasoning_only = || vec![ReplyMessage { content: None, reasoning: Some("think".to_string()) }];
    assert_eq!(reply_content(reasoning_only(), true), Ok("think".to_string()));
    assert_eq!(reply_content(reasoning_only(), false), Err("empty response".to_string()));
    assert_eq!(reply_content(Vec::new(), true), Err("empty response".to_string()));
}

#[test]
fn stream_lines() {
    assert!(matches!(sse_line(""), SseLine::Skip));
    assert!(matches!(sse_line(": keep-alive"), SseLine::Skip));
    assert!(matches!(sse_line("  data: [DONE]  "), SseLine::Done));
    match sse_line("data: {\"x\":1}\r") {
        SseLine::Data(d) => assert_eq!(d, "{\"x\":1}"),
        _ => panic!("data expected"),
    }
}

#[test]
fn stream_tokens() {
    let chunk = obj(vec![(
        "choices",
        Json::Array(vec![obj(vec![("delta", obj(vec![("content", Json::Str("Hel".to_string()))]))])]),
    )]);
    assert_eq!(delta_token(&chunk), Some("Hel".to_string()));
    let reasoning = obj(vec![(
        "choices",
        Json::Array(vec![obj(vec![(
            "delta",
            obj(vec![("content", Json::Null), ("reasoning", Json::Str("r".to_string()))]),
        )])]),
    )]);
    assert_eq!(delta_token(&reasoning), Some("r".to_string()));
    assert_eq!(delta_token(&obj(vec![("choices", Json::Array(Vec::new()))])), None);
    assert_eq!(delta_token(&Json::Number("1".to_string())), None);
}

#[test]
fn stream_steps_gather_tokens() {
    let mut acc = String::new();
    assert!(matches!(stream_step(&mut acc, ""), StreamStep::Continue));
    assert!(matches!(stream_step(&mut acc, ": ping"), StreamStep::Continue));
    match stream_step(&mut acc, "data: {\"choices\":[{\"delta\":{\"content\":\"Hel\"}}]}\r") {
        StreamStep::Emit(t) => assert_eq!(t, "Hel"),
        other => panic!("unexpected {:?}", other),
    }
    assert!(matches!(stream_step(&mut acc, "data: not json"), StreamStep::Continue));
    match stream_step(
        &mut acc,
        "  data: {\"choices\":[{\"delta\":{\"content\":null,\"reasoning\":\"lo\"}}]}",
    ) {
        StreamStep::Emit(t) => assert_eq!(t, "lo"),
        other => panic!("unexpected {:?}", other),
    }
    assert!(matches!(stream_step(&mut acc, "data: {\"choices\":[]}"), StreamStep::Continue));
    assert!(matches!(
        stream_step(&mut acc, "data: {\"choices\":[{\"delta\":{\"content\":7}}]}"),
        StreamStep::Continue
    ));
    assert_eq!(acc, "Hello");
    assert!(matches!(stream_step(&mut acc, "data: [DONE]"), StreamStep::Stop));
    assert_eq!(acc, "Hello");
}
