use chatgpt::client::{interpret_response, ChatError};
use chatgpt::convo::Conversation;
use chatgpt::decode::parse_response_body;
use chatgpt::encode::encode_request;
use chatgpt::message::{GptMessage, GptRole};

#[test]
fn success_reply_yields_first_choice_message() {
    let body = "{\"choices\":[{\"message\":{\"role\":\"assistant\",\"content\":\"hi\"}}]}";
    let m = interpret_response(200, body).expect("a well-formed success reply");
    assert_eq!(m.role, GptRole::Assistant);
    assert_eq!(m.content, "hi");
}

#[test]
fn success_reply_with_whitespace_parses() {
    let body = "{\n  \"choices\" : [\n    { \"message\" : { \"role\" : \"assistant\" , \"content\" : \"ok\" } }\n  ]\n}\n";
    let m = interpret_response(200, body).expect("a well-formed success reply");
    assert_eq!(m.content, "ok");
}

#[test]
fn realistic_reply_with_bookkeeping_members_parses() {
    let body = "{\n  \"id\": \"chatcmpl-abc123\",\n  \"object\": \"chat.completion\",\n  \
                \"created\": 1700000000,\n  \"model\": \"gpt-3.5-turbo-0613\",\n  \
                \"choices\": [\n    {\n      \"index\": 0,\n      \"message\": {\n        \
                \"role\": \"assistant\",\n        \"content\": \"hello there\"\n      },\n      \
                \"finish_reason\": \"stop\"\n    }\n  ],\n  \"usage\": {\n    \
                \"prompt_tokens\": 9,\n    \"completion_tokens\": 12,\n    \
                \"total_tokens\": 21\n  }\n}\n";
    let m = interpret_response(200, body).expect("a genuine endpoint reply should parse");
    assert_eq!(m.role, GptRole::Assistant);
    assert_eq!(m.content, "hello there");
}

#[test]
fn reply_with_repeated_choices_member_is_rejected() {
    let r = interpret_response(200, "{\"choices\":[],\"choices\":[]}");
    assert!(matches!(r, Err(ChatError::NetworkOrTransport(_))));
}

#[test]
fn empty_choice_list_is_empty_or_ambiguous() {
    let r = interpret_response(200, "{\"choices\":[]}");
    assert!(matches!(r, Err(ChatError::EmptyOrAmbiguousResponse)));
}

#[test]
fn several_choices_yield_the_first() {
    let body = "{\"choices\":[\
        {\"message\":{\"role\":\"assistant\",\"content\":\"first\"}},\
        {\"message\":{\"role\":\"assistant\",\"content\":\"second\"}}]}";
    let msgs = parse_response_body(body).expect("a well-formed reply");
    assert_eq!(msgs.len(), 2);
    let m = interpret_response(200, body).expect("a non-empty choice list");
    assert_eq!(m.content, "first");
}

#[test]
fn server_error_carries_the_raw_body() {
    let r = interpret_response(500, "{\"error\":\"boom\"}");
    match r {
        Err(ChatError::RemoteRequestFailed(body)) => assert_eq!(body, "{\"error\":\"boom\"}"),
        other => panic!("expected RemoteRequestFailed, got {other:?}"),
    }
}

#[test]
fn unauthorized_is_invalid_credential() {
    let r = interpret_response(401, "{\"error\":\"bad key\"}");
    assert!(matches!(r, Err(ChatError::InvalidCredential)));
}

#[test]
fn undecodable_success_body_is_a_transport_error() {
    let r = interpret_response(200, "not json at all");
    match r {
        Err(ChatError::NetworkOrTransport(body)) => assert_eq!(body, "not json at all"),
        other => panic!("expected NetworkOrTransport, got {other:?}"),
    }
}

#[test]
fn raw_control_character_in_reply_content_is_rejected() {
    let body = "{\"choices\":[{\"message\":{\"role\":\"assistant\",\"content\":\"a\nb\"}}]}";
    let r = interpret_response(200, body);
    assert!(matches!(r, Err(ChatError::NetworkOrTransport(_))));
}

#[test]
fn reply_with_trailing_garbage_is_rejected() {
    let body = "{\"choices\":[]}x";
    let r = interpret_response(200, body);
    assert!(matches!(r, Err(ChatError::NetworkOrTransport(_))));
}

#[test]
fn conversation_grows_by_two_per_turn_in_alternating_order() {
    let turns = 3usize;
    let mut convo = Conversation::new();
    assert_eq!(convo.len(), 0);
    for i in 0..turns {
        convo.push_user(format!("question {i}"));
        assert_eq!(convo.len(), 2 * i + 1);
        convo.push_assistant(GptMessage::new(GptRole::Assistant, format!("answer {i}")));
        assert_eq!(convo.len(), 2 * i + 2);
    }
    assert_eq!(convo.len(), 2 * turns);
    for (i, m) in convo.messages().iter().enumerate() {
        if i % 2 == 0 {
            assert_eq!(m.role, GptRole::User);
            assert_eq!(m.content, format!("question {}", i / 2));
        } else {
            assert_eq!(m.role, GptRole::Assistant);
            assert_eq!(m.content, format!("answer {}", i / 2));
        }
    }
}

#[test]
fn conversation_messages_feed_the_request_encoder() {
    let mut convo = Conversation::new();
    convo.push_user(String::from("hi"));
    let body = encode_request(convo.messages());
    assert_eq!(
        body,
        "{\"messages\":[{\"role\":\"user\",\"content\":\"hi\"}],\"model\":\"gpt-3.5-turbo-0613\"}"
    );
}
