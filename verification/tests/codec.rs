use chatgpt::credential::{config_file_contents, validate_credential};
use chatgpt::decode::decode_message;
use chatgpt::encode::{encode_message, encode_request, role_str};
use chatgpt::message::{GptMessage, GptRole};

#[test]
fn role_names_are_lower_case_variant_names() {
    assert_eq!(role_str(GptRole::User), "user");
    assert_eq!(role_str(GptRole::Assistant), "assistant");
    assert_eq!(role_str(GptRole::System), "system");
}

#[test]
fn encode_message_plain() {
    let m = GptMessage::new(GptRole::Assistant, String::from("hello"));
    assert_eq!(
        encode_message(&m),
        "{\"role\":\"assistant\",\"content\":\"hello\"}"
    );
}

#[test]
fn encode_message_escapes_quote_backslash_and_controls() {
    let m = GptMessage::new(GptRole::User, String::from("a\"b\\c\nd"));
    assert_eq!(
        encode_message(&m),
        "{\"role\":\"user\",\"content\":\"a\\\"b\\\\c\\u000ad\"}"
    );
}

#[test]
fn message_roundtrip_plain() {
    let m = GptMessage::new(GptRole::Assistant, String::from("hello world"));
    let wire = encode_message(&m);
    assert_eq!(decode_message(&wire), Some(m));
}

#[test]
fn message_roundtrip_all_roles() {
    for role in [GptRole::User, GptRole::Assistant, GptRole::System] {
        let m = GptMessage::new(role, String::from("x"));
        let wire = encode_message(&m);
        assert_eq!(decode_message(&wire), Some(m));
    }
}

#[test]
fn message_roundtrip_empty_content() {
    let m = GptMessage::new(GptRole::User, String::new());
    let wire = encode_message(&m);
    assert_eq!(wire, "{\"role\":\"user\",\"content\":\"\"}");
    assert_eq!(decode_message(&wire), Some(m));
}

#[test]
fn message_roundtrip_special_characters() {
    let m = GptMessage::new(
        GptRole::User,
        String::from("quote \" backslash \\ newline \n tab \t bell \u{0007} accent é"),
    );
    let wire = encode_message(&m);
    assert_eq!(decode_message(&wire), Some(m));
}

#[test]
fn decode_message_accepts_whitespace_and_short_escapes() {
    let wire = " { \"role\" : \"system\" , \"content\" : \"a\\nb\\tc\\\"d\\\\e\\/f\\bg\\fh\" } ";
    let m = decode_message(wire).expect("well-formed message should parse");
    assert_eq!(m.role, GptRole::System);
    assert_eq!(m.content, "a\nb\tc\"d\\e/f\u{0008}g\u{000c}h");
}

#[test]
fn decode_message_accepts_u00_escapes() {
    let wire = "{\"role\":\"user\",\"content\":\"\\u0041\\u000a\\u00ff\"}";
    let m = decode_message(wire).expect("well-formed message should parse");
    assert_eq!(m.content, "A\n\u{00ff}");
}

#[test]
fn decode_message_accepts_members_in_either_order() {
    let wire = "{\"content\":\"hi\",\"role\":\"assistant\"}";
    let m = decode_message(wire).expect("reversed member order should parse");
    assert_eq!(m.role, GptRole::Assistant);
    assert_eq!(m.content, "hi");
}

#[test]
fn decode_message_skips_unknown_members() {
    let wire = "{\"role\":\"assistant\",\"refusal\":null,\"content\":\"hi\",\"annotations\":[]}";
    let m = decode_message(wire).expect("unknown members should be skipped");
    assert_eq!(m.role, GptRole::Assistant);
    assert_eq!(m.content, "hi");
}

#[test]
fn decode_message_skips_unknown_values_of_every_kind() {
    let wire = "{\"a\":-1.5e+10,\"role\":\"user\",\"b\":true,\"c\":false,\"d\":null,\
                \"e\":{\"f\":[1,2,{\"g\":\"h\"}]},\"i\":[[]],\"j\":\"quoted \\\"text\\\"\",\
                \"content\":\"x\"}";
    let m = decode_message(wire).expect("every kind of skipped value should pass");
    assert_eq!(m.role, GptRole::User);
    assert_eq!(m.content, "x");
}

#[test]
fn decode_message_rejects_repeated_or_missing_members() {
    assert_eq!(
        decode_message("{\"role\":\"user\",\"role\":\"user\",\"content\":\"x\"}"),
        None
    );
    assert_eq!(
        decode_message("{\"role\":\"user\",\"content\":\"x\",\"content\":\"x\"}"),
        None
    );
    assert_eq!(decode_message("{}"), None);
    assert_eq!(decode_message("{\"content\":\"x\"}"), None);
}

#[test]
fn decode_message_rejects_malformed_input() {
    assert_eq!(decode_message(""), None);
    assert_eq!(decode_message("{\"role\":\"user\"}"), None);
    assert_eq!(decode_message("{\"role\":\"wizard\",\"content\":\"x\"}"), None);
    assert_eq!(decode_message("{\"role\":\"user\",\"content\":\"x\"} trailing"), None);
    assert_eq!(decode_message("{\"role\":\"user\",\"content\":\"unterminated"), None);
    assert_eq!(decode_message("{\"role\":\"user\",\"content\":\"bad\\qescape\"}"), None);
    assert_eq!(decode_message("{\"role\":\"user\",\"content\":\"raw\ncontrol\"}"), None);
}

#[test]
fn encode_request_single_message() {
    let msgs = vec![GptMessage::new(GptRole::User, String::from("hi"))];
    assert_eq!(
        encode_request(&msgs),
        "{\"messages\":[{\"role\":\"user\",\"content\":\"hi\"}],\"model\":\"gpt-3.5-turbo-0613\"}"
    );
}

#[test]
fn encode_request_joins_messages_in_order() {
    let msgs = vec![
        GptMessage::new(GptRole::User, String::from("a")),
        GptMessage::new(GptRole::Assistant, String::from("b")),
        GptMessage::new(GptRole::User, String::from("c")),
    ];
    assert_eq!(
        encode_request(&msgs),
        "{\"messages\":[{\"role\":\"user\",\"content\":\"a\"},\
         {\"role\":\"assistant\",\"content\":\"b\"},\
         {\"role\":\"user\",\"content\":\"c\"}],\"model\":\"gpt-3.5-turbo-0613\"}"
    );
}

#[test]
fn credential_shape_accepts_51_chars_starting_sk_dash() {
    let good = format!("sk-{}", "a".repeat(48));
    assert_eq!(good.chars().count(), 51);
    assert!(validate_credential(&good));
}

#[test]
fn credential_shape_rejects_other_strings() {
    assert!(!validate_credential(""));
    assert!(!validate_credential("sk-123"));
    assert!(!validate_credential(&"x".repeat(51)));
    assert!(!validate_credential(&format!("sk-{}", "a".repeat(47))));
    assert!(!validate_credential(&format!("sk-{}", "a".repeat(49))));
    assert!(!validate_credential(&format!("pk-{}", "a".repeat(48))));
}

#[test]
fn credential_shape_counts_characters_not_bytes() {
    let good = format!("sk-{}", "é".repeat(48));
    assert_eq!(good.chars().count(), 51);
    assert!(validate_credential(&good));
}

#[test]
fn config_file_contents_is_one_toml_line() {
    let key = format!("sk-{}", "a".repeat(48));
    assert_eq!(
        config_file_contents(&key),
        format!("openai_api_key = \"{key}\"")
    );
}
