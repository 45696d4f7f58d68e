//! The round-trip law of the wire encoding: a message serialized by this
//! library is parsed back, by this library's own parser, to an equal value.

use vstd::prelude::*;
use crate::encode::{escape, escape_char, hex_digit, message_json, role_chars};
use crate::decode::{
    expect, hex_val, is_ws, parse_jstring, parse_message, parse_message_doc, parse_message_members,
    parse_role, skip_ws, tok_after, unescape1,
};
use crate::message::{GptRole, MessageView};

verus! {

/// A hexadecimal digit character reads back as its value.
pub proof fn lemma_hex_roundtrip(n: int)
    requires
        0 <= n < 16,
    ensures
        hex_val(hex_digit(n)) == Some(n),
{
}

/// A token at the front of the input is consumed whole, whitespace skipping
/// included, when it does not itself begin with whitespace.
pub proof fn lemma_tok_step(pre: Seq<char>, s: Seq<char>)
    requires
        pre.len() > 0,
        !is_ws(pre[0]),
    ensures
        tok_after(Some(pre + s), pre) == Some(s),
{
    assert((pre + s)[0] == pre[0]);
    assert(skip_ws(pre + s) == pre + s);
    assert((pre + s).take(pre.len() as int) =~= pre);
    assert((pre + s).skip(pre.len() as int) =~= s);
}

/// A token at the front of the input is consumed whole.
pub proof fn lemma_expect_prefix(pre: Seq<char>, s: Seq<char>)
    ensures
        expect(pre + s, pre) == Some(s),
{
    assert((pre + s).take(pre.len() as int) =~= pre);
    assert((pre + s).skip(pre.len() as int) =~= s);
}

/// Escaping a text and closing the quote parses back to the same text, with
/// the input after the quote left over.
pub proof fn lemma_jstring_roundtrip(t: Seq<char>, rest: Seq<char>)
    ensures
        parse_jstring(escape(t) + seq!['"'] + rest) == Some((t, rest)),
    decreases t.len(),
{
    let s = escape(t) + seq!['"'] + rest;
    if t.len() == 0 {
        assert(escape(t) =~= Seq::<char>::empty());
        assert(s[0] == '"');
        assert(s.skip(1) =~= rest);
        assert(Seq::<char>::empty() =~= t);
    } else {
        let c = t[0];
        let a = escape_char(c);
        let b = escape(t.skip(1)) + seq!['"'] + rest;
        assert(escape(t) == a + escape(t.skip(1)));
        assert(s =~= a + b);
        lemma_jstring_roundtrip(t.skip(1), rest);
        assert(seq![c] + t.skip(1) =~= t);
        if c == '"' {
            assert(s[0] == '\\');
            assert(s[1] == '"');
            assert(s.skip(2) =~= b);
            assert(unescape1(s[1]) == Some('"'));
            assert(parse_jstring(s) == Some((t, rest)));
        } else if c == '\\' {
            assert(s[0] == '\\');
            assert(s[1] == '\\');
            assert(s.skip(2) =~= b);
            assert(unescape1(s[1]) == Some('\\'));
            assert(parse_jstring(s) == Some((t, rest)));
        } else if (c as u32) < 0x20 {
            let v = c as u32;
            let hi = v as int / 16;
            let lo = v as int % 16;
            assert(s[0] == '\\');
            assert(s[1] == 'u');
            assert(s[2] == '0');
            assert(s[3] == '0');
            assert(s[4] == hex_digit(hi));
            assert(s[5] == hex_digit(lo));
            assert(s.skip(6) =~= b);
            lemma_hex_roundtrip(hi);
            lemma_hex_roundtrip(lo);
            assert(hi * 16 + lo == v as int) by (nonlinear_arith)
                requires
                    hi == v as int / 16,
                    lo == v as int % 16,
                    v < 0x20,
            ;
            vstd::utf8::char_u32_cast(c, v);
            assert((((hi * 16 + lo) as u32) as char) == c);
            assert(parse_jstring(s) == Some((t, rest)));
        } else {
            assert(s[0] == c);
            assert(s.skip(1) =~= b);
            assert(parse_jstring(s) == Some((t, rest)));
        }
    }
}

/// A role name written by the encoder, with its closing quote, parses back
/// to the same role.
pub proof fn lemma_role_roundtrip(r: GptRole, s: Seq<char>)
    ensures
        parse_role(role_chars(r) + "\""@ + s) == Some((r, s)),
{
    reveal_strlit("user");
    reveal_strlit("assistant");
    reveal_strlit("system");
    reveal_strlit("user\"");
    reveal_strlit("assistant\"");
    reveal_strlit("system\"");
    reveal_strlit("\"");
    let input = role_chars(r) + "\""@ + s;
    match r {
        GptRole::User => {
            assert("user\""@ =~= "user"@ + "\""@);
            assert(input =~= "user\""@ + s);
            lemma_expect_prefix("user\""@, s);
        },
        GptRole::Assistant => {
            assert(input[0] == 'a');
            assert(expect(input, "user\""@) is None) by {
                if "user\""@.len() <= input.len() && input.take("user\""@.len() as int)
                    == "user\""@ {
                    assert(input.take(5)[0] == input[0]);
                    assert(false);
                }
            };
            assert("assistant\""@ =~= "assistant"@ + "\""@);
            assert(input =~= "assistant\""@ + s);
            lemma_expect_prefix("assistant\""@, s);
        },
        GptRole::System => {
            assert(input[0] == 's');
            assert(expect(input, "user\""@) is None) by {
                if "user\""@.len() <= input.len() && input.take("user\""@.len() as int)
                    == "user\""@ {
                    assert(input.take(5)[0] == input[0]);
                    assert(false);
                }
            };
            assert(expect(input, "assistant\""@) is None) by {
                if "assistant\""@.len() <= input.len() && input.take("assistant\""@.len() as int)
                    == "assistant\""@ {
                    assert(input.take(10)[0] == input[0]);
                    assert(false);
                }
            };
            assert("system\""@ =~= "system"@ + "\""@);
            assert(input =~= "system\""@ + s);
            lemma_expect_prefix("system\""@, s);
        },
    }
}

/// Plain text — no quote, no backslash, no control character — is its own
/// escape.
pub proof fn lemma_escape_plain(t: Seq<char>)
    requires
        forall|i: int| 0 <= i < t.len() ==> t[i] != '"' && t[i] != '\\' && (t[i] as u32) >= 0x20,
    ensures
        escape(t) == t,
    decreases t.len(),
{
    if t.len() == 0 {
        assert(escape(t) =~= t);
    } else {
        assert(escape_char(t[0]) == seq![t[0]]);
        lemma_escape_plain(t.skip(1));
        assert(escape(t) =~= t);
    }
}

/// Round trip of the wire encoding: for every well-formed message value,
/// serializing it and parsing the result back yields an equal value.
#[verifier::rlimit(100)]
pub proof fn lemma_message_roundtrip(m: MessageView)
    ensures
        parse_message_doc(message_json(m)) == Some(m),
{
    reveal_strlit("{\"role\":\"");
    reveal_strlit("\",\"content\":\"");
    reveal_strlit("\"}");
    reveal_strlit("{");
    reveal_strlit(":");
    reveal_strlit("\"");
    reveal_strlit(",");
    reveal_strlit("}");
    reveal_strlit("role");
    reveal_strlit("content");
    let role_s = role_chars(m.role);
    let esc = escape(m.content);
    let t_open = "{"@;
    let t_colon = ":"@;
    let t_q = "\""@;
    let t_comma = ","@;
    let t_cb = "}"@;
    let k_role = "role"@;
    let k_content = "content"@;
    let s0 = message_json(m);
    assert forall|i: int| 0 <= i < k_role.len() implies k_role[i] != '"' && k_role[i] != '\\' && (
    k_role[i] as u32) >= 0x20 by {
        if i == 0 {
            assert(k_role[0] == 'r');
        } else if i == 1 {
            assert(k_role[1] == 'o');
        } else if i == 2 {
            assert(k_role[2] == 'l');
        } else {
            assert(k_role[3] == 'e');
        }
    }
    assert forall|i: int|
        0 <= i < k_content.len() implies k_content[i] != '"' && k_content[i] != '\\' && (
    k_content[i] as u32) >= 0x20 by {
        if i == 0 {
            assert(k_content[0] == 'c');
        } else if i == 1 {
            assert(k_content[1] == 'o');
        } else if i == 2 {
            assert(k_content[2] == 'n');
        } else if i == 3 {
            assert(k_content[3] == 't');
        } else if i == 4 {
            assert(k_content[4] == 'e');
        } else if i == 5 {
            assert(k_content[5] == 'n');
        } else {
            assert(k_content[6] == 't');
        }
    }
    lemma_escape_plain(k_role);
    lemma_escape_plain(k_content);
    assert(t_q =~= seq!['"']);
    // The second member, "content", and what the walker sees at each step.
    let w2 = t_colon + (t_q + (esc + (t_q + t_cb)));
    let w1 = k_content + (t_q + w2);
    let s_m2 = t_q + w1;
    let w3 = t_q + (esc + (t_q + t_cb));
    let w4 = esc + (t_q + t_cb);
    // The first member, "role", and what the walker sees at each step.
    let u4 = t_comma + s_m2;
    let u3 = role_s + (t_q + u4);
    let u2 = t_q + u3;
    let rest_a = t_colon + u2;
    let u1 = k_role + (t_q + rest_a);
    let s1 = t_q + u1;
    assert("{\"role\":\""@ =~= t_open + (t_q + (k_role + (t_q + (t_colon + t_q)))));
    assert("\",\"content\":\""@ =~= t_q + (t_comma + (t_q + (k_content + (t_q + (t_colon
        + t_q))))));
    assert("\"}"@ =~= t_q + t_cb);
    assert(s0 =~= t_open + s1);
    lemma_tok_step(t_open, s1);
    // First member: its key...
    lemma_tok_step(t_q, u1);
    assert(u1 =~= escape(k_role) + seq!['"'] + rest_a);
    lemma_jstring_roundtrip(k_role, rest_a);
    assert(parse_jstring(u1) == Some((k_role, rest_a)));
    // ...the colon, and the quoted role name.
    lemma_tok_step(t_colon, u2);
    assert(u2[0] == '"');
    assert(skip_ws(u2) == u2);
    lemma_expect_prefix(t_q, u3);
    assert(u3 =~= role_s + "\""@ + u4);
    lemma_role_roundtrip(m.role, u4);
    assert(parse_role(u3) == Some((m.role, u4)));
    // A comma follows, not the closing brace.
    assert(u4[0] == ',');
    assert(skip_ws(u4) == u4);
    assert(expect(u4, "}"@) is None) by {
        if "}"@.len() <= u4.len() && u4.take("}"@.len() as int) == "}"@ {
            assert(u4.take(1)[0] == u4[0]);
            assert(false);
        }
    };
    lemma_expect_prefix(t_comma, s_m2);
    assert(s_m2.len() < s1.len());
    // Second member: its key...
    lemma_tok_step(t_q, w1);
    assert(w1 =~= escape(k_content) + seq!['"'] + w2);
    lemma_jstring_roundtrip(k_content, w2);
    assert(parse_jstring(w1) == Some((k_content, w2)));
    assert(k_content != k_role);
    // ...the colon, and the quoted content text.
    lemma_tok_step(t_colon, w3);
    assert(w3[0] == '"');
    assert(skip_ws(w3) == w3);
    lemma_expect_prefix(t_q, w4);
    assert(w4 =~= esc + seq!['"'] + t_cb);
    lemma_jstring_roundtrip(m.content, t_cb);
    assert(parse_jstring(w4) == Some((m.content, t_cb)));
    // The closing brace ends the object with both members found.
    assert(t_cb[0] == '}');
    assert(skip_ws(t_cb) == t_cb);
    assert(t_cb =~= t_cb + Seq::<char>::empty());
    lemma_expect_prefix(t_cb, Seq::<char>::empty());
    assert(parse_message_members(s_m2, Some(m.role), None) == Some(
        (MessageView { role: m.role, content: m.content }, Seq::<char>::empty()),
    ));
    assert(parse_message_members(s1, None, None) == Some(
        (MessageView { role: m.role, content: m.content }, Seq::<char>::empty()),
    ));
    assert(parse_message(s0) == Some(
        (MessageView { role: m.role, content: m.content }, Seq::<char>::empty()),
    ));
    assert(MessageView { role: m.role, content: m.content } == m);
    assert(skip_ws(Seq::<char>::empty()).len() == 0);
}

} // verus!
