//! The wire JSON encoding of messages and of the completion request body.
//!
//! The request sent to the completion endpoint is
//! `{"messages":[<message>,...],"model":"<model id>"}`, where each message is
//! `{"role":"<role>","content":"<escaped content>"}`. Inside a JSON string
//! literal, quote and backslash are escaped with a backslash and control
//! characters take the `\u00XX` form; every other character stands for
//! itself.

use vstd::prelude::*;
use vstd::string::*;
use crate::message::{GptMessage, GptRole, MessageView};

verus! {

/// The lower-case hexadecimal digit for a value below sixteen.
pub open spec fn hex_digit(n: int) -> char {
    if n == 0 {
        '0'
    } else if n == 1 {
        '1'
    } else if n == 2 {
        '2'
    } else if n == 3 {
        '3'
    } else if n == 4 {
        '4'
    } else if n == 5 {
        '5'
    } else if n == 6 {
        '6'
    } else if n == 7 {
        '7'
    } else if n == 8 {
        '8'
    } else if n == 9 {
        '9'
    } else if n == 10 {
        'a'
    } else if n == 11 {
        'b'
    } else if n == 12 {
        'c'
    } else if n == 13 {
        'd'
    } else if n == 14 {
        'e'
    } else {
        'f'
    }
}

/// The encoding of one character inside a JSON string literal.
pub open spec fn escape_char(c: char) -> Seq<char> {
    if c == '"' {
        seq!['\\', '"']
    } else if c == '\\' {
        seq!['\\', '\\']
    } else if (c as u32) < 0x20 {
        seq!['\\', 'u', '0', '0', hex_digit((c as u32) as int / 16), hex_digit((c as u32) as int % 16)]
    } else {
        seq![c]
    }
}

/// The encoding of a whole text as the body of a JSON string literal
/// (without the surrounding quotes).
pub open spec fn escape(s: Seq<char>) -> Seq<char>
    decreases s.len(),
{
    if s.len() == 0 {
        Seq::empty()
    } else {
        escape_char(s[0]) + escape(s.skip(1))
    }
}

/// The wire name of a role: the lower-case variant name.
pub open spec fn role_chars(r: GptRole) -> Seq<char> {
    match r {
        GptRole::User => "user"@,
        GptRole::Assistant => "assistant"@,
        GptRole::System => "system"@,
    }
}

/// The JSON object encoding one message.
pub open spec fn message_json(m: MessageView) -> Seq<char> {
    "{\"role\":\""@ + role_chars(m.role) + "\",\"content\":\""@ + escape(m.content) + "\"}"@
}

/// The comma-separated encodings of a sequence of messages.
pub open spec fn messages_json(ms: Seq<MessageView>) -> Seq<char>
    decreases ms.len(),
{
    if ms.len() == 0 {
        Seq::empty()
    } else if ms.len() == 1 {
        message_json(ms[0])
    } else {
        message_json(ms[0]) + seq![','] + messages_json(ms.skip(1))
    }
}

/// The model identifier named in every request.
pub open spec fn model_chars() -> Seq<char> {
    "gpt-3.5-turbo-0613"@
}

/// The full completion request body for a conversation.
pub open spec fn request_json(ms: Seq<MessageView>) -> Seq<char> {
    "{\"messages\":["@ + messages_json(ms) + "],\"model\":\""@ + model_chars() + "\"}"@
}

/// Relies on std's `String::push`: appends the given character to the end of
/// the string.
#[verifier::external_body]
pub(crate) fn push_char(s: &mut String, c: char)
    ensures
        final(s)@ == old(s)@.push(c),
{
    s.push(c)
}

/// Appending one character to a text appends its escape to the encoding.
pub proof fn lemma_escape_snoc(t: Seq<char>, c: char)
    ensures
        escape(t.push(c)) == escape(t) + escape_char(c),
    decreases t.len(),
{
    let u = t.push(c);
    assert(u.len() == t.len() + 1);
    assert(escape(u) == escape_char(u[0]) + escape(u.skip(1)));
    if t.len() == 0 {
        assert(u[0] == c);
        assert(u.skip(1) =~= Seq::<char>::empty());
        assert(escape(u.skip(1)) == Seq::<char>::empty());
        assert(escape(t) == Seq::<char>::empty());
        assert(escape(u) =~= escape(t) + escape_char(c));
    } else {
        assert(u[0] == t[0]);
        assert(u.skip(1) =~= t.skip(1).push(c));
        lemma_escape_snoc(t.skip(1), c);
        assert(escape(u) == escape_char(t[0]) + (escape(t.skip(1)) + escape_char(c)));
        assert(escape(t) == escape_char(t[0]) + escape(t.skip(1)));
        assert(escape(u) =~= escape(t) + escape_char(c));
    }
}

/// The hexadecimal digit character for a value below sixteen.
fn hex_char(n: u32) -> (c: char)
    requires
        n < 16,
    ensures
        c == hex_digit(n as int),
{
    if n == 0 {
        '0'
    } else if n == 1 {
        '1'
    } else if n == 2 {
        '2'
    } else if n == 3 {
        '3'
    } else if n == 4 {
        '4'
    } else if n == 5 {
        '5'
    } else if n == 6 {
        '6'
    } else if n == 7 {
        '7'
    } else if n == 8 {
        '8'
    } else if n == 9 {
        '9'
    } else if n == 10 {
        'a'
    } else if n == 11 {
        'b'
    } else if n == 12 {
        'c'
    } else if n == 13 {
        'd'
    } else if n == 14 {
        'e'
    } else {
        'f'
    }
}

/// Appends the JSON string-literal encoding of `s` to `out`.
pub fn escape_into(out: &mut String, s: &str)
    ensures
        final(out)@ == old(out)@ + escape(s@),
{
    let n: usize = s.unicode_len();
    let mut i: usize = 0;
    while i < n
        invariant
            n == s@.len(),
            i <= n,
            out@ == old(out)@ + escape(s@.take(i as int)),
        decreases n - i,
    {
        let c = s.get_char(i);
        proof {
            assert(s@.take(i as int + 1) =~= s@.take(i as int).push(s@[i as int]));
            lemma_escape_snoc(s@.take(i as int), s@[i as int]);
        }
        if c == '"' {
            push_char(out, '\\');
            push_char(out, '"');
        } else if c == '\\' {
            push_char(out, '\\');
            push_char(out, '\\');
        } else if (c as u32) < 0x20 {
            let v: u32 = c as u32;
            push_char(out, '\\');
            push_char(out, 'u');
            push_char(out, '0');
            push_char(out, '0');
            push_char(out, hex_char(v / 16));
            push_char(out, hex_char(v % 16));
        } else {
            push_char(out, c);
        }
        proof {
            assert(out@ =~= old(out)@ + escape(s@.take(i as int + 1)));
        }
        i = i + 1;
    }
    proof {
        assert(s@.take(n as int) =~= s@);
    }
}

/// The wire name of a role.
pub fn role_str(r: GptRole) -> (s: &'static str)
    ensures
        s@ == role_chars(r),
{
    match r {
        GptRole::User => "user",
        GptRole::Assistant => "assistant",
        GptRole::System => "system",
    }
}

/// Encodes one message as its wire JSON object.
pub fn encode_message(m: &GptMessage) -> (r: String)
    ensures
        r@ == message_json(m@),
{
    let mut out = String::new();
    out.append("{\"role\":\"");
    out.append(role_str(m.role));
    out.append("\",\"content\":\"");
    escape_into(&mut out, m.content.as_str());
    out.append("\"}");
    proof {
        assert(out@ =~= message_json(m@));
    }
    out
}

/// Appending a message to a non-empty sequence appends a comma and its
/// encoding to the joined encodings.
pub proof fn lemma_messages_json_snoc(ms: Seq<MessageView>, m: MessageView)
    requires
        ms.len() >= 1,
    ensures
        messages_json(ms.push(m)) == messages_json(ms) + seq![','] + message_json(m),
    decreases ms.len(),
{
    if ms.len() == 1 {
        assert(ms.push(m)[0] == ms[0]);
        assert(ms.push(m).skip(1) =~= seq![m]);
        assert(messages_json(seq![m]) == message_json(m));
        assert(messages_json(ms.push(m)) =~= messages_json(ms) + seq![','] + message_json(m));
    } else {
        assert(ms.push(m)[0] == ms[0]);
        assert(ms.push(m).skip(1) =~= ms.skip(1).push(m));
        lemma_messages_json_snoc(ms.skip(1), m);
        assert(messages_json(ms.push(m)) =~= messages_json(ms) + seq![','] + message_json(m));
    }
}

/// Encodes the full completion request body for a non-empty conversation:
/// every accumulated message, in order, and the fixed model identifier.
pub fn encode_request(msgs: &Vec<GptMessage>) -> (r: String)
    requires
        msgs@.len() > 0,
    ensures
        r@ == request_json(msgs@.map_values(|m: GptMessage| m@)),
{
    let ghost vs: Seq<MessageView> = msgs@.map_values(|m: GptMessage| m@);
    let mut body = encode_message(&msgs[0]);
    proof {
        assert(vs.take(1) =~= seq![vs[0]]);
        assert(messages_json(vs.take(1)) == message_json(vs[0]));
    }
    let mut i: usize = 1;
    while i < msgs.len()
        invariant
            1 <= i <= msgs@.len(),
            vs == msgs@.map_values(|m: GptMessage| m@),
            vs.len() == msgs@.len(),
            body@ == messages_json(vs.take(i as int)),
        decreases msgs@.len() - i,
    {
        body.append(",");
        let enc = encode_message(&msgs[i]);
        body.append(enc.as_str());
        proof {
            reveal_strlit(",");
            assert(","@ =~= seq![',']);
            assert(vs.take(i as int + 1) =~= vs.take(i as int).push(vs[i as int]));
            lemma_messages_json_snoc(vs.take(i as int), vs[i as int]);
            assert(body@ =~= messages_json(vs.take(i as int + 1)));
        }
        i = i + 1;
    }
    proof {
        assert(vs.take(vs.len() as int) =~= vs);
    }
    let mut out = String::new();
    out.append("{\"messages\":[");
    out.append(body.as_str());
    out.append("],\"model\":\"");
    out.append("gpt-3.5-turbo-0613");
    out.append("\"}");
    proof {
        assert(out@ =~= request_json(vs));
    }
    out
}

} // verus!
