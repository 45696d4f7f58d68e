//! The parser for the wire JSON shapes the completion endpoint sends back.
//!
//! The reply body is an object holding a `"choices"` list of choice objects,
//! each holding a `"message"` object with `"role"` and `"content"` members.
//! Members may come in any order; a member the tool does not read (an id, an
//! index, usage counters) is skipped over as a generic JSON value; a named
//! member repeated in one object is rejected, as is an object missing one.
//! Whitespace may stand between any two tokens. Inside a string literal the
//! parser accepts the escapes `\"`, `\\`, `\/`, `\b`, `\f`, `\n`, `\r`, `\t`
//! and `\u00XX`, and rejects unescaped control characters.
//!
//! Each executable parser is proved to return exactly what its specification
//! counterpart says on the same input.

use vstd::prelude::*;
use vstd::string::*;
use crate::encode::push_char;
use crate::message::{GptMessage, GptRole, MessageView};

verus! {

/// JSON insignificant whitespace.
pub open spec fn is_ws(c: char) -> bool {
    c == ' ' || c == '\n' || c == '\t' || c == '\r'
}

/// The input with its leading whitespace removed.
pub open spec fn skip_ws(s: Seq<char>) -> Seq<char>
    decreases s.len(),
{
    if s.len() > 0 && is_ws(s[0]) {
        skip_ws(s.skip(1))
    } else {
        s
    }
}

/// The value of a hexadecimal digit character, if it is one.
pub open spec fn hex_val(c: char) -> Option<int> {
    if '0' <= c && c <= '9' {
        Some(c as int - '0' as int)
    } else if 'a' <= c && c <= 'f' {
        Some(c as int - 'a' as int + 10)
    } else if 'A' <= c && c <= 'F' {
        Some(c as int - 'A' as int + 10)
    } else {
        None
    }
}

/// The character a single-letter escape stands for.
pub open spec fn unescape1(c: char) -> Option<char> {
    if c == '"' {
        Some('"')
    } else if c == '\\' {
        Some('\\')
    } else if c == '/' {
        Some('/')
    } else if c == 'n' {
        Some('\n')
    } else if c == 't' {
        Some('\t')
    } else if c == 'r' {
        Some('\r')
    } else if c == 'b' {
        Some('\u{0008}')
    } else if c == 'f' {
        Some('\u{000c}')
    } else {
        None
    }
}

/// If the input starts with the given token, the input after it.
pub open spec fn expect(s: Seq<char>, tok: Seq<char>) -> Option<Seq<char>> {
    if tok.len() <= s.len() && s.take(tok.len() as int) == tok {
        Some(s.skip(tok.len() as int))
    } else {
        None
    }
}

/// Parses the body of a JSON string literal, the opening quote already
/// consumed: the decoded text and the input after the closing quote.
pub open spec fn parse_jstring(s: Seq<char>) -> Option<(Seq<char>, Seq<char>)>
    decreases s.len(),
{
    if s.len() == 0 {
        None
    } else if s[0] == '"' {
        Some((Seq::empty(), s.skip(1)))
    } else if s[0] == '\\' {
        if s.len() < 2 {
            None
        } else if s[1] == 'u' {
            if s.len() < 6 {
                None
            } else if s[2] == '0' && s[3] == '0' && hex_val(s[4]) is Some && hex_val(s[5]) is Some {
                match parse_jstring(s.skip(6)) {
                    Some((t, r)) => Some(
                        (seq![(((hex_val(s[4]).unwrap() * 16 + hex_val(s[5]).unwrap()) as u32) as char)] + t, r),
                    ),
                    None => None,
                }
            } else {
                None
            }
        } else {
            match unescape1(s[1]) {
                Some(c) => match parse_jstring(s.skip(2)) {
                    Some((t, r)) => Some((seq![c] + t, r)),
                    None => None,
                },
                None => None,
            }
        }
    } else if (s[0] as u32) < 0x20 {
        None
    } else {
        match parse_jstring(s.skip(1)) {
            Some((t, r)) => Some((seq![s[0]] + t, r)),
            None => None,
        }
    }
}

/// Collects the characters of a text into a vector.
fn str_chars(s: &str) -> (v: Vec<char>)
    ensures
        v@ == s@,
{
    let n: usize = s.unicode_len();
    let mut v: Vec<char> = Vec::new();
    let mut i: usize = 0;
    while i < n
        invariant
            n == s@.len(),
            i <= n,
            v@ == s@.take(i as int),
        decreases n - i,
    {
        v.push(s.get_char(i));
        proof {
            assert(s@.take(i as int + 1) =~= s@.take(i as int).push(s@[i as int]));
        }
        i = i + 1;
    }
    proof {
        assert(s@.take(n as int) =~= s@);
    }
    v
}

/// Position after the leading whitespace.
fn skip_ws_at(v: &Vec<char>, pos: usize) -> (p: usize)
    requires
        pos <= v@.len(),
    ensures
        pos <= p <= v@.len(),
        skip_ws(v@.skip(pos as int)) == v@.skip(p as int),
{
    let mut p: usize = pos;
    while p < v.len() && (v[p] == ' ' || v[p] == '\n' || v[p] == '\t' || v[p] == '\r')
        invariant
            pos <= p <= v@.len(),
            skip_ws(v@.skip(pos as int)) == skip_ws(v@.skip(p as int)),
        decreases v@.len() - p,
    {
        proof {
            assert(v@.skip(p as int)[0] == v@[p as int]);
            assert(v@.skip(p as int).skip(1) =~= v@.skip(p as int + 1));
        }
        p = p + 1;
    }
    proof {
        if p < v@.len() {
            assert(v@.skip(p as int)[0] == v@[p as int]);
        }
        assert(skip_ws(v@.skip(p as int)) == v@.skip(p as int));
    }
    p
}

/// Position after the given token, if the input continues with it.
fn expect_at(v: &Vec<char>, pos: usize, tok: &str) -> (r: Option<usize>)
    requires
        pos <= v@.len(),
    ensures
        match r {
            Some(p) => {
                &&& pos <= p <= v@.len()
                &&& p == pos + tok@.len()
                &&& expect(v@.skip(pos as int), tok@) == Some(v@.skip(p as int))
            },
            None => expect(v@.skip(pos as int), tok@) is None,
        },
{
    let n: usize = tok.unicode_len();
    let vlen: usize = v.len();
    if vlen - pos < n {
        return None;
    }
    let mut i: usize = 0;
    while i < n
        invariant
            n == tok@.len(),
            vlen == v@.len(),
            pos + n <= vlen,
            i <= n,
            forall|j: int| 0 <= j < i ==> v@.skip(pos as int)[j] == tok@[j],
        decreases n - i,
    {
        let c = v[pos + i];
        let t = tok.get_char(i);
        proof {
            assert(v@.skip(pos as int)[i as int] == v@[pos + i as int]);
        }
        if c != t {
            proof {
                let s = v@.skip(pos as int);
                if tok@.len() <= s.len() && s.take(tok@.len() as int) == tok@ {
                    assert(s.take(tok@.len() as int)[i as int] == s[i as int]);
                    assert(false);
                }
            }
            return None;
        }
        i = i + 1;
    }
    proof {
        let s = v@.skip(pos as int);
        assert(s.take(n as int) =~= tok@);
        assert(s.skip(n as int) =~= v@.skip(pos as int + n as int));
    }
    Some(pos + n)
}

/// The value of a hexadecimal digit character.
fn hex_val_at(c: char) -> (r: Option<u32>)
    ensures
        match r {
            Some(n) => n < 16 && hex_val(c) == Some(n as int),
            None => hex_val(c) is None,
        },
{
    if '0' <= c && c <= '9' {
        Some(c as u32 - '0' as u32)
    } else if 'a' <= c && c <= 'f' {
        Some(c as u32 - 'a' as u32 + 10)
    } else if 'A' <= c && c <= 'F' {
        Some(c as u32 - 'A' as u32 + 10)
    } else {
        None
    }
}

/// Relies on std's `char::from_u32`: for a code point below the surrogate
/// range it returns the character with that value.
#[verifier::external_body]
fn char_from_code(u: u32) -> (c: char)
    requires
        u < 0xD800,
    ensures
        c == (u as char),
{
    match char::from_u32(u) {
        Some(c) => c,
        None => ' ',
    }
}

/// The character a single-letter escape stands for.
fn unescape1_at(c: char) -> (r: Option<char>)
    ensures
        r == unescape1(c),
{
    if c == '"' {
        Some('"')
    } else if c == '\\' {
        Some('\\')
    } else if c == '/' {
        Some('/')
    } else if c == 'n' {
        Some('\n')
    } else if c == 't' {
        Some('\t')
    } else if c == 'r' {
        Some('\r')
    } else if c == 'b' {
        Some('\u{0008}')
    } else if c == 'f' {
        Some('\u{000c}')
    } else {
        None
    }
}

/// Parses a string-literal body starting at `pos`, the opening quote already
/// consumed: the decoded text and the position after the closing quote.
fn parse_jstring_at(v: &Vec<char>, pos: usize) -> (r: Option<(String, usize)>)
    requires
        pos <= v@.len(),
    ensures
        match r {
            Some(p) => {
                &&& pos <= p.1 <= v@.len()
                &&& parse_jstring(v@.skip(pos as int)) == Some((p.0@, v@.skip(p.1 as int)))
            },
            None => parse_jstring(v@.skip(pos as int)) is None,
        },
    decreases v@.len() - pos,
{
    let ghost s: Seq<char> = v@.skip(pos as int);
    if pos == v.len() {
        return None;
    }
    let c = v[pos];
    proof {
        assert(s[0] == v@[pos as int]);
        assert(s.skip(1) =~= v@.skip(pos as int + 1));
    }
    if c == '"' {
        let out = String::new();
        proof {
            assert(out@ =~= Seq::<char>::empty());
        }
        return Some((out, pos + 1));
    }
    if c == '\\' {
        if pos + 1 == v.len() {
            return None;
        }
        let e = v[pos + 1];
        proof {
            assert(s.len() >= 2);
            assert(s[1] == v@[pos as int + 1]);
            assert(s.skip(2) =~= v@.skip(pos as int + 2));
        }
        if e == 'u' {
            if v.len() - pos < 6 {
                return None;
            }
            proof {
                assert(s.len() >= 6);
                assert(s[2] == v@[pos as int + 2]);
                assert(s[3] == v@[pos as int + 3]);
                assert(s[4] == v@[pos as int + 4]);
                assert(s[5] == v@[pos as int + 5]);
                assert(s.skip(6) =~= v@.skip(pos as int + 6));
            }
            if !(v[pos + 2] == '0' && v[pos + 3] == '0') {
                return None;
            }
            let h1 = match hex_val_at(v[pos + 4]) {
                Some(h) => h,
                None => {
                    return None;
                },
            };
            let h2 = match hex_val_at(v[pos + 5]) {
                Some(h) => h,
                None => {
                    return None;
                },
            };
            let code: u32 = h1 * 16 + h2;
            let ch = char_from_code(code);
            match parse_jstring_at(v, pos + 6) {
                Some((t, p)) => {
                    let mut out = String::new();
                    push_char(&mut out,ch);
                    out.append(t.as_str());
                    proof {
                        assert(out@ =~= seq![ch] + t@);
                    }
                    return Some((out, p));
                },
                None => {
                    return None;
                },
            }
        }
        match unescape1_at(e) {
            Some(ch) => {
                match parse_jstring_at(v, pos + 2) {
                    Some((t, p)) => {
                        let mut out = String::new();
                        push_char(&mut out,ch);
                        out.append(t.as_str());
                        proof {
                            assert(out@ =~= seq![ch] + t@);
                        }
                        return Some((out, p));
                    },
                    None => {
                        return None;
                    },
                }
            },
            None => {
                return None;
            },
        }
    }
    if (c as u32) < 0x20 {
        return None;
    }
    match parse_jstring_at(v, pos + 1) {
        Some((t, p)) => {
            let mut out = String::new();
            push_char(&mut out,c);
            out.append(t.as_str());
            proof {
                assert(out@ =~= seq![c] + t@);
            }
            Some((out, p))
        },
        None => None,
    }
}

/// Skips whitespace, then expects the given token: the combinator every
/// grammar rule below chains.
pub open spec fn tok_after(r: Option<Seq<char>>, t: Seq<char>) -> Option<Seq<char>> {
    match r {
        Some(s) => expect(skip_ws(s), t),
        None => None,
    }
}

/// Parses a role name and its closing quote.
pub open spec fn parse_role(s: Seq<char>) -> Option<(GptRole, Seq<char>)> {
    if expect(s, "user\""@) is Some {
        Some((GptRole::User, expect(s, "user\""@).unwrap()))
    } else if expect(s, "assistant\""@) is Some {
        Some((GptRole::Assistant, expect(s, "assistant\""@).unwrap()))
    } else if expect(s, "system\""@) is Some {
        Some((GptRole::System, expect(s, "system\""@).unwrap()))
    } else {
        None
    }
}

/// A character that may stand in a JSON number.
pub open spec fn is_num_char(c: char) -> bool {
    ('0' <= c && c <= '9') || c == '-' || c == '+' || c == '.' || c == 'e' || c == 'E'
}

/// The input with a leading run of number characters removed.
pub open spec fn skip_number(s: Seq<char>) -> Seq<char>
    decreases s.len(),
{
    if s.len() > 0 && is_num_char(s[0]) {
        skip_number(s.skip(1))
    } else {
        s
    }
}

/// Skips one JSON value of any kind: a string, an object, an array, one of
/// the three keyword literals, or a number. This is what lets the reply
/// parsers pass over bookkeeping members they do not read.
pub open spec fn skip_value(s: Seq<char>) -> Option<Seq<char>>
    decreases s.len(), 0int,
{
    let s1 = skip_ws(s);
    if s1.len() == 0 {
        None
    } else if s1[0] == '"' {
        match parse_jstring(s1.skip(1)) {
            Some((_t, r)) => Some(r),
            None => None,
        }
    } else if s1[0] == '{' {
        if s1.skip(1).len() < s.len() {
            skip_members(s1.skip(1))
        } else {
            None
        }
    } else if s1[0] == '[' {
        if s1.skip(1).len() < s.len() {
            skip_elems(s1.skip(1))
        } else {
            None
        }
    } else if s1[0] == 't' {
        expect(s1, "true"@)
    } else if s1[0] == 'f' {
        expect(s1, "false"@)
    } else if s1[0] == 'n' {
        expect(s1, "null"@)
    } else if is_num_char(s1[0]) {
        Some(skip_number(s1))
    } else {
        None
    }
}

/// Skips the members of an object whose opening brace is already consumed.
pub open spec fn skip_members(s: Seq<char>) -> Option<Seq<char>>
    decreases s.len(), 1int,
{
    let s1 = skip_ws(s);
    if expect(s1, "}"@) is Some {
        Some(expect(s1, "}"@).unwrap())
    } else {
        match expect(s1, "\""@) {
            Some(sk) => match parse_jstring(sk) {
                Some((_key, s2)) => match tok_after(Some(s2), ":"@) {
                    Some(s3) => if s3.len() <= s.len() {
                        match skip_value(s3) {
                            Some(s5) => {
                                let s6 = skip_ws(s5);
                                if expect(s6, "}"@) is Some {
                                    Some(expect(s6, "}"@).unwrap())
                                } else {
                                    match expect(s6, ","@) {
                                        Some(s7) => if s7.len() < s.len() {
                                            skip_members(s7)
                                        } else {
                                            None
                                        },
                                        None => None,
                                    }
                                }
                            },
                            None => None,
                        }
                    } else {
                        None
                    },
                    None => None,
                },
                None => None,
            },
            None => None,
        }
    }
}

/// Skips the elements of an array whose opening bracket is already consumed.
pub open spec fn skip_elems(s: Seq<char>) -> Option<Seq<char>>
    decreases s.len(), 1int,
{
    let s1 = skip_ws(s);
    if expect(s1, "]"@) is Some {
        Some(expect(s1, "]"@).unwrap())
    } else {
        match skip_value(s) {
            Some(s2) => {
                let s3 = skip_ws(s2);
                if expect(s3, "]"@) is Some {
                    Some(expect(s3, "]"@).unwrap())
                } else {
                    match expect(s3, ","@) {
                        Some(s4) => if s4.len() < s.len() {
                            skip_elems(s4)
                        } else {
                            None
                        },
                        None => None,
                    }
                }
            },
            None => None,
        }
    }
}

/// Walks the members of a message object whose opening brace is already
/// consumed: `"role"` and `"content"` may come in either order, a member
/// named anything else is skipped, and a repeated named member is rejected.
/// Both named members must be present by the closing brace.
pub open spec fn parse_message_members(
    s: Seq<char>,
    r0: Option<GptRole>,
    c0: Option<Seq<char>>,
) -> Option<(MessageView, Seq<char>)>
    decreases s.len(),
{
    match tok_after(Some(s), "\""@) {
        Some(s1) => match parse_jstring(s1) {
            Some((key, s2)) => match tok_after(Some(s2), ":"@) {
                Some(s3) => {
                    let sv = skip_ws(s3);
                    let stepped: Option<(Option<GptRole>, Option<Seq<char>>, Seq<char>)> = if key
                        == "role"@ {
                        if r0 is Some {
                            None
                        } else {
                            match expect(sv, "\""@) {
                                Some(s4) => match parse_role(s4) {
                                    Some((role, s5)) => Some((Some(role), c0, s5)),
                                    None => None,
                                },
                                None => None,
                            }
                        }
                    } else if key == "content"@ {
                        if c0 is Some {
                            None
                        } else {
                            match expect(sv, "\""@) {
                                Some(s4) => match parse_jstring(s4) {
                                    Some((content, s5)) => Some((r0, Some(content), s5)),
                                    None => None,
                                },
                                None => None,
                            }
                        }
                    } else {
                        match skip_value(s3) {
                            Some(s5) => Some((r0, c0, s5)),
                            None => None,
                        }
                    };
                    match stepped {
                        Some((r1, c1, s5)) => {
                            let s6 = skip_ws(s5);
                            if expect(s6, "}"@) is Some {
                                if r1 is Some && c1 is Some {
                                    Some(
                                        (
                                            MessageView {
                                                role: r1.unwrap(),
                                                content: c1.unwrap(),
                                            },
                                            expect(s6, "}"@).unwrap(),
                                        ),
                                    )
                                } else {
                                    None
                                }
                            } else {
                                match expect(s6, ","@) {
                                    Some(s7) => if s7.len() < s.len() {
                                        parse_message_members(s7, r1, c1)
                                    } else {
                                        None
                                    },
                                    None => None,
                                }
                            }
                        },
                        None => None,
                    }
                },
                None => None,
            },
            None => None,
        },
        None => None,
    }
}

/// Parses one message object: `"role"` and `"content"` members in either
/// order, unknown members skipped, whitespace allowed between tokens.
pub open spec fn parse_message(s: Seq<char>) -> Option<(MessageView, Seq<char>)> {
    match tok_after(Some(s), "{"@) {
        Some(s1) => parse_message_members(s1, None, None),
        None => None,
    }
}

/// Walks the members of a choice object whose opening brace is already
/// consumed: the `"message"` member is parsed, any other member (an index, a
/// finish reason) is skipped, a repeated `"message"` is rejected, and one
/// must be present by the closing brace.
pub open spec fn parse_choice_members(
    s: Seq<char>,
    m0: Option<MessageView>,
) -> Option<(MessageView, Seq<char>)>
    decreases s.len(),
{
    match tok_after(Some(s), "\""@) {
        Some(s1) => match parse_jstring(s1) {
            Some((key, s2)) => match tok_after(Some(s2), ":"@) {
                Some(s3) => {
                    let stepped: Option<(Option<MessageView>, Seq<char>)> = if key
                        == "message"@ {
                        if m0 is Some {
                            None
                        } else {
                            match parse_message(s3) {
                                Some((m, s5)) => Some((Some(m), s5)),
                                None => None,
                            }
                        }
                    } else {
                        match skip_value(s3) {
                            Some(s5) => Some((m0, s5)),
                            None => None,
                        }
                    };
                    match stepped {
                        Some((m1, s5)) => {
                            let s6 = skip_ws(s5);
                            if expect(s6, "}"@) is Some {
                                if m1 is Some {
                                    Some((m1.unwrap(), expect(s6, "}"@).unwrap()))
                                } else {
                                    None
                                }
                            } else {
                                match expect(s6, ","@) {
                                    Some(s7) => if s7.len() < s.len() {
                                        parse_choice_members(s7, m1)
                                    } else {
                                        None
                                    },
                                    None => None,
                                }
                            }
                        },
                        None => None,
                    }
                },
                None => None,
            },
            None => None,
        },
        None => None,
    }
}

/// Parses one choice object: its `"message"` member, other members skipped.
pub open spec fn parse_choice(s: Seq<char>) -> Option<(MessageView, Seq<char>)> {
    match tok_after(Some(s), "{"@) {
        Some(s1) => parse_choice_members(s1, None),
        None => None,
    }
}

/// Parses the rest of a choice list after one choice: either the closing
/// bracket, or a comma and a further choice, repeated.
pub open spec fn parse_choices_tail(s: Seq<char>) -> Option<(Seq<MessageView>, Seq<char>)>
    decreases s.len(),
{
    if expect(skip_ws(s), "]"@) is Some {
        Some((Seq::empty(), expect(skip_ws(s), "]"@).unwrap()))
    } else {
        match expect(skip_ws(s), ","@) {
            Some(s1) => match parse_choice(s1) {
                Some((m, s2)) => if s2.len() < s.len() {
                    match parse_choices_tail(s2) {
                        Some((ms, s3)) => Some((seq![m] + ms, s3)),
                        None => None,
                    }
                } else {
                    None
                },
                None => None,
            },
            None => None,
        }
    }
}

/// Parses a whole choice list, the opening bracket included: the messages of
/// the choices, in order.
pub open spec fn parse_choices_array(s: Seq<char>) -> Option<(Seq<MessageView>, Seq<char>)> {
    match tok_after(Some(s), "["@) {
        Some(s1) => {
            if expect(skip_ws(s1), "]"@) is Some {
                Some((Seq::empty(), expect(skip_ws(s1), "]"@).unwrap()))
            } else {
                match parse_choice(s1) {
                    Some((m, s2)) => match parse_choices_tail(s2) {
                        Some((ms, s3)) => Some((seq![m] + ms, s3)),
                        None => None,
                    },
                    None => None,
                }
            }
        },
        None => None,
    }
}

/// Walks the members of a reply object whose opening brace is already
/// consumed: the `"choices"` member is parsed, any other member (an id, a
/// model name, usage counters) is skipped, a repeated `"choices"` is
/// rejected, and one must be present by the closing brace.
pub open spec fn parse_response_members(
    s: Seq<char>,
    ch0: Option<Seq<MessageView>>,
) -> Option<(Seq<MessageView>, Seq<char>)>
    decreases s.len(),
{
    match tok_after(Some(s), "\""@) {
        Some(s1) => match parse_jstring(s1) {
            Some((key, s2)) => match tok_after(Some(s2), ":"@) {
                Some(s3) => {
                    let stepped: Option<(Option<Seq<MessageView>>, Seq<char>)> = if key
                        == "choices"@ {
                        if ch0 is Some {
                            None
                        } else {
                            match parse_choices_array(s3) {
                                Some((ms, s5)) => Some((Some(ms), s5)),
                                None => None,
                            }
                        }
                    } else {
                        match skip_value(s3) {
                            Some(s5) => Some((ch0, s5)),
                            None => None,
                        }
                    };
                    match stepped {
                        Some((ch1, s5)) => {
                            let s6 = skip_ws(s5);
                            if expect(s6, "}"@) is Some {
                                if ch1 is Some {
                                    Some((ch1.unwrap(), expect(s6, "}"@).unwrap()))
                                } else {
                                    None
                                }
                            } else {
                                match expect(s6, ","@) {
                                    Some(s7) => if s7.len() < s.len() {
                                        parse_response_members(s7, ch1)
                                    } else {
                                        None
                                    },
                                    None => None,
                                }
                            }
                        },
                        None => None,
                    }
                },
                None => None,
            },
            None => None,
        },
        None => None,
    }
}

/// Parses a whole reply body: an object holding a `"choices"` list of choice
/// objects, bookkeeping members skipped, with nothing but whitespace after
/// it. Yields the messages of the choices, in order.
pub open spec fn parse_response(s: Seq<char>) -> Option<Seq<MessageView>> {
    match tok_after(Some(s), "{"@) {
        Some(s1) => match parse_response_members(s1, None) {
            Some((ms, rest)) => if skip_ws(rest).len() == 0 {
                Some(ms)
            } else {
                None
            },
            None => None,
        },
        None => None,
    }
}

/// Parses a message object standing alone as a whole document.
pub open spec fn parse_message_doc(s: Seq<char>) -> Option<MessageView> {
    match parse_message(s) {
        Some((m, r)) => if skip_ws(r).len() == 0 {
            Some(m)
        } else {
            None
        },
        None => None,
    }
}

/// Parses a role name and its closing quote at `pos`.
fn parse_role_at(v: &Vec<char>, pos: usize) -> (r: Option<(GptRole, usize)>)
    requires
        pos <= v@.len(),
    ensures
        match r {
            Some(p) => {
                &&& pos <= p.1 <= v@.len()
                &&& parse_role(v@.skip(pos as int)) == Some((p.0, v@.skip(p.1 as int)))
            },
            None => parse_role(v@.skip(pos as int)) is None,
        },
{
    match expect_at(v, pos, "user\"") {
        Some(p) => {
            return Some((GptRole::User, p));
        },
        None => {},
    }
    match expect_at(v, pos, "assistant\"") {
        Some(p) => {
            return Some((GptRole::Assistant, p));
        },
        None => {},
    }
    match expect_at(v, pos, "system\"") {
        Some(p) => {
            return Some((GptRole::System, p));
        },
        None => {},
    }
    None
}

/// Skips whitespace and expects the given token at `pos`.
fn tok_at(v: &Vec<char>, pos: usize, t: &str) -> (r: Option<usize>)
    requires
        pos <= v@.len(),
    ensures
        match r {
            Some(p) => {
                &&& pos <= p <= v@.len()
                &&& p >= pos + t@.len()
                &&& tok_after(Some(v@.skip(pos as int)), t@) == Some(v@.skip(p as int))
            },
            None => tok_after(Some(v@.skip(pos as int)), t@) is None,
        },
{
    let pw = skip_ws_at(v, pos);
    expect_at(v, pw, t)
}

/// Position after a leading run of number characters.
fn skip_number_at(v: &Vec<char>, pos: usize) -> (p: usize)
    requires
        pos <= v@.len(),
    ensures
        pos <= p <= v@.len(),
        skip_number(v@.skip(pos as int)) == v@.skip(p as int),
{
    let mut p: usize = pos;
    while p < v.len() && (('0' <= v[p] && v[p] <= '9') || v[p] == '-' || v[p] == '+' || v[p] == '.'
        || v[p] == 'e' || v[p] == 'E')
        invariant
            pos <= p <= v@.len(),
            skip_number(v@.skip(pos as int)) == skip_number(v@.skip(p as int)),
        decreases v@.len() - p,
    {
        proof {
            assert(v@.skip(p as int)[0] == v@[p as int]);
            assert(v@.skip(p as int).skip(1) =~= v@.skip(p as int + 1));
        }
        p = p + 1;
    }
    proof {
        if p < v@.len() {
            assert(v@.skip(p as int)[0] == v@[p as int]);
        }
        assert(skip_number(v@.skip(p as int)) == v@.skip(p as int));
    }
    p
}

/// Position after one skipped JSON value starting at `pos`.
fn skip_value_at(v: &Vec<char>, pos: usize) -> (r: Option<usize>)
    requires
        pos <= v@.len(),
    ensures
        match r {
            Some(p) => {
                &&& pos <= p <= v@.len()
                &&& skip_value(v@.skip(pos as int)) == Some(v@.skip(p as int))
            },
            None => skip_value(v@.skip(pos as int)) is None,
        },
    decreases v@.len() - pos, 0int,
{
    let ghost s: Seq<char> = v@.skip(pos as int);
    let p1 = skip_ws_at(v, pos);
    let ghost s1: Seq<char> = v@.skip(p1 as int);
    if p1 == v.len() {
        return None;
    }
    let c = v[p1];
    proof {
        assert(s1[0] == v@[p1 as int]);
        assert(s1.skip(1) =~= v@.skip(p1 as int + 1));
    }
    if c == '"' {
        match parse_jstring_at(v, p1 + 1) {
            Some(t) => Some(t.1),
            None => None,
        }
    } else if c == '{' {
        proof {
            assert(s1.skip(1).len() < s.len());
        }
        skip_members_at(v, p1 + 1)
    } else if c == '[' {
        proof {
            assert(s1.skip(1).len() < s.len());
        }
        skip_elems_at(v, p1 + 1)
    } else if c == 't' {
        match expect_at(v, p1, "true") {
            Some(p) => Some(p),
            None => None,
        }
    } else if c == 'f' {
        match expect_at(v, p1, "false") {
            Some(p) => Some(p),
            None => None,
        }
    } else if c == 'n' {
        match expect_at(v, p1, "null") {
            Some(p) => Some(p),
            None => None,
        }
    } else if ('0' <= c && c <= '9') || c == '-' || c == '+' || c == '.' || c == 'e' || c == 'E' {
        Some(skip_number_at(v, p1))
    } else {
        None
    }
}

/// Position after the skipped members of an object whose opening brace is
/// already consumed.
fn skip_members_at(v: &Vec<char>, pos: usize) -> (r: Option<usize>)
    requires
        pos <= v@.len(),
    ensures
        match r {
            Some(p) => {
                &&& pos <= p <= v@.len()
                &&& skip_members(v@.skip(pos as int)) == Some(v@.skip(p as int))
            },
            None => skip_members(v@.skip(pos as int)) is None,
        },
    decreases v@.len() - pos, 1int,
{
    let p1 = skip_ws_at(v, pos);
    match expect_at(v, p1, "}") {
        Some(p) => {
            return Some(p);
        },
        None => {},
    }
    let p2 = match expect_at(v, p1, "\"") {
        Some(p) => p,
        None => {
            return None;
        },
    };
    let key_end = match parse_jstring_at(v, p2) {
        Some(t) => t.1,
        None => {
            return None;
        },
    };
    let p4 = match tok_at(v, key_end, ":") {
        Some(p) => p,
        None => {
            return None;
        },
    };
    let p5 = match skip_value_at(v, p4) {
        Some(p) => p,
        None => {
            return None;
        },
    };
    let p6 = skip_ws_at(v, p5);
    match expect_at(v, p6, "}") {
        Some(p) => {
            return Some(p);
        },
        None => {},
    }
    let p7 = match expect_at(v, p6, ",") {
        Some(p) => p,
        None => {
            return None;
        },
    };
    proof {
        reveal_strlit("\"");
        reveal_strlit(",");
        assert(p2 == p1 + 1);
        assert(p7 == p6 + 1);
        assert(v@.skip(p7 as int).len() < v@.skip(pos as int).len());
    }
    skip_members_at(v, p7)
}

/// Position after the skipped elements of an array whose opening bracket is
/// already consumed.
fn skip_elems_at(v: &Vec<char>, pos: usize) -> (r: Option<usize>)
    requires
        pos <= v@.len(),
    ensures
        match r {
            Some(p) => {
                &&& pos <= p <= v@.len()
                &&& skip_elems(v@.skip(pos as int)) == Some(v@.skip(p as int))
            },
            None => skip_elems(v@.skip(pos as int)) is None,
        },
    decreases v@.len() - pos, 1int,
{
    let p1 = skip_ws_at(v, pos);
    match expect_at(v, p1, "]") {
        Some(p) => {
            return Some(p);
        },
        None => {},
    }
    let p2 = match skip_value_at(v, pos) {
        Some(p) => p,
        None => {
            return None;
        },
    };
    let p3 = skip_ws_at(v, p2);
    match expect_at(v, p3, "]") {
        Some(p) => {
            return Some(p);
        },
        None => {},
    }
    let p4 = match expect_at(v, p3, ",") {
        Some(p) => p,
        None => {
            return None;
        },
    };
    proof {
        reveal_strlit(",");
        assert(p4 == p3 + 1);
        assert(v@.skip(p4 as int).len() < v@.skip(pos as int).len());
    }
    skip_elems_at(v, p4)
}

/// Whether two texts hold the same characters.
fn str_is(a: &str, b: &str) -> (r: bool)
    ensures
        r == (a@ == b@),
{
    let la: usize = a.unicode_len();
    let lb: usize = b.unicode_len();
    if la != lb {
        return false;
    }
    let mut i: usize = 0;
    while i < la
        invariant
            la == a@.len(),
            lb == b@.len(),
            la == lb,
            i <= la,
            forall|j: int| 0 <= j < i ==> a@[j] == b@[j],
        decreases la - i,
    {
        if a.get_char(i) != b.get_char(i) {
            return false;
        }
        i = i + 1;
    }
    proof {
        assert(a@ =~= b@);
    }
    true
}

/// The character sequence an optional content argument stands for.
pub open spec fn opt_content_view(c: Option<String>) -> Option<Seq<char>> {
    match c {
        Some(s) => Some(s@),
        None => None,
    }
}

/// The value an optional message argument stands for.
pub open spec fn opt_msg_view(m: Option<GptMessage>) -> Option<MessageView> {
    match m {
        Some(x) => Some(x@),
        None => None,
    }
}

/// The values an optional message list argument stands for.
pub open spec fn opt_msgs_view(ms: Option<Vec<GptMessage>>) -> Option<Seq<MessageView>> {
    match ms {
        Some(u) => Some(u@.map_values(|m: GptMessage| m@)),
        None => None,
    }
}

/// Walks the members of a message object at `pos`, the opening brace already
/// consumed.
fn parse_message_members_at(
    v: &Vec<char>,
    pos: usize,
    r0: Option<GptRole>,
    c0: Option<String>,
) -> (r: Option<(GptMessage, usize)>)
    requires
        pos <= v@.len(),
    ensures
        match r {
            Some(p) => {
                &&& pos <= p.1 <= v@.len()
                &&& parse_message_members(v@.skip(pos as int), r0, opt_content_view(c0)) == Some(
                    (p.0@, v@.skip(p.1 as int)),
                )
            },
            None => parse_message_members(v@.skip(pos as int), r0, opt_content_view(c0)) is None,
        },
    decreases v@.len() - pos,
{
    let p1 = match tok_at(v, pos, "\"") {
        Some(p) => p,
        None => {
            return None;
        },
    };
    let (key, p2) = match parse_jstring_at(v, p1) {
        Some(t) => t,
        None => {
            return None;
        },
    };
    let p3 = match tok_at(v, p2, ":") {
        Some(p) => p,
        None => {
            return None;
        },
    };
    let pv = skip_ws_at(v, p3);
    let stepped: Option<(Option<GptRole>, Option<String>, usize)> = if str_is(
        key.as_str(),
        "role",
    ) {
        if r0.is_some() {
            None
        } else {
            match expect_at(v, pv, "\"") {
                Some(p4) => match parse_role_at(v, p4) {
                    Some((role, p5)) => Some((Some(role), c0, p5)),
                    None => None,
                },
                None => None,
            }
        }
    } else if str_is(key.as_str(), "content") {
        if c0.is_some() {
            None
        } else {
            match expect_at(v, pv, "\"") {
                Some(p4) => match parse_jstring_at(v, p4) {
                    Some((content, p5)) => Some((r0, Some(content), p5)),
                    None => None,
                },
                None => None,
            }
        }
    } else {
        match skip_value_at(v, p3) {
            Some(p5) => Some((r0, c0, p5)),
            None => None,
        }
    };
    let (r1, c1, p5) = match stepped {
        Some(t) => t,
        None => {
            return None;
        },
    };
    let p6 = skip_ws_at(v, p5);
    match expect_at(v, p6, "}") {
        Some(p7) => {
            let role = match r1 {
                Some(role) => role,
                None => {
                    return None;
                },
            };
            let content = match c1 {
                Some(content) => content,
                None => {
                    return None;
                },
            };
            return Some((GptMessage { role, content }, p7));
        },
        None => {},
    }
    let p7 = match expect_at(v, p6, ",") {
        Some(p) => p,
        None => {
            return None;
        },
    };
    proof {
        reveal_strlit("\"");
        reveal_strlit(",");
        assert(p1 >= pos + 1);
        assert(p7 == p6 + 1);
        assert(v@.skip(p7 as int).len() < v@.skip(pos as int).len());
    }
    parse_message_members_at(v, p7, r1, c1)
}

/// Parses one message object at `pos`.
fn parse_message_at(v: &Vec<char>, pos: usize) -> (r: Option<(GptMessage, usize)>)
    requires
        pos <= v@.len(),
    ensures
        match r {
            Some(p) => {
                &&& pos <= p.1 <= v@.len()
                &&& parse_message(v@.skip(pos as int)) == Some((p.0@, v@.skip(p.1 as int)))
            },
            None => parse_message(v@.skip(pos as int)) is None,
        },
{
    let p1 = match tok_at(v, pos, "{") {
        Some(p) => p,
        None => {
            return None;
        },
    };
    parse_message_members_at(v, p1, None, None)
}

/// Walks the members of a choice object at `pos`, the opening brace already
/// consumed.
fn parse_choice_members_at(v: &Vec<char>, pos: usize, m0: Option<GptMessage>) -> (r: Option<
    (GptMessage, usize),
>)
    requires
        pos <= v@.len(),
    ensures
        match r {
            Some(p) => {
                &&& pos <= p.1 <= v@.len()
                &&& parse_choice_members(v@.skip(pos as int), opt_msg_view(m0)) == Some(
                    (p.0@, v@.skip(p.1 as int)),
                )
            },
            None => parse_choice_members(v@.skip(pos as int), opt_msg_view(m0)) is None,
        },
    decreases v@.len() - pos,
{
    let p1 = match tok_at(v, pos, "\"") {
        Some(p) => p,
        None => {
            return None;
        },
    };
    let (key, p2) = match parse_jstring_at(v, p1) {
        Some(t) => t,
        None => {
            return None;
        },
    };
    let p3 = match tok_at(v, p2, ":") {
        Some(p) => p,
        None => {
            return None;
        },
    };
    let stepped: Option<(Option<GptMessage>, usize)> = if str_is(key.as_str(), "message") {
        if m0.is_some() {
            None
        } else {
            match parse_message_at(v, p3) {
                Some((m, p5)) => Some((Some(m), p5)),
                None => None,
            }
        }
    } else {
        match skip_value_at(v, p3) {
            Some(p5) => Some((m0, p5)),
            None => None,
        }
    };
    let (m1, p5) = match stepped {
        Some(t) => t,
        None => {
            return None;
        },
    };
    let p6 = skip_ws_at(v, p5);
    match expect_at(v, p6, "}") {
        Some(p7) => {
            let m = match m1 {
                Some(m) => m,
                None => {
                    return None;
                },
            };
            return Some((m, p7));
        },
        None => {},
    }
    let p7 = match expect_at(v, p6, ",") {
        Some(p) => p,
        None => {
            return None;
        },
    };
    proof {
        reveal_strlit("\"");
        reveal_strlit(",");
        assert(p1 >= pos + 1);
        assert(p7 == p6 + 1);
        assert(v@.skip(p7 as int).len() < v@.skip(pos as int).len());
    }
    parse_choice_members_at(v, p7, m1)
}

/// Parses one choice object at `pos`.
fn parse_choice_at(v: &Vec<char>, pos: usize) -> (r: Option<(GptMessage, usize)>)
    requires
        pos <= v@.len(),
    ensures
        match r {
            Some(p) => {
                &&& pos <= p.1 <= v@.len()
                &&& parse_choice(v@.skip(pos as int)) == Some((p.0@, v@.skip(p.1 as int)))
            },
            None => parse_choice(v@.skip(pos as int)) is None,
        },
{
    let p1 = match tok_at(v, pos, "{") {
        Some(p) => p,
        None => {
            return None;
        },
    };
    parse_choice_members_at(v, p1, None)
}

/// Parses the rest of the choice list at `pos`, after one parsed choice.
fn parse_choices_tail_at(v: &Vec<char>, pos: usize) -> (r: Option<(Vec<GptMessage>, usize)>)
    requires
        pos <= v@.len(),
    ensures
        match r {
            Some(p) => {
                &&& pos <= p.1 <= v@.len()
                &&& parse_choices_tail(v@.skip(pos as int)) == Some(
                    (p.0@.map_values(|m: GptMessage| m@), v@.skip(p.1 as int)),
                )
            },
            None => parse_choices_tail(v@.skip(pos as int)) is None,
        },
    decreases v@.len() - pos,
{
    let pw = skip_ws_at(v, pos);
    match expect_at(v, pw, "]") {
        Some(p) => {
            let out: Vec<GptMessage> = Vec::new();
            proof {
                assert(out@.map_values(|m: GptMessage| m@) =~= Seq::<MessageView>::empty());
            }
            return Some((out, p));
        },
        None => {},
    }
    let p1 = match expect_at(v, pw, ",") {
        Some(p) => p,
        None => {
            return None;
        },
    };
    let (m, p2) = match parse_choice_at(v, p1) {
        Some(p) => p,
        None => {
            return None;
        },
    };
    proof {
        reveal_strlit(",");
        assert(p1 == pw + 1);
        assert(v@.skip(p2 as int).len() < v@.skip(pos as int).len());
    }
    match parse_choices_tail_at(v, p2) {
        Some((ms, p3)) => {
            let mut out: Vec<GptMessage> = Vec::new();
            out.push(m);
            let mut rest = ms;
            out.append(&mut rest);
            proof {
                assert(out@.map_values(|x: GptMessage| x@) =~= seq![m@] + ms@.map_values(
                    |x: GptMessage| x@,
                ));
            }
            Some((out, p3))
        },
        None => None,
    }
}

/// Parses a whole choice list at `pos`, the opening bracket included.
fn parse_choices_array_at(v: &Vec<char>, pos: usize) -> (r: Option<(Vec<GptMessage>, usize)>)
    requires
        pos <= v@.len(),
    ensures
        match r {
            Some(p) => {
                &&& pos <= p.1 <= v@.len()
                &&& parse_choices_array(v@.skip(pos as int)) == Some(
                    (p.0@.map_values(|m: GptMessage| m@), v@.skip(p.1 as int)),
                )
            },
            None => parse_choices_array(v@.skip(pos as int)) is None,
        },
{
    let p1 = match tok_at(v, pos, "[") {
        Some(p) => p,
        None => {
            return None;
        },
    };
    let pw = skip_ws_at(v, p1);
    match expect_at(v, pw, "]") {
        Some(p) => {
            let out: Vec<GptMessage> = Vec::new();
            proof {
                assert(out@.map_values(|m: GptMessage| m@) =~= Seq::<MessageView>::empty());
            }
            return Some((out, p));
        },
        None => {},
    }
    let (m, p2) = match parse_choice_at(v, p1) {
        Some(t) => t,
        None => {
            return None;
        },
    };
    let (ms, p3) = match parse_choices_tail_at(v, p2) {
        Some(t) => t,
        None => {
            return None;
        },
    };
    let mut out: Vec<GptMessage> = Vec::new();
    out.push(m);
    let mut rest = ms;
    out.append(&mut rest);
    proof {
        assert(out@.map_values(|x: GptMessage| x@) =~= seq![m@] + ms@.map_values(
            |x: GptMessage| x@,
        ));
    }
    Some((out, p3))
}

/// Walks the members of a reply object at `pos`, the opening brace already
/// consumed.
fn parse_response_members_at(v: &Vec<char>, pos: usize, ch0: Option<Vec<GptMessage>>) -> (r:
    Option<(Vec<GptMessage>, usize)>)
    requires
        pos <= v@.len(),
    ensures
        match r {
            Some(p) => {
                &&& pos <= p.1 <= v@.len()
                &&& parse_response_members(v@.skip(pos as int), opt_msgs_view(ch0)) == Some(
                    (p.0@.map_values(|m: GptMessage| m@), v@.skip(p.1 as int)),
                )
            },
            None => parse_response_members(v@.skip(pos as int), opt_msgs_view(ch0)) is None,
        },
    decreases v@.len() - pos,
{
    let p1 = match tok_at(v, pos, "\"") {
        Some(p) => p,
        None => {
            return None;
        },
    };
    let (key, p2) = match parse_jstring_at(v, p1) {
        Some(t) => t,
        None => {
            return None;
        },
    };
    let p3 = match tok_at(v, p2, ":") {
        Some(p) => p,
        None => {
            return None;
        },
    };
    let stepped: Option<(Option<Vec<GptMessage>>, usize)> = if str_is(key.as_str(), "choices") {
        if ch0.is_some() {
            None
        } else {
            match parse_choices_array_at(v, p3) {
                Some((ms, p5)) => Some((Some(ms), p5)),
                None => None,
            }
        }
    } else {
        match skip_value_at(v, p3) {
            Some(p5) => Some((ch0, p5)),
            None => None,
        }
    };
    let (ch1, p5) = match stepped {
        Some(t) => t,
        None => {
            return None;
        },
    };
    let p6 = skip_ws_at(v, p5);
    match expect_at(v, p6, "}") {
        Some(p7) => {
            let ms = match ch1 {
                Some(ms) => ms,
                None => {
                    return None;
                },
            };
            return Some((ms, p7));
        },
        None => {},
    }
    let p7 = match expect_at(v, p6, ",") {
        Some(p) => p,
        None => {
            return None;
        },
    };
    proof {
        reveal_strlit("\"");
        reveal_strlit(",");
        assert(p1 >= pos + 1);
        assert(p7 == p6 + 1);
        assert(v@.skip(p7 as int).len() < v@.skip(pos as int).len());
    }
    parse_response_members_at(v, p7, ch1)
}

/// Parses a whole reply body: the messages of its choices, in order, or
/// nothing if the text is not of the reply shape.
pub fn parse_response_body(body: &str) -> (r: Option<Vec<GptMessage>>)
    ensures
        match r {
            Some(ms) => parse_response(body@) == Some(ms@.map_values(|m: GptMessage| m@)),
            None => parse_response(body@) is None,
        },
{
    let v = str_chars(body);
    proof {
        assert(v@.skip(0) =~= body@);
    }
    let p1 = match tok_at(&v, 0, "{") {
        Some(p) => p,
        None => {
            return None;
        },
    };
    let (ms, p2) = match parse_response_members_at(&v, p1, None) {
        Some(t) => t,
        None => {
            return None;
        },
    };
    let pe = skip_ws_at(&v, p2);
    if pe < v.len() {
        return None;
    }
    proof {
        assert(v@.skip(pe as int).len() == 0);
    }
    Some(ms)
}

/// Parses a message object standing alone as a whole document: the decoding
/// half of the wire round trip.
pub fn decode_message(s: &str) -> (r: Option<GptMessage>)
    ensures
        match r {
            Some(m) => parse_message_doc(s@) == Some(m@),
            None => parse_message_doc(s@) is None,
        },
{
    let v = str_chars(s);
    proof {
        assert(v@.skip(0) =~= s@);
    }
    let (m, p) = match parse_message_at(&v, 0) {
        Some(p) => p,
        None => {
            return None;
        },
    };
    let pe = skip_ws_at(&v, p);
    if pe < v.len() {
        return None;
    }
    proof {
        assert(v@.skip(pe as int).len() == 0);
    }
    Some(m)
}

} // verus!
