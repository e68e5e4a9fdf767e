//! The request body: the query text as a JSON document.
//!
//! The body is the object `{"query":"..."}` whose one member holds the query
//! text as a JSON string, every character escaped that JSON asks to be.

use vstd::prelude::*;
use vstd::string::*;
use crate::text::{chars_of, hex_digit, hex_digit_text};

verus! {

/// How one character stands inside a JSON string: the quotation mark and the
/// reverse solidus behind a reverse solidus; backspace, form feed, line
/// feed, carriage return and tab by their short escapes; any other control
/// character below U+0020 as `\u00` and two hexadecimal digits; every other
/// character as itself.
pub open spec fn escape_char(c: char) -> Seq<char> {
    let u = c as u32;
    if c == '"' {
        seq!['\\', '"']
    } else if c == '\\' {
        seq!['\\', '\\']
    } else if u == 0x08 {
        seq!['\\', 'b']
    } else if u == 0x0c {
        seq!['\\', 'f']
    } else if c == '\n' {
        seq!['\\', 'n']
    } else if c == '\r' {
        seq!['\\', 'r']
    } else if c == '\t' {
        seq!['\\', 't']
    } else if u < 0x20 {
        seq!['\\', 'u', '0', '0', hex_digit(u as int / 16), hex_digit(u as int % 16)]
    } else {
        seq![c]
    }
}

/// The characters of `s`, each escaped, one after the other.
pub open spec fn escape(s: Seq<char>) -> Seq<char>
    decreases s.len(),
{
    if s.len() == 0 {
        Seq::empty()
    } else {
        escape(s.drop_last()) + escape_char(s.last())
    }
}

/// `s` as a JSON string: escaped, between quotation marks.
pub open spec fn json_string(s: Seq<char>) -> Seq<char> {
    seq!['"'] + escape(s) + seq!['"']
}

/// The body of the request that carries `query`.
pub open spec fn request_body(query: Seq<char>) -> Seq<char> {
    seq!['{', '"', 'q', 'u', 'e', 'r', 'y', '"', ':'] + json_string(query) + seq!['}']
}

/// Appends to `out` the escaped form of the character of `text` at `at`.
fn push_escaped(out: &mut String, text: &str, chars: &Vec<char>, at: usize)
    requires
        chars@ == text@,
        at < chars.len(),
    ensures
        final(out)@ == old(out)@ + escape_char(chars@[at as int]),
{
    let c = chars[at];
    let u: u32 = c as u32;
    proof {
        reveal_strlit("\\\"");
        reveal_strlit("\\\\");
        reveal_strlit("\\b");
        reveal_strlit("\\f");
        reveal_strlit("\\n");
        reveal_strlit("\\r");
        reveal_strlit("\\t");
        reveal_strlit("\\u00");
    }
    if c == '"' {
        out.append("\\\"");
        assert(out@ =~= old(out)@ + escape_char(c));
    } else if c == '\\' {
        out.append("\\\\");
        assert(out@ =~= old(out)@ + escape_char(c));
    } else if u == 0x08 {
        out.append("\\b");
        assert(out@ =~= old(out)@ + escape_char(c));
    } else if u == 0x0c {
        out.append("\\f");
        assert(out@ =~= old(out)@ + escape_char(c));
    } else if c == '\n' {
        out.append("\\n");
        assert(out@ =~= old(out)@ + escape_char(c));
    } else if c == '\r' {
        out.append("\\r");
        assert(out@ =~= old(out)@ + escape_char(c));
    } else if c == '\t' {
        out.append("\\t");
        assert(out@ =~= old(out)@ + escape_char(c));
    } else if u < 0x20 {
        out.append("\\u00");
        out.append(hex_digit_text(u / 16));
        out.append(hex_digit_text(u % 16));
        assert(out@ =~= old(out)@ + escape_char(c));
    } else {
        out.append(text.substring_char(at, at + 1));
        assert(out@ =~= old(out)@ + escape_char(c));
    }
}

/// Encodes `query` as the body of a request.
pub fn encode_request_body(query: &str) -> (body: String)
    ensures
        body@ == request_body(query@),
{
    let chars = chars_of(query);
    let mut body = String::from_str("{\"query\":\"");
    proof {
        reveal_strlit("{\"query\":\"");
        reveal_strlit("\"}");
    }
    let ghost head = body@;
    assert(head =~= seq!['{', '"', 'q', 'u', 'e', 'r', 'y', '"', ':'] + seq!['"']);
    let mut i: usize = 0;
    while i < chars.len()
        invariant
            chars@ == query@,
            i <= chars.len(),
            body@ == head + escape(chars@.take(i as int)),
        decreases chars.len() - i,
    {
        push_escaped(&mut body, query, &chars, i);
        proof {
            assert(chars@.take(i + 1).drop_last() =~= chars@.take(i as int));
            assert(body@ =~= head + escape(chars@.take(i + 1)));
        }
        i += 1;
    }
    assert(chars@.take(i as int) =~= query@);
    body.append("\"}");
    assert(body@ =~= request_body(query@));
    body
}

} // verus!
