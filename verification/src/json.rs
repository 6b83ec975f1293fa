//! The wire form of a tool result: a JSON object
//! `{"tool_call_id": <id>, "content": <text>}` serialized as the content of
//! a tool-result turn. The inference collaborator is assumed to recognize
//! exactly this shape, so the escaping is specified and verified here.

use vstd::prelude::*;

verus! {

use crate::text::{chars_of, string_of};

/// The sixteen lower-case hexadecimal digits, in value order.
pub open spec fn spec_hex_digits() -> Seq<char> {
    seq!['0', '1', '2', '3', '4', '5', '6', '7', '8', '9', 'a', 'b', 'c', 'd', 'e', 'f']
}

/// What one content character contributes to a JSON string literal: quote,
/// backslash, newline, carriage return and tab get their two-character
/// escapes, any other control character the `\u00XX` form, and every other
/// character stands for itself.
pub open spec fn spec_escape_char(c: char) -> Seq<char> {
    if c == '"' {
        seq!['\\', '"']
    } else if c == '\\' {
        seq!['\\', '\\']
    } else if c == '\n' {
        seq!['\\', 'n']
    } else if c == '\r' {
        seq!['\\', 'r']
    } else if c == '\t' {
        seq!['\\', 't']
    } else if (c as u32) < 32 {
        seq!['\\', 'u', '0', '0']
            + seq![spec_hex_digits()[(c as u32) as int / 16], spec_hex_digits()[(c as u32) as int % 16]]
    } else {
        seq![c]
    }
}

/// A whole character sequence escaped for use inside a JSON string literal.
pub open spec fn spec_escape(s: Seq<char>) -> Seq<char>
    decreases s.len(),
{
    if s.len() == 0 {
        Seq::empty()
    } else {
        spec_escape(s.drop_last()) + spec_escape_char(s.last())
    }
}

/// The serialized tool-result object for a given call identifier and result
/// text.
pub open spec fn spec_tool_result_json(id: Seq<char>, content: Seq<char>) -> Seq<char> {
    "{\"tool_call_id\":\""@ + spec_escape(id) + "\",\"content\":\""@ + spec_escape(content)
        + "\"}"@
}

fn hex_digit(n: u32) -> (c: char)
    requires
        n < 16,
    ensures
        c == spec_hex_digits()[n as int],
{
    match n {
        0 => '0',
        1 => '1',
        2 => '2',
        3 => '3',
        4 => '4',
        5 => '5',
        6 => '6',
        7 => '7',
        8 => '8',
        9 => '9',
        10 => 'a',
        11 => 'b',
        12 => 'c',
        13 => 'd',
        14 => 'e',
        _ => 'f',
    }
}

fn push_escaped(out: &mut Vec<char>, c: char)
    ensures
        final(out)@ == old(out)@ + spec_escape_char(c),
{
    if c == '"' {
        out.push('\\');
        out.push('"');
    } else if c == '\\' {
        out.push('\\');
        out.push('\\');
    } else if c == '\n' {
        out.push('\\');
        out.push('n');
    } else if c == '\r' {
        out.push('\\');
        out.push('r');
    } else if c == '\t' {
        out.push('\\');
        out.push('t');
    } else if (c as u32) < 32 {
        out.push('\\');
        out.push('u');
        out.push('0');
        out.push('0');
        out.push(hex_digit((c as u32) / 16));
        out.push(hex_digit((c as u32) % 16));
    } else {
        out.push(c);
    }
    proof {
        assert(out@ =~= old(out)@ + spec_escape_char(c));
    }
}

fn append_escaped(out: &mut Vec<char>, s: &Vec<char>)
    ensures
        final(out)@ == old(out)@ + spec_escape(s@),
{
    let mut i: usize = 0;
    while i < s.len()
        invariant
            i <= s@.len(),
            out@ == old(out)@ + spec_escape(s@.take(i as int)),
        decreases s@.len() - i,
    {
        push_escaped(out, s[i]);
        proof {
            assert(s@.take(i + 1).drop_last() =~= s@.take(i as int));
            assert(s@.take(i + 1).last() == s@[i as int]);
            assert(out@ =~= old(out)@ + spec_escape(s@.take(i + 1)));
        }
        i = i + 1;
    }
    proof {
        assert(s@.take(s@.len() as int) =~= s@);
    }
}

/// Serializes a tool result for re-injection into the conversation: the
/// JSON object carrying the originating call identifier and the result
/// text, with both strings escaped.
pub fn encode_tool_result(tool_call_id: &str, content: &str) -> (r: String)
    ensures
        r@ == spec_tool_result_json(tool_call_id@, content@),
{
    let id_chars = chars_of(tool_call_id);
    let content_chars = chars_of(content);
    let mut out = chars_of("{\"tool_call_id\":\"");
    append_escaped(&mut out, &id_chars);
    let mut mid = chars_of("\",\"content\":\"");
    out.append(&mut mid);
    append_escaped(&mut out, &content_chars);
    let mut end = chars_of("\"}");
    out.append(&mut end);
    let r = string_of(&out);
    proof {
        assert(out@ =~= spec_tool_result_json(tool_call_id@, content@));
    }
    r
}

} // verus!
