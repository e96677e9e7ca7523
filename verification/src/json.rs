//! JSON text construction for the signed API requests.  The gateway signs
//! the exact bytes it transmits, so the body is built here, verified
//! character by character, rather than delegated to a serializer whose
//! output the signature could not be proved to match.

use vstd::prelude::*;

use crate::strutil::{dec_rep, push_all, str_to_chars, u64_to_dec_chars};

verus! {

/// The lowercase hexadecimal digit character for `d`.
pub open spec fn hex_digit_char(d: nat) -> char {
    if d == 0 {
        '0'
    } else if d == 1 {
        '1'
    } else if d == 2 {
        '2'
    } else if d == 3 {
        '3'
    } else if d == 4 {
        '4'
    } else if d == 5 {
        '5'
    } else if d == 6 {
        '6'
    } else if d == 7 {
        '7'
    } else if d == 8 {
        '8'
    } else if d == 9 {
        '9'
    } else if d == 10 {
        'a'
    } else if d == 11 {
        'b'
    } else if d == 12 {
        'c'
    } else if d == 13 {
        'd'
    } else if d == 14 {
        'e'
    } else {
        'f'
    }
}

/// The JSON escape of one character: the two-character shorthands for
/// quote, backslash and the common control characters, `\u00xy` for the
/// other control characters, and the character itself otherwise.
pub open spec fn esc_char(c: char) -> Seq<char> {
    if c == '"' {
        seq!['\\', '"']
    } else if c == '\\' {
        seq!['\\', '\\']
    } else if c == '\u{08}' {
        seq!['\\', 'b']
    } else if c == '\t' {
        seq!['\\', 't']
    } else if c == '\n' {
        seq!['\\', 'n']
    } else if c == '\u{0C}' {
        seq!['\\', 'f']
    } else if c == '\r' {
        seq!['\\', 'r']
    } else if (c as u32) < 0x20 {
        seq!['\\', 'u', '0', '0', hex_digit_char((c as u32 / 16) as nat), hex_digit_char(
            (c as u32 % 16) as nat,
        )]
    } else {
        seq![c]
    }
}

/// The body of a JSON string: every character escaped.
pub open spec fn json_escaped(s: Seq<char>) -> Seq<char>
    decreases s.len(),
{
    if s.len() == 0 {
        Seq::empty()
    } else {
        json_escaped(s.drop_last()) + esc_char(s.last())
    }
}

/// A JSON string literal: the escaped characters between double quotes.
pub open spec fn json_str(s: Seq<char>) -> Seq<char> {
    seq!['"'] + json_escaped(s) + seq!['"']
}

fn hex_digit(d: u32) -> (r: char)
    requires
        d < 16,
    ensures
        r == hex_digit_char(d as nat),
{
    if d == 0 {
        '0'
    } else if d == 1 {
        '1'
    } else if d == 2 {
        '2'
    } else if d == 3 {
        '3'
    } else if d == 4 {
        '4'
    } else if d == 5 {
        '5'
    } else if d == 6 {
        '6'
    } else if d == 7 {
        '7'
    } else if d == 8 {
        '8'
    } else if d == 9 {
        '9'
    } else if d == 10 {
        'a'
    } else if d == 11 {
        'b'
    } else if d == 12 {
        'c'
    } else if d == 13 {
        'd'
    } else if d == 14 {
        'e'
    } else {
        'f'
    }
}

/// Append the JSON escape of one character.
fn push_esc_char(out: &mut Vec<char>, c: char)
    ensures
        final(out)@ == old(out)@ + esc_char(c),
{
    if c == '"' {
        out.push('\\');
        out.push('"');
    } else if c == '\\' {
        out.push('\\');
        out.push('\\');
    } else if c == '\u{08}' {
        out.push('\\');
        out.push('b');
    } else if c == '\t' {
        out.push('\\');
        out.push('t');
    } else if c == '\n' {
        out.push('\\');
        out.push('n');
    } else if c == '\u{0C}' {
        out.push('\\');
        out.push('f');
    } else if c == '\r' {
        out.push('\\');
        out.push('r');
    } else if (c as u32) < 0x20 {
        let code = c as u32;
        out.push('\\');
        out.push('u');
        out.push('0');
        out.push('0');
        out.push(hex_digit(code / 16));
        out.push(hex_digit(code % 16));
    } else {
        out.push(c);
    }
    proof {
        assert(final(out)@ =~= old(out)@ + esc_char(c));
    }
}

/// Append the characters of a literal.
pub fn push_str_chars(out: &mut Vec<char>, s: &str)
    ensures
        final(out)@ == old(out)@ + s@,
{
    let v = str_to_chars(s);
    push_all(out, &v);
}

/// Append a JSON string literal holding the characters of `s`.
pub fn push_json_str(out: &mut Vec<char>, s: &Vec<char>)
    ensures
        final(out)@ == old(out)@ + json_str(s@),
{
    out.push('"');
    let n = s.len();
    let mut i: usize = 0;
    while i < n
        invariant
            0 <= i <= n,
            n == s@.len(),
            out@ == old(out)@ + seq!['"'] + json_escaped(s@.take(i as int)),
        decreases n - i,
    {
        push_esc_char(out, s[i]);
        proof {
            let t = s@.take(i + 1);
            assert(t.drop_last() == s@.take(i as int));
            assert(t.last() == s@[i as int]);
            assert(json_escaped(t) == json_escaped(s@.take(i as int)) + esc_char(s@[i as int]));
        }
        i = i + 1;
    }
    out.push('"');
    proof {
        assert(s@.take(n as int) == s@);
        assert(final(out)@ =~= old(out)@ + json_str(s@));
    }
}

/// Append a JSON string literal holding the characters of a `String`.
pub fn push_json_string(out: &mut Vec<char>, s: &String)
    ensures
        final(out)@ == old(out)@ + json_str(s@),
{
    let v = str_to_chars(s.as_str());
    push_json_str(out, &v);
}

/// The comma-separated JSON string elements of an array body.
pub open spec fn json_str_array_inner(items: Seq<Seq<char>>) -> Seq<char>
    decreases items.len(),
{
    if items.len() == 0 {
        Seq::empty()
    } else if items.len() == 1 {
        json_str(items[0])
    } else {
        json_str_array_inner(items.drop_last()) + seq![','] + json_str(items.last())
    }
}

/// A JSON array of strings.
pub open spec fn json_str_array(items: Seq<Seq<char>>) -> Seq<char> {
    seq!['['] + json_str_array_inner(items) + seq![']']
}

/// Append a JSON array of string literals.
pub fn push_json_str_array(out: &mut Vec<char>, items: &Vec<String>)
    ensures
        final(out)@ == old(out)@ + json_str_array(items.deep_view()),
{
    let ghost all = items.deep_view();
    out.push('[');
    let n = items.len();
    let mut i: usize = 0;
    proof {
        assert(all.len() == n);
    }
    while i < n
        invariant
            0 <= i <= n,
            n == all.len(),
            all == items.deep_view(),
            out@ == old(out)@ + seq!['['] + json_str_array_inner(all.take(i as int)),
        decreases n - i,
    {
        if i > 0 {
            out.push(',');
        }
        push_json_string(out, &items[i]);
        proof {
            let t = all.take(i + 1);
            assert(t.drop_last() == all.take(i as int));
            assert(t.last() == all[i as int]);
            assert(items[i as int]@ == all[i as int]);
            if i == 0 {
                assert(json_str_array_inner(t) == json_str(all[0]));
                assert(out@ =~= old(out)@ + seq!['['] + json_str_array_inner(t));
            } else {
                assert(json_str_array_inner(t) == json_str_array_inner(all.take(i as int)) + seq![
                    ',',
                ] + json_str(all[i as int]));
                assert(out@ =~= old(out)@ + seq!['['] + json_str_array_inner(t));
            }
        }
        i = i + 1;
    }
    out.push(']');
    proof {
        assert(all.take(n as int) == all);
        assert(final(out)@ =~= old(out)@ + json_str_array(all));
    }
}

/// The comma-separated `"name":"value"` members of a JSON object whose
/// values are all strings.
pub open spec fn json_str_object_inner(entries: Seq<(Seq<char>, Seq<char>)>) -> Seq<char>
    decreases entries.len(),
{
    if entries.len() == 0 {
        Seq::empty()
    } else if entries.len() == 1 {
        json_str(entries[0].0) + seq![':'] + json_str(entries[0].1)
    } else {
        json_str_object_inner(entries.drop_last()) + seq![','] + json_str(entries.last().0)
            + seq![':'] + json_str(entries.last().1)
    }
}

/// A JSON object whose members are all strings.
pub open spec fn json_str_object(entries: Seq<(Seq<char>, Seq<char>)>) -> Seq<char> {
    seq!['{'] + json_str_object_inner(entries) + seq!['}']
}

/// Append a bare JSON number: the decimal digits of `n`.
pub fn push_json_u64(out: &mut Vec<char>, n: u64)
    ensures
        final(out)@ == old(out)@ + dec_rep(n as nat),
{
    let d = u64_to_dec_chars(n);
    push_all(out, &d);
}

} // verus!
