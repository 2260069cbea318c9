//! The compact JSON text of a value, as `to_string` on a JSON value writes it.
use vstd::prelude::*;
use crate::json::Json;
use crate::text::{chars_of, decimal, decimal_string, push_char};

verus! {

pub open spec fn hex_digit(d: nat) -> char {
    if d < 10 {
        crate::text::digit_char(d)
    } else if d == 10 { 'a' } else if d == 11 { 'b' } else if d == 12 { 'c' }
    else if d == 13 { 'd' } else if d == 14 { 'e' } else { 'f' }
}

/// How one character of a string is written: `"` and `\` and the control
/// characters are escaped, the short forms used where there is one.
pub open spec fn escape_char(c: char) -> Seq<char> {
    if c == '"' {
        seq!['\\', '"']
    } else if c == '\\' {
        seq!['\\', '\\']
    } else if c == '\u{8}' {
        seq!['\\', 'b']
    } else if c == '\t' {
        seq!['\\', 't']
    } else if c == '\n' {
        seq!['\\', 'n']
    } else if c == '\u{c}' {
        seq!['\\', 'f']
    } else if c == '\r' {
        seq!['\\', 'r']
    } else if (c as u32) < 0x20 {
        seq!['\\', 'u', '0', '0', hex_digit((c as u32 / 16) as nat), hex_digit((c as u32 % 16) as nat)]
    } else {
        seq![c]
    }
}

pub open spec fn escape_str(s: Seq<char>) -> Seq<char>
    decreases s.len(),
{
    if s.len() == 0 {
        Seq::empty()
    } else {
        escape_str(s.drop_last()) + escape_char(s.last())
    }
}

/// The value of a hexadecimal digit, in either case.
pub open spec fn hex_value(c: char) -> Option<nat> {
    if '0' <= c && c <= '9' {
        Some(((c as int) - ('0' as int)) as nat)
    } else if 'a' <= c && c <= 'f' {
        Some(((c as int) - ('a' as int) + 10) as nat)
    } else if 'A' <= c && c <= 'F' {
        Some(((c as int) - ('A' as int) + 10) as nat)
    } else {
        None
    }
}

/// How a reader of JSON (RFC 8259, section 7) takes the start of the
/// inside of a string: the character that the first character or escape
/// of `t` stands for, and how many characters of `t` it takes. None when
/// `t` starts with a quote, a control character, or a broken escape; of
/// the `\u` escapes, those of a single UTF-16 unit that is no surrogate.
pub open spec fn decode_first(t: Seq<char>) -> Option<(int, char)> {
    if t.len() == 0 {
        None
    } else if t[0] == '\\' {
        if t.len() < 2 {
            None
        } else if t[1] == '"' {
            Some((2, '"'))
        } else if t[1] == '\\' {
            Some((2, '\\'))
        } else if t[1] == '/' {
            Some((2, '/'))
        } else if t[1] == 'b' {
            Some((2, '\u{8}'))
        } else if t[1] == 'f' {
            Some((2, '\u{c}'))
        } else if t[1] == 'n' {
            Some((2, '\n'))
        } else if t[1] == 'r' {
            Some((2, '\r'))
        } else if t[1] == 't' {
            Some((2, '\t'))
        } else if t[1] == 'u' && t.len() >= 6 {
            match (hex_value(t[2]), hex_value(t[3]), hex_value(t[4]), hex_value(t[5])) {
                (Some(a), Some(b), Some(c), Some(d)) => {
                    let v: int = (a * 4096 + b * 256 + c * 16 + d) as int;
                    if v < 0xD800 || 0xE000 <= v {
                        Some((6, v as char))
                    } else {
                        None
                    }
                },
                _ => None,
            }
        } else {
            None
        }
    } else if t[0] == '"' || (t[0] as u32) < 0x20 {
        None
    } else {
        Some((1, t[0]))
    }
}

/// The characters that the inside of a JSON string stands for, read from
/// the front; none when some part of it cannot be read.
pub open spec fn decode_string_body(t: Seq<char>) -> Option<Seq<char>>
    decreases t.len(),
{
    if t.len() == 0 {
        Some(Seq::empty())
    } else {
        match decode_first(t) {
            Some((n, c)) => if 1 <= n <= t.len() {
                match decode_string_body(t.skip(n)) {
                    Some(r) => Some(seq![c] + r),
                    None => None,
                }
            } else {
                None
            },
            None => None,
        }
    }
}

proof fn lemma_hex_round_trip(d: nat)
    requires
        d < 16,
    ensures
        hex_value(hex_digit(d)) == Some(d),
{
    if d < 10 {
        assert(d == 0 || d == 1 || d == 2 || d == 3 || d == 4 || d == 5 || d == 6 || d == 7 || d == 8 || d == 9);
    }
}

/// A reader of JSON takes the escape of a character, whatever follows it,
/// as that character and nothing more.
pub proof fn law_escape_reads_back(c: char, rest: Seq<char>)
    ensures
        escape_char(c).len() >= 1,
        decode_first(escape_char(c) + rest) == Some((escape_char(c).len() as int, c)),
{
    let t = escape_char(c) + rest;
    let u = c as u32;
    if c != '"' && c != '\\' && c != '\u{8}' && c != '\t' && c != '\n' && c != '\u{c}' && c != '\r' && u < 0x20 {
        let hi = (u / 16) as nat;
        let lo = (u % 16) as nat;
        lemma_hex_round_trip(hi);
        lemma_hex_round_trip(lo);
        assert(t[2] == '0' && t[3] == '0');
        assert(t[4] == hex_digit(hi) && t[5] == hex_digit(lo));
        let v: int = (hi * 16 + lo) as int;
        assert(v == u);
        assert(v as char == c);
    }
}

proof fn lemma_escape_str_front(s: Seq<char>)
    requires
        s.len() > 0,
    ensures
        escape_str(s) == escape_char(s[0]) + escape_str(s.drop_first()),
    decreases s.len(),
{
    if s.len() == 1 {
        assert(s.drop_last() =~= Seq::<char>::empty());
        assert(s.drop_first() =~= Seq::<char>::empty());
        assert(escape_str(s) =~= escape_char(s[0]));
    } else {
        lemma_escape_str_front(s.drop_last());
        assert(s.drop_first().drop_last() =~= s.drop_last().drop_first());
        assert(s.drop_first().last() == s.last());
        assert(s.drop_last()[0] == s[0]);
        assert(escape_str(s) =~= escape_char(s[0]) + escape_str(s.drop_first()));
    }
}

/// Reading back the escaped characters of a string gives the string.
pub proof fn law_escaped_string_reads_back(s: Seq<char>)
    ensures
        decode_string_body(escape_str(s)) == Some(s),
    decreases s.len(),
{
    if s.len() == 0 {
        assert(escape_str(s) =~= Seq::<char>::empty());
    } else {
        lemma_escape_str_front(s);
        let rest = escape_str(s.drop_first());
        let e = escape_char(s[0]);
        law_escape_reads_back(s[0], rest);
        law_escaped_string_reads_back(s.drop_first());
        assert((e + rest).skip(e.len() as int) =~= rest);
        assert(seq![s[0]] + s.drop_first() =~= s);
    }
}

/// Different strings have different texts.
pub proof fn law_string_text_injective(a: Seq<char>, b: Seq<char>)
    requires
        string_text(a) == string_text(b),
    ensures
        a == b,
{
    let ta = string_text(a);
    assert(ta.subrange(1, ta.len() - 1) =~= escape_str(a));
    assert(string_text(b).subrange(1, ta.len() - 1) =~= escape_str(b));
    law_escaped_string_reads_back(a);
    law_escaped_string_reads_back(b);
}

/// A string literal: the escaped characters between quotes.
pub open spec fn string_text(s: Seq<char>) -> Seq<char> {
    seq!['"'] + escape_str(s) + seq!['"']
}

/// An integer in decimal, with a minus sign when negative.
pub open spec fn int_text(n: int) -> Seq<char> {
    if n < 0 { seq!['-'] + decimal((-n) as nat) } else { decimal(n as nat) }
}

/// The text of a value.
pub open spec fn json_text(j: Json) -> Seq<char>
    decreases j, 1nat, 0nat,
{
    match j {
        Json::Null => seq!['n', 'u', 'l', 'l'],
        Json::Bool(b) => if b { seq!['t', 'r', 'u', 'e'] } else { seq!['f', 'a', 'l', 's', 'e'] },
        Json::Int(n) => int_text(n as int),
        Json::Fractional(t) => t@,
        Json::Str(s) => string_text(s@),
        Json::Array(items) => seq!['['] + items_text(j, items@.len()) + seq![']'],
        Json::Object(fields) => seq!['{'] + members_text(j, fields@.len()) + seq!['}'],
    }
}

/// The first `k` elements of the array `j`, separated by commas.
pub open spec fn items_text(j: Json, k: nat) -> Seq<char>
    decreases j, 0nat, k,
{
    match j {
        Json::Array(items) => if k == 0 || k > items@.len() {
            Seq::empty()
        } else if k == 1 {
            json_text(items@[0])
        } else {
            items_text(j, (k - 1) as nat) + seq![','] + json_text(items@[k - 1])
        },
        _ => Seq::empty(),
    }
}

/// The first `k` members of the object `j`, separated by commas.
pub open spec fn members_text(j: Json, k: nat) -> Seq<char>
    decreases j, 0nat, k,
{
    match j {
        Json::Object(fields) => if k == 0 || k > fields@.len() {
            Seq::empty()
        } else if k == 1 {
            string_text(fields@[0].0@) + seq![':'] + json_text(fields@[0].1)
        } else {
            members_text(j, (k - 1) as nat) + seq![','] + string_text(fields@[k - 1].0@) + seq![':']
                + json_text(fields@[k - 1].1)
        },
        _ => Seq::empty(),
    }
}


fn hex_char(d: u32) -> (c: char)
    requires
        d < 16,
    ensures
        c == hex_digit(d as nat),
{
    match d {
        0 => '0',
        1 => '1',
        2 => '2',
        3 => '3',
        4 => '4',
        5 => '5',
        6 => '6',
        7 => '7',
        8 => '8',
        9 => '9',
        10 => 'a',
        11 => 'b',
        12 => 'c',
        13 => 'd',
        14 => 'e',
        _ => 'f',
    }
}

fn write_escaped_char(c: char, out: &mut String)
    ensures
        final(out)@ == old(out)@ + escape_char(c),
{
    if c == '"' {
        push_char(out, '\\');
        push_char(out, '"');
    } else if c == '\\' {
        push_char(out, '\\');
        push_char(out, '\\');
    } else if c == '\u{8}' {
        push_char(out, '\\');
        push_char(out, 'b');
    } else if c == '\t' {
        push_char(out, '\\');
        push_char(out, 't');
    } else if c == '\n' {
        push_char(out, '\\');
        push_char(out, 'n');
    } else if c == '\u{c}' {
        push_char(out, '\\');
        push_char(out, 'f');
    } else if c == '\r' {
        push_char(out, '\\');
        push_char(out, 'r');
    } else if (c as u32) < 0x20 {
        push_char(out, '\\');
        push_char(out, 'u');
        push_char(out, '0');
        push_char(out, '0');
        push_char(out, hex_char(c as u32 / 16));
        push_char(out, hex_char(c as u32 % 16));
    } else {
        push_char(out, c);
    }
    assert(final(out)@ =~= old(out)@ + escape_char(c));
}

fn write_string_literal(s: &str, out: &mut String)
    ensures
        final(out)@ == old(out)@ + string_text(s@),
{
    let cs = chars_of(s);
    push_char(out, '"');
    let ghost start = out@;
    let mut i: usize = 0;
    assert(cs@.subrange(0, 0) =~= Seq::<char>::empty());
    assert(start =~= start + escape_str(Seq::<char>::empty()));
    while i < cs.len()
        invariant
            i <= cs.len(),
            cs@ == s@,
            out@ == start + escape_str(cs@.subrange(0, i as int)),
        decreases cs.len() - i,
    {
        write_escaped_char(cs[i], out);
        proof {
            assert(cs@.subrange(0, i + 1).drop_last() =~= cs@.subrange(0, i as int));
            assert(cs@.subrange(0, i + 1).last() == cs@[i as int]);
        }
        i = i + 1;
        assert(out@ =~= start + escape_str(cs@.subrange(0, i as int)));
    }
    assert(cs@.subrange(0, cs.len() as int) =~= cs@);
    push_char(out, '"');
    assert(out@ =~= old(out)@ + string_text(s@));
}

fn write_int(n: i128, out: &mut String)
    ensures
        final(out)@ == old(out)@ + int_text(n as int),
{
    if n < 0 {
        push_char(out, '-');
        let mag: u128 = ((-(n + 1)) as u128) + 1;
        let d = decimal_string(mag);
        out.append(d.as_str());
    } else {
        let d = decimal_string(n as u128);
        out.append(d.as_str());
    }
    assert(final(out)@ =~= old(out)@ + int_text(n as int));
}

/// Appends the text of `j` to `out`.
fn write_json(j: &Json, out: &mut String)
    ensures
        final(out)@ == old(out)@ + json_text(*j),
    decreases *j, 1nat, 0nat,
{
    match j {
        Json::Null => {
            push_char(out, 'n');
            push_char(out, 'u');
            push_char(out, 'l');
            push_char(out, 'l');
        },
        Json::Bool(b) => {
            if *b {
                push_char(out, 't');
                push_char(out, 'r');
                push_char(out, 'u');
                push_char(out, 'e');
            } else {
                push_char(out, 'f');
                push_char(out, 'a');
                push_char(out, 'l');
                push_char(out, 's');
                push_char(out, 'e');
            }
        },
        Json::Int(n) => {
            write_int(*n, out);
        },
        Json::Fractional(t) => {
            out.append(t.as_str());
        },
        Json::Str(s) => {
            write_string_literal(s.as_str(), out);
        },
        Json::Array(items) => {
            push_char(out, '[');
            let ghost start = out@;
            let mut i: usize = 0;
            while i < items.len()
                invariant
                    i <= items.len(),
                    *j == Json::Array(*items),
                    out@ == start + items_text(*j, i as nat),
                decreases items.len() - i,
            {
                if i > 0 {
                    push_char(out, ',');
                }
                proof {
                    assert(decreases_to!(*j => (*j)->Array_0));
                    assert(decreases_to!(*items => items@));
                    assert(decreases_to!(items@ => items@[i as int]));
                    assert(decreases_to!(*j => items@[i as int]));
                }
                write_json(&items[i], out);
                i = i + 1;
                assert(out@ =~= start + items_text(*j, i as nat));
            }
            push_char(out, ']');
        },
        Json::Object(fields) => {
            push_char(out, '{');
            let ghost start = out@;
            let mut i: usize = 0;
            while i < fields.len()
                invariant
                    i <= fields.len(),
                    *j == Json::Object(*fields),
                    out@ == start + members_text(*j, i as nat),
                decreases fields.len() - i,
            {
                if i > 0 {
                    push_char(out, ',');
                }
                write_string_literal(fields[i].0.as_str(), out);
                push_char(out, ':');
                proof {
                    assert(decreases_to!(*j => (*j)->Object_0));
                    assert(decreases_to!(*fields => fields@));
                    assert(decreases_to!(fields@ => fields@[i as int]));
                    assert(decreases_to!(fields@[i as int] => fields@[i as int].1));
                    assert(decreases_to!(*j => fields@[i as int].1));
                }
                write_json(&fields[i].1, out);
                i = i + 1;
                assert(out@ =~= start + members_text(*j, i as nat));
            }
            push_char(out, '}');
        },
    }
    assert(final(out)@ =~= old(out)@ + json_text(*j));
}

/// The compact JSON text of a value.
pub fn json_to_string(j: &Json) -> (r: String)
    ensures
        r@ == json_text(*j),
{
    let mut out = String::new();
    write_json(j, &mut out);
    assert(out@ =~= json_text(*j));
    out
}

}
