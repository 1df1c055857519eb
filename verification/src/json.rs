//! Canonical compact JSON text: the exact character sequences whose UTF-8 bytes the digests
//! are taken over, and writers proved to produce them.
//!
//! Strings are quoted with `"` and escape `"`, `\`, the short control escapes `\b \t \n \f \r`
//! and every other character below U+0020 as `\u00xx` (lowercase hex); all other characters are
//! written as they are. Arrays are `[`, the items separated by `,`, `]`. No whitespace anywhere.
use vstd::prelude::*;
use crate::text::{chars_of, hex_char, hex_digit, push_char};

verus! {

broadcast use vstd::string::group_string_axioms;

/// How one character of a string value is written inside the quotes.
pub open spec fn escape_char(c: char) -> Seq<char> {
    if c == '"' {
        seq!['\\', '"']
    } else if c == '\\' {
        seq!['\\', '\\']
    } else if c == '\u{8}' {
        seq!['\\', 'b']
    } else if c == '\t' {
        seq!['\\', 't']
    } else if c == '\n' {
        seq!['\\', 'n']
    } else if c == '\u{c}' {
        seq!['\\', 'f']
    } else if c == '\r' {
        seq!['\\', 'r']
    } else if (c as u32) < 32 {
        seq!['\\', 'u', '0', '0', hex_char(((c as u32) / 16) as int), hex_char(((c as u32) % 16) as int)]
    } else {
        seq![c]
    }
}

/// The escaped body of a string value.
pub open spec fn escape(s: Seq<char>) -> Seq<char>
    decreases s.len(),
{
    if s.len() == 0 {
        Seq::empty()
    } else {
        escape(s.drop_last()) + escape_char(s.last())
    }
}

/// A JSON string value.
pub open spec fn json_string(s: Seq<char>) -> Seq<char> {
    seq!['"'] + escape(s) + seq!['"']
}

/// The items separated by commas.
pub open spec fn join_commas(items: Seq<Seq<char>>) -> Seq<char>
    decreases items.len(),
{
    if items.len() == 0 {
        Seq::empty()
    } else if items.len() == 1 {
        items[0]
    } else {
        join_commas(items.drop_last()) + seq![','] + items.last()
    }
}

/// A JSON array whose items are already written.
pub open spec fn json_array(items: Seq<Seq<char>>) -> Seq<char> {
    seq!['['] + join_commas(items) + seq![']']
}

/// A JSON array of string values.
pub open spec fn json_string_array(items: Seq<String>) -> Seq<char> {
    json_array(Seq::new(items.len(), |i: int| json_string(items[i]@)))
}

/// A JSON boolean.
pub open spec fn json_bool(b: bool) -> Seq<char> {
    if b {
        "true"@
    } else {
        "false"@
    }
}

/// One step of `join_commas`: appending an item to a prefix of the items.
pub proof fn lemma_join_commas_step(items: Seq<Seq<char>>, i: int)
    requires
        0 <= i < items.len(),
    ensures
        join_commas(items.take(i + 1)) == if i == 0 {
            items[0]
        } else {
            join_commas(items.take(i)) + seq![','] + items[i]
        },
{
    assert(items.take(i + 1).drop_last() =~= items.take(i));
    if i == 0 {
        assert(items.take(1).len() == 1);
    }
}

/// Appends the escaped body of `s` (without the quotes).
pub fn write_escaped(out: &mut String, s: &str)
    ensures
        final(out)@ == old(out)@ + escape(s@),
{
    let chars = chars_of(s);
    let mut i: usize = 0;
    while i < chars.len()
        invariant
            chars@ == s@,
            i <= chars@.len(),
            out@ == old(out)@ + escape(s@.take(i as int)),
        decreases chars.len() - i,
    {
        let c = chars[i];
        let code = c as u32;
        proof {
            assert(s@.take(i + 1).drop_last() =~= s@.take(i as int));
            assert(s@.take(i + 1).last() == c);
        }
        if c == '"' {
            out.append("\\\"");
        } else if c == '\\' {
            out.append("\\\\");
        } else if c == '\u{8}' {
            out.append("\\b");
        } else if c == '\t' {
            out.append("\\t");
        } else if c == '\n' {
            out.append("\\n");
        } else if c == '\u{c}' {
            out.append("\\f");
        } else if c == '\r' {
            out.append("\\r");
        } else if code < 32 {
            out.append("\\u00");
            push_char(out, hex_digit(code / 16));
            push_char(out, hex_digit(code % 16));
        } else {
            push_char(out, c);
        }
        proof {
            reveal_strlit("\\\"");
            reveal_strlit("\\\\");
            reveal_strlit("\\b");
            reveal_strlit("\\t");
            reveal_strlit("\\n");
            reveal_strlit("\\f");
            reveal_strlit("\\r");
            reveal_strlit("\\u00");
        }
        i = i + 1;
        assert(out@ =~= old(out)@ + escape(s@.take(i as int)));
    }
    assert(s@.take(chars@.len() as int) =~= s@);
}

/// Appends `s` as a JSON string value.
pub fn write_string(out: &mut String, s: &str)
    ensures
        final(out)@ == old(out)@ + json_string(s@),
{
    push_char(out, '"');
    write_escaped(out, s);
    push_char(out, '"');
    assert(out@ =~= old(out)@ + json_string(s@));
}

/// Appends `b` as a JSON boolean.
pub fn write_bool(out: &mut String, b: bool)
    ensures
        final(out)@ == old(out)@ + json_bool(b),
{
    if b {
        out.append("true");
    } else {
        out.append("false");
    }
}

/// Appends a JSON array of string values.
pub fn write_string_array(out: &mut String, items: &Vec<String>)
    ensures
        final(out)@ == old(out)@ + json_string_array(items@),
{
    let ghost texts = Seq::new(items@.len(), |k: int| json_string(items@[k]@));
    push_char(out, '[');
    let mut i: usize = 0;
    while i < items.len()
        invariant
            i <= items@.len(),
            texts == Seq::new(items@.len(), |k: int| json_string(items@[k]@)),
            out@ == old(out)@ + seq!['['] + join_commas(texts.take(i as int)),
        decreases items.len() - i,
    {
        proof {
            lemma_join_commas_step(texts, i as int);
        }
        if i > 0 {
            push_char(out, ',');
        }
        write_string(out, items[i].as_str());
        i = i + 1;
        assert(out@ =~= old(out)@ + seq!['['] + join_commas(texts.take(i as int)));
    }
    push_char(out, ']');
    assert(texts.take(items@.len() as int) =~= texts);
    assert(out@ =~= old(out)@ + json_string_array(items@));
}

} // verus!
