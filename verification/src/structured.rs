//! The structured rendering of received parts: a JSON document with one
//! record for each part.

use vstd::prelude::*;
use vstd::string::StringExecFns;

use crate::part::{part_views, PartView, ReceivedPart};
use crate::sequence::{joined, lemma_joined_push};
use crate::text::{decimal, push_decimal};

verus! {

broadcast use vstd::string::group_string_axioms;

/// The character that writes the hexadecimal digit `d` in lower case;
/// meaningful for `d < 16`.
pub open spec fn hex_char(d: nat) -> char {
    if d < 10 {
        (48 + d) as u8 as char
    } else {
        (87 + d) as u8 as char
    }
}

/// How one character stands inside a JSON string: the quotation mark, the
/// backslash and the control characters below U+0020 are escaped, every other
/// character stands for itself.
pub open spec fn escaped_char(c: char) -> Seq<char> {
    if c == '"' {
        seq!['\\', '"']
    } else if c == '\\' {
        seq!['\\', '\\']
    } else if c == '\n' {
        seq!['\\', 'n']
    } else if c == '\r' {
        seq!['\\', 'r']
    } else if c == '\t' {
        seq!['\\', 't']
    } else if (c as u32) < 0x20 {
        seq![
            '\\',
            'u',
            '0',
            '0',
            hex_char((c as u32 / 16) as nat),
            hex_char((c as u32 % 16) as nat),
        ]
    } else {
        seq![c]
    }
}

/// The characters of `s`, each escaped for a JSON string.
pub open spec fn escaped(s: Seq<char>) -> Seq<char> {
    joined(Seq::new(s.len(), |i: int| escaped_char(s[i])))
}

/// `s` as a JSON string: escaped, between quotation marks.
pub open spec fn quoted(s: Seq<char>) -> Seq<char> {
    seq!['"'] + escaped(s) + seq!['"']
}

/// The items, with a comma between each two neighbours.
pub open spec fn separated(items: Seq<Seq<char>>) -> Seq<char>
    decreases items.len(),
{
    if items.len() == 0 {
        Seq::empty()
    } else if items.len() == 1 {
        items[0]
    } else {
        separated(items.drop_last()) + seq![','] + items.last()
    }
}

/// The payload as a JSON array of numbers, one for each byte.
pub open spec fn byte_list(data: Seq<u8>) -> Seq<char> {
    seq!['['] + separated(Seq::new(data.len(), |i: int| decimal(data[i] as nat))) + seq![']']
}

/// The disposition as a JSON value: `null` where the part has none, a string
/// where it has one, be it empty.
pub open spec fn disposition_value(disposition: Option<Seq<char>>) -> Seq<char> {
    match disposition {
        Some(description) => quoted(description),
        None => "null"@,
    }
}

/// The record of one part: a JSON object with the three fields of the part.
pub open spec fn record(part: PartView) -> Seq<char> {
    "{\"content_type\":"@ + quoted(part.content_type) + ",\"content_disposition\":"@
        + disposition_value(part.content_disposition) + ",\"content_data\":"@ + byte_list(
        part.content_data,
    ) + "}"@
}

/// The records of a list of parts, in the order of the list.
pub open spec fn records(parts: Seq<PartView>) -> Seq<Seq<char>> {
    Seq::new(parts.len(), |i: int| record(parts[i]))
}

/// The document of a list of parts: a JSON array of their records.
pub open spec fn document(parts: Seq<PartView>) -> Seq<char> {
    seq!['['] + separated(records(parts)) + seq![']']
}

/// Adding one item to a comma-separated list.
pub proof fn lemma_separated_push(items: Seq<Seq<char>>, item: Seq<char>)
    ensures
        separated(items.push(item)) == if items.len() == 0 {
            item
        } else {
            separated(items) + seq![','] + item
        },
{
    assert(items.push(item).drop_last() =~= items);
}

/// Appends the hexadecimal digit `d` to `out`.
fn push_hex_digit(out: &mut String, d: u8)
    requires
        d < 16,
    ensures
        final(out)@ == old(out)@.push(hex_char(d as nat)),
{
    let c: char = if d < 10 {
        (48u8 + d) as char
    } else {
        (87u8 + d) as char
    };
    out.push(c);
}

/// Appends `c`, escaped for a JSON string, to `out`.
pub fn write_escaped_char(out: &mut String, c: char)
    ensures
        final(out)@ == old(out)@ + escaped_char(c),
{
    if c == '"' {
        out.push('\\');
        out.push('"');
    } else if c == '\\' {
        out.push('\\');
        out.push('\\');
    } else if c == '\n' {
        out.push('\\');
        out.push('n');
    } else if c == '\r' {
        out.push('\\');
        out.push('r');
    } else if c == '\t' {
        out.push('\\');
        out.push('t');
    } else if (c as u32) < 0x20 {
        let code: u8 = c as u8;
        out.push('\\');
        out.push('u');
        out.push('0');
        out.push('0');
        push_hex_digit(out, code / 16);
        push_hex_digit(out, code % 16);
    } else {
        out.push(c);
    }
    assert(final(out)@ =~= old(out)@ + escaped_char(c));
}

/// Appends `s` as a JSON string to `out`.
pub fn write_quoted(out: &mut String, s: &str)
    ensures
        final(out)@ == old(out)@ + quoted(s@),
{
    let ghost pieces = Seq::new(s@.len(), |i: int| escaped_char(s@[i]));
    out.push('"');
    let ghost start = out@;
    for c in it: s.chars()
        invariant
            it.seq() == s@,
            pieces == Seq::new(s@.len(), |i: int| escaped_char(s@[i])),
            out@ == start + joined(pieces.take(it.index() as int)),
    {
        proof {
            let k = it.index() as int;
            lemma_joined_push(pieces.take(k), escaped_char(c));
            assert(pieces.take(k).push(escaped_char(c)) =~= pieces.take(k + 1));
        }
        write_escaped_char(out, c);
        assert(out@ =~= start + joined(pieces.take(it.index() + 1)));
    }
    proof {
        assert(pieces.take(s@.len() as int) =~= pieces);
    }
    out.push('"');
    assert(final(out)@ =~= old(out)@ + quoted(s@));
}

/// Appends the payload as a JSON array of numbers to `out`.
pub fn write_byte_list(out: &mut String, data: &Vec<u8>)
    ensures
        final(out)@ == old(out)@ + byte_list(data@),
{
    let ghost items = Seq::new(data@.len(), |i: int| decimal(data@[i] as nat));
    out.push('[');
    let ghost start = out@;
    let mut i: usize = 0;
    while i < data.len()
        invariant
            i <= data.len(),
            items == Seq::new(data@.len(), |i: int| decimal(data@[i] as nat)),
            out@ == start + separated(items.take(i as int)),
        decreases data.len() - i,
    {
        proof {
            lemma_separated_push(items.take(i as int), items[i as int]);
            assert(items.take(i as int).push(items[i as int]) =~= items.take(i + 1));
        }
        if i > 0 {
            out.push(',');
        }
        push_decimal(out, data[i] as usize);
        assert(out@ =~= start + separated(items.take(i + 1)));
        i += 1;
    }
    proof {
        assert(items.take(i as int) =~= items);
    }
    out.push(']');
    assert(final(out)@ =~= old(out)@ + byte_list(data@));
}

/// Appends the record of `part` to `out`.
pub fn write_record(out: &mut String, part: &ReceivedPart)
    ensures
        final(out)@ == old(out)@ + record(part@),
{
    out.append("{\"content_type\":");
    write_quoted(out, part.content_type.as_str());
    out.append(",\"content_disposition\":");
    match &part.content_disposition {
        Some(description) => {
            write_quoted(out, description.as_str());
        },
        None => {
            out.append("null");
        },
    }
    out.append(",\"content_data\":");
    write_byte_list(out, &part.content_data);
    out.append("}");
    assert(final(out)@ =~= old(out)@ + record(part@));
}

/// Renders the document of `parts`.
pub fn render_document(parts: &Vec<ReceivedPart>) -> (text: String)
    ensures
        text@ == document(part_views(parts@)),
{
    let ghost items = records(part_views(parts@));
    let mut text = String::new();
    text.push('[');
    let ghost start = text@;
    let mut i: usize = 0;
    while i < parts.len()
        invariant
            i <= parts.len(),
            items == records(part_views(parts@)),
            start == seq!['['],
            text@ == start + separated(items.take(i as int)),
        decreases parts.len() - i,
    {
        proof {
            lemma_separated_push(items.take(i as int), items[i as int]);
            assert(items.take(i as int).push(items[i as int]) =~= items.take(i + 1));
        }
        if i > 0 {
            text.push(',');
        }
        write_record(&mut text, &parts[i]);
        assert(text@ =~= start + separated(items.take(i + 1)));
        i += 1;
    }
    proof {
        assert(items.take(i as int) =~= items);
    }
    text.push(']');
    assert(text@ =~= document(part_views(parts@)));
    text
}

} // verus!
