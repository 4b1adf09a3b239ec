//! The text of baggage items: how an item is written into the field `baggage`,
//! and what names a text is read as.

use crate::headers::ascii_bytes;
use vstd::prelude::*;
use vstd::utf8::encode_utf8;

verus! {

/// Whether a character is one that Unicode counts as white space.
pub open spec fn is_space(c: char) -> bool {
    let u = c as u32;
    ||| 9 <= u <= 13
    ||| u == 0x20
    ||| u == 0x85
    ||| u == 0xa0
    ||| u == 0x1680
    ||| 0x2000 <= u <= 0x200a
    ||| u == 0x2028
    ||| u == 0x2029
    ||| u == 0x202f
    ||| u == 0x205f
    ||| u == 0x3000
}

/// A text without the white space at its ends.
pub open spec fn trimmed(text: Seq<char>) -> Seq<char>
    decreases text.len(),
{
    if text.len() > 0 && is_space(text.first()) {
        trimmed(text.drop_first())
    } else if text.len() > 0 && is_space(text.last()) {
        trimmed(text.drop_last())
    } else {
        text
    }
}

/// Whether a text neither starts nor ends in white space.
pub open spec fn is_trimmed(text: Seq<char>) -> bool {
    text.len() > 0 ==> !is_space(text.first()) && !is_space(text.last())
}

/// Whether a character is a hexadecimal digit.
pub open spec fn is_hex_digit(c: char) -> bool {
    ||| '0' <= c && c <= '9'
    ||| 'a' <= c && c <= 'f'
    ||| 'A' <= c && c <= 'F'
}

/// Whether a text holds what reads like an escaped byte: a percent sign and two
/// hexadecimal digits.
pub open spec fn has_escape(text: Seq<char>) -> bool {
    exists|i: int|
        0 <= i && i + 2 < text.len() && #[trigger] text[i] == '%' && is_hex_digit(text[i + 1])
            && is_hex_digit(text[i + 2])
}

/// Whether a character may stand in a name: a visible ASCII character that is
/// no separator.
pub open spec fn is_key_char(c: char) -> bool {
    &&& 33 <= c as u32 && c as u32 <= 126
    &&& c != '(' && c != ')' && c != ',' && c != '/' && c != ':' && c != ';'
    &&& c != '<' && c != '=' && c != '>' && c != '?' && c != '@' && c != '['
    &&& c != '\\' && c != ']' && c != '{' && c != '}' && c != '"'
}

/// Whether a text can be a name.
pub open spec fn is_key(text: Seq<char>) -> bool {
    text.len() > 0 && text.all(|c: char| is_key_char(c))
}

/// Whether a byte of a value is written as an escape.
pub open spec fn is_escaped(byte: u8) -> bool {
    byte <= 32 || byte >= 127 || byte == 34 || byte == 44 || byte == 59 || byte == 61
}

/// A number below 16 as a hexadecimal digit in upper case.
pub open spec fn upper_hex_digit(n: nat) -> char {
    if n < 10 {
        (48 + n) as char
    } else {
        (55 + n) as char
    }
}

/// A byte of a value as it is written: as it stands, or as an escape.
pub open spec fn escaped_byte(byte: u8) -> Seq<char> {
    if is_escaped(byte) {
        seq!['%', upper_hex_digit((byte / 16) as nat), upper_hex_digit((byte % 16) as nat)]
    } else {
        seq![byte as char]
    }
}

/// The bytes of a value as they are written.
pub open spec fn escaped(bytes: Seq<u8>) -> Seq<char>
    decreases bytes.len(),
{
    if bytes.len() == 0 {
        Seq::empty()
    } else {
        escaped(bytes.drop_last()) + escaped_byte(bytes.last())
    }
}

/// The text of an item: its name, its value, and its properties if it has any.
pub open spec fn member(key: Seq<char>, value: Seq<char>, metadata: Seq<char>) -> Seq<char> {
    key + seq!['='] + escaped(encode_utf8(trimmed(value))) + (if trimmed(metadata).len() == 0 {
        Seq::empty()
    } else {
        seq![';'] + trimmed(metadata)
    })
}

/// The number that a hexadecimal digit stands for.
pub open spec fn hex_value(c: char) -> int {
    if c <= '9' {
        c as int - '0' as int
    } else if c <= 'F' {
        c as int - 'A' as int + 10
    } else {
        c as int - 'a' as int + 10
    }
}

/// The bytes that ASCII text is read as: each escape as the byte it stands for,
/// and any other character as itself.
pub open spec fn unescaped(text: Seq<char>) -> Seq<u8>
    decreases text.len(),
{
    if text.len() == 0 {
        Seq::empty()
    } else if text.len() > 2 && text[0] == '%' && is_hex_digit(text[1]) && is_hex_digit(text[2]) {
        seq![(16 * hex_value(text[1]) + hex_value(text[2])) as u8] + unescaped(text.skip(3))
    } else {
        seq![text[0] as u8] + unescaped(text.skip(1))
    }
}

/// Whether a text is read as a name: with its escapes resolved, and without the
/// white space at its ends, it is the name.
pub open spec fn reads_as(text: Seq<char>, name: Seq<char>) -> bool {
    exists|read: Seq<char>|
        #[trigger] encode_utf8(read) == unescaped(text) && trimmed(read) == name
}

/// Whether a text is read as an item of that name, or as several among which is
/// one: at its start or after a comma, the name stands before an equals sign.
pub open spec fn offers(text: Seq<char>, name: Seq<char>) -> bool {
    exists|i: int, k: int|
        0 <= i <= k < text.len() && (i == 0 || text[i - 1] == ',') && text[k] == '='
            && is_name_part(text, i, k) && #[trigger] reads_as(text.subrange(i, k), name)
}

/// Whether no separator stands in a part of a text.
pub open spec fn is_name_part(text: Seq<char>, i: int, k: int) -> bool {
    forall|j: int|
        i <= j < k ==> #[trigger] text[j] != ',' && text[j] != ';' && text[j] != '='
}

/// No comma is written for a value.
proof fn lemma_escaped_without_comma(bytes: Seq<u8>)
    ensures
        forall|i: int| 0 <= i < escaped(bytes).len() ==> #[trigger] escaped(bytes)[i] != ',',
    decreases bytes.len(),
{
    if bytes.len() > 0 {
        lemma_escaped_without_comma(bytes.drop_last());
        let before = escaped(bytes.drop_last());
        let last = escaped_byte(bytes.last());
        assert forall|i: int| 0 <= i < last.len() implies #[trigger] last[i] != ',' by {
            let byte = bytes.last();
            assert((byte / 16) < 16 && (byte % 16) < 16);
        }
        assert forall|i: int| 0 <= i < escaped(bytes).len() implies #[trigger] escaped(bytes)[i]
            != ',' by {
            if i >= before.len() {
                assert(escaped(bytes)[i] == last[i - before.len()]);
            }
        }
    }
}

/// A text without escapes is read as it stands.
proof fn lemma_unescaped_as_it_stands(text: Seq<char>)
    requires
        !has_escape(text),
    ensures
        unescaped(text) == ascii_bytes(text),
    decreases text.len(),
{
    if text.len() > 0 {
        let rest = text.skip(1);
        assert(!has_escape(rest)) by {
            if has_escape(rest) {
                let i = choose|i: int|
                    0 <= i && i + 2 < rest.len() && #[trigger] rest[i] == '%' && is_hex_digit(
                        rest[i + 1],
                    ) && is_hex_digit(rest[i + 2]);
                assert(text[i + 1] == '%' && text[i + 2] == rest[i + 1] && text[i + 3] == rest[i
                    + 2]);
            }
        }
        lemma_unescaped_as_it_stands(rest);
        assert(!(text.len() > 2 && text[0] == '%' && is_hex_digit(text[1]) && is_hex_digit(
            text[2],
        )));
        assert(seq![text[0] as u8] + ascii_bytes(rest) =~= ascii_bytes(text));
    }
}

/// A character of a name is ASCII and no white space.
proof fn lemma_key_char(c: char)
    requires
        is_key_char(c),
    ensures
        !is_space(c),
        '\0' <= c <= '\u{7f}',
{
}

/// A name without escapes is read as itself, and as no other name.
proof fn lemma_name_reads_as_itself(key: Seq<char>, name: Seq<char>)
    requires
        is_key(key),
        !has_escape(key),
        reads_as(key, name),
    ensures
        name == key,
{
    let read = choose|read: Seq<char>|
        #[trigger] encode_utf8(read) == unescaped(key) && trimmed(read) == name;
    let in_name = |c: char| is_key_char(c);
    assert(key.all(in_name));
    assert forall|i: int| 0 <= i < key.len() implies !is_space(#[trigger] key[i]) && '\0'
        <= key[i] <= '\u{7f}' by {
        assert(in_name(key[i]));
        lemma_key_char(key[i]);
    }
    lemma_unescaped_as_it_stands(key);
    assert(vstd::utf8::is_ascii_chars(key));
    vstd::utf8::is_ascii_chars_encode_utf8(key);
    assert(encode_utf8(key) =~= ascii_bytes(key));
    vstd::utf8::encode_utf8_decode_utf8(key);
    vstd::utf8::encode_utf8_decode_utf8(read);
    assert(read == key);
}

/// An item whose name has no escapes and whose properties have no comma reads as
/// one of its own name, and of no other.
pub proof fn lemma_member_offers_its_name(
    key: Seq<char>,
    value: Seq<char>,
    metadata: Seq<char>,
    name: Seq<char>,
)
    requires
        is_key(key),
        !has_escape(key),
        is_trimmed(metadata),
        forall|i: int| 0 <= i < metadata.len() ==> #[trigger] metadata[i] != ',',
        offers(member(key, value, metadata), name),
    ensures
        name == key,
{
    let text = member(key, value, metadata);
    let bytes = encode_utf8(trimmed(value));
    let (i, k) = choose|i: int, k: int|
        0 <= i <= k < text.len() && (i == 0 || text[i - 1] == ',') && text[k] == '='
            && is_name_part(text, i, k) && #[trigger] reads_as(text.subrange(i, k), name);
    lemma_escaped_without_comma(bytes);
    let in_name = |c: char| is_key_char(c);
    assert(key.all(in_name));
    assert forall|j: int| 0 <= j < text.len() implies #[trigger] text[j] != ',' by {
        let head = key.len() as int;
        let tail = head + 1 + escaped(bytes).len();
        if j < head {
            assert(text[j] == key[j] && in_name(key[j]));
        } else if j > head && j < tail {
            assert(text[j] == escaped(bytes)[j - head - 1]);
        } else if j > tail {
            assert(text[j] == metadata[j - tail - 1]);
        }
    }
    assert(i == 0);
    assert(text[key.len() as int] == '=');
    if k < key.len() {
        assert(text[k] == key[k] && in_name(key[k]));
    }
    assert(k == key.len());
    assert(text.subrange(0, k) =~= key);
    lemma_name_reads_as_itself(key, name);
}

} // verus!
