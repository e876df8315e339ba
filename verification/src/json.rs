//! Compact JSON text: string literals and separator-joined lists.

use vstd::prelude::*;
use vstd::string::*;

verus! {

/// The lower-case hexadecimal digit for `n`, which is taken below sixteen.
pub open spec fn hex_digit(n: int) -> char {
    if n == 0 {
        '0'
    } else if n == 1 {
        '1'
    } else if n == 2 {
        '2'
    } else if n == 3 {
        '3'
    } else if n == 4 {
        '4'
    } else if n == 5 {
        '5'
    } else if n == 6 {
        '6'
    } else if n == 7 {
        '7'
    } else if n == 8 {
        '8'
    } else if n == 9 {
        '9'
    } else if n == 10 {
        'a'
    } else if n == 11 {
        'b'
    } else if n == 12 {
        'c'
    } else if n == 13 {
        'd'
    } else if n == 14 {
        'e'
    } else {
        'f'
    }
}

/// How one character stands inside a JSON string literal: the quote, the
/// backslash and the control characters are escaped, the rest stands as it is.
pub open spec fn escape_char(c: char) -> Seq<char> {
    if c == '"' {
        seq!['\\', '"']
    } else if c == '\\' {
        seq!['\\', '\\']
    } else if c == '\u{8}' {
        seq!['\\', 'b']
    } else if c == '\t' {
        seq!['\\', 't']
    } else if c == '\n' {
        seq!['\\', 'n']
    } else if c == '\u{c}' {
        seq!['\\', 'f']
    } else if c == '\r' {
        seq!['\\', 'r']
    } else if (c as u32) < 0x20 {
        seq!['\\', 'u', '0', '0', hex_digit((c as u32) as int / 16), hex_digit((c as u32) as int % 16)]
    } else {
        seq![c]
    }
}

/// The characters of `s`, each escaped, in order.
pub open spec fn escaped(s: Seq<char>) -> Seq<char>
    decreases s.len(),
{
    if s.len() == 0 {
        Seq::<char>::empty()
    } else {
        escaped(s.drop_last()) + escape_char(s.last())
    }
}

/// The JSON string literal for `s`: its escaped characters between two quotes.
pub open spec fn quoted(s: Seq<char>) -> Seq<char> {
    seq!['"'] + escaped(s) + seq!['"']
}

/// `parts` in order, with `sep` between each two neighbours.
pub open spec fn joined(parts: Seq<Seq<char>>, sep: Seq<char>) -> Seq<char>
    decreases parts.len(),
{
    if parts.len() == 0 {
        Seq::<char>::empty()
    } else if parts.len() == 1 {
        parts[0]
    } else {
        joined(parts.drop_last(), sep) + sep + parts.last()
    }
}

/// The error type of `serde_json`. Nothing is known of a value of it.
#[verifier::external_type_specification]
#[verifier::external_body]
pub struct ExJsonError(serde_json::Error);

/// `serde_json::to_string` for a string slice. It writes into a buffer in
/// memory a quote, the characters of the slice and a quote again: the quote and
/// the backslash behind a backslash; backspace, tab, line feed, form feed and
/// carriage return as a backslash and a letter; any other character below
/// U+0020 as `\u00` and two lower-case hexadecimal digits; every other
/// character as it is. That is `quoted`. A string slice holds no map and its
/// serialiser refuses nothing, and writing to memory does not fail: the result
/// is always `Ok`.
#[verifier::external_body]
fn encode_str(s: &str) -> (r: Result<String, serde_json::Error>)
    ensures
        r is Ok,
        r->Ok_0@ == quoted(s@),
{
    serde_json::to_string(s)
}

/// The one way encoding can end badly.
#[derive(Debug)]
pub enum EncodeError {
    /// The encoder refused the value.
    Rejected,
}

/// The JSON string literal that stands for `s`.
pub fn quote(s: &str) -> (r: Result<String, EncodeError>)
    ensures
        r is Ok,
        r->Ok_0@ == quoted(s@),
{
    match encode_str(s) {
        Ok(text) => Ok(text),
        Err(_) => Err(EncodeError::Rejected),
    }
}

/// The texts that a list of strings holds, in order.
pub open spec fn texts(items: Seq<String>) -> Seq<Seq<char>> {
    Seq::new(items.len(), |i: int| items[i]@)
}

/// Each text of `items` as a JSON string literal, in order.
pub open spec fn quoted_each(items: Seq<Seq<char>>) -> Seq<Seq<char>> {
    Seq::new(items.len(), |i: int| quoted(items[i]))
}

/// The JSON array whose elements are the texts `elements`, already encoded.
pub open spec fn array_text(elements: Seq<Seq<char>>) -> Seq<char> {
    "["@ + joined(elements, ","@) + "]"@
}

/// Joins `parts` with `sep` between each two neighbours.
pub fn join(parts: &Vec<String>, sep: &str) -> (out: String)
    ensures
        out@ == joined(texts(parts@), sep@),
{
    let mut out = String::new();
    let mut i: usize = 0;
    while i < parts.len()
        invariant
            i <= parts.len(),
            out@ == joined(texts(parts@).take(i as int), sep@),
        decreases parts.len() - i,
    {
        if i > 0 {
            out.append(sep);
        }
        out.append(parts[i].as_str());
        proof {
            let next = texts(parts@).take(i + 1);
            assert(next.drop_last() == texts(parts@).take(i as int));
            assert(next.last() == parts[i as int]@);
            if i == 0 {
                assert(out@ == next[0]);
            }
        }
        i = i + 1;
    }
    proof {
        assert(texts(parts@).take(i as int) == texts(parts@));
    }
    out
}

/// The JSON string literal of each of `items`, in order.
pub fn quote_each(items: &Vec<String>) -> (r: Result<Vec<String>, EncodeError>)
    ensures
        r is Ok,
        texts(r->Ok_0@) == quoted_each(texts(items@)),
{
    let mut out: Vec<String> = Vec::new();
    let mut i: usize = 0;
    while i < items.len()
        invariant
            i <= items.len(),
            out.len() == i,
            forall|k: int| 0 <= k < i ==> #[trigger] out[k]@ == quoted(items[k]@),
        decreases items.len() - i,
    {
        match quote(items[i].as_str()) {
            Ok(text) => {
                out.push(text);
            },
            Err(e) => {
                return Err(e);
            },
        }
        i = i + 1;
    }
    proof {
        assert(texts(out@) =~= quoted_each(texts(items@)));
    }
    Ok(out)
}

/// The JSON array that holds `elements`, each already encoded.
pub fn array(elements: &Vec<String>) -> (out: String)
    ensures
        out@ == array_text(texts(elements@)),
{
    let mut out = String::from_str("[");
    let inner = join(elements, ",");
    out.append(inner.as_str());
    out.append("]");
    out
}

} // verus!
