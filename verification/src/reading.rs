//! Reading back: the JSON text of a value determines the value.
//!
//! Each text of this library ends where a reader that goes from left to right
//! can tell: no text of a value is the beginning of the text of another.

use crate::json::{array_text, escape_char, escaped, hex_digit, joined, quoted, quoted_each};
use crate::response::{
    data_text, envelope_text, flag_text, project_text, project_texts, ProjectView, ResponseView,
};
use vstd::prelude::*;

verus! {

/// The escaped form of a text that was put together from two is put together
/// from their escaped forms.
pub proof fn lemma_escaped_concat(a: Seq<char>, b: Seq<char>)
    ensures
        escaped(a + b) == escaped(a) + escaped(b),
    decreases b.len(),
{
    if b.len() == 0 {
        assert(a + b =~= a);
        assert(escaped(a) + escaped(b) =~= escaped(a));
    } else {
        lemma_escaped_concat(a, b.drop_last());
        assert((a + b).drop_last() =~= a + b.drop_last());
        assert((a + b).last() == b.last());
        assert(escaped(a + b) =~= escaped(a) + escaped(b));
    }
}

/// The escaped form of a text begins with that of its first character.
pub proof fn lemma_escaped_front(s: Seq<char>)
    requires
        s.len() > 0,
    ensures
        escaped(s) == escape_char(s[0]) + escaped(s.drop_first()),
{
    let head = seq![s[0]];
    assert(s =~= head + s.drop_first());
    lemma_escaped_concat(head, s.drop_first());
    assert(head.drop_last() =~= Seq::<char>::empty());
    assert(escaped(head) =~= escape_char(s[0])) by {
        reveal_with_fuel(escaped, 2);
    }
}

/// The escaped form of a character is never empty, never begins with a quote,
/// and begins with a backslash only where the character was escaped.
pub proof fn lemma_escape_char_start(c: char)
    ensures
        escape_char(c).len() > 0,
        escape_char(c)[0] != '"',
        escape_char(c)[0] == '\\' || escape_char(c) == seq![c],
{
}

/// The sixteen hexadecimal digits differ from each other.
proof fn lemma_hex_digit_unique(m: int, n: int)
    requires
        0 <= m < 16,
        0 <= n < 16,
        hex_digit(m) == hex_digit(n),
    ensures
        m == n,
{
}

/// No escaped character is the beginning of another: where two escaped
/// characters, each followed by some text, give the same text, the characters
/// are the same and so is what follows them.
pub proof fn lemma_escape_char_self_delimiting(c: char, d: char, x: Seq<char>, y: Seq<char>)
    requires
        escape_char(c) + x == escape_char(d) + y,
    ensures
        c == d,
        x == y,
{
    let left = escape_char(c) + x;
    let right = escape_char(d) + y;
    let m = escape_char(c).len();
    let n = escape_char(d).len();
    assert(left[0] == right[0]);
    if m >= 2 && n >= 2 {
        assert(left[1] == right[1]);
    }
    if m == 6 && n == 6 {
        assert(left[4] == right[4]);
        assert(left[5] == right[5]);
        let p = (c as u32) as int;
        let q = (d as u32) as int;
        lemma_hex_digit_unique(p / 16, q / 16);
        lemma_hex_digit_unique(p % 16, q % 16);
        assert(p == q);
        assert(c as u32 == d as u32);
    }
    assert(c == d);
    assert(x =~= left.skip(m as int));
    assert(y =~= right.skip(n as int));
}

/// Where two escaped texts, each followed by a quote and some text, give the
/// same text, the texts are the same and so is what follows the quote.
pub proof fn lemma_escaped_self_delimiting(a: Seq<char>, b: Seq<char>, x: Seq<char>, y: Seq<char>)
    requires
        escaped(a) + seq!['"'] + x == escaped(b) + seq!['"'] + y,
    ensures
        a == b,
        x == y,
    decreases a.len(),
{
    let left = escaped(a) + seq!['"'] + x;
    let right = escaped(b) + seq!['"'] + y;
    if a.len() == 0 && b.len() == 0 {
        assert(x =~= left.skip(1));
        assert(y =~= right.skip(1));
        assert(a =~= b);
    } else if a.len() == 0 {
        lemma_escaped_front(b);
        lemma_escape_char_start(b[0]);
        assert(left[0] == '"');
        assert(right[0] == escape_char(b[0])[0]);
    } else if b.len() == 0 {
        lemma_escaped_front(a);
        lemma_escape_char_start(a[0]);
        assert(right[0] == '"');
        assert(left[0] == escape_char(a[0])[0]);
    } else {
        lemma_escaped_front(a);
        lemma_escaped_front(b);
        let rest_a = escaped(a.drop_first()) + seq!['"'] + x;
        let rest_b = escaped(b.drop_first()) + seq!['"'] + y;
        assert(left =~= escape_char(a[0]) + rest_a);
        assert(right =~= escape_char(b[0]) + rest_b);
        lemma_escape_char_self_delimiting(a[0], b[0], rest_a, rest_b);
        lemma_escaped_self_delimiting(a.drop_first(), b.drop_first(), x, y);
        assert(a =~= seq![a[0]] + a.drop_first());
        assert(b =~= seq![b[0]] + b.drop_first());
    }
}

/// No string literal is the beginning of another: where two literals, each
/// followed by some text, give the same text, they stand for the same text and
/// the same follows them.
pub proof fn lemma_quoted_self_delimiting(a: Seq<char>, b: Seq<char>, x: Seq<char>, y: Seq<char>)
    requires
        quoted(a) + x == quoted(b) + y,
    ensures
        a == b,
        x == y,
{
    let left = quoted(a) + x;
    let right = quoted(b) + y;
    assert(left.skip(1) =~= escaped(a) + seq!['"'] + x);
    assert(right.skip(1) =~= escaped(b) + seq!['"'] + y);
    lemma_escaped_self_delimiting(a, b, x, y);
}

/// Two texts with the same string literal are the same text.
pub proof fn lemma_quoted_unique(a: Seq<char>, b: Seq<char>)
    requires
        quoted(a) == quoted(b),
    ensures
        a == b,
{
    lemma_quoted_self_delimiting(a, b, Seq::<char>::empty(), Seq::<char>::empty());
}

/// Whether `c` is a hexadecimal digit, in either case.
pub open spec fn is_hex_digit(c: char) -> bool {
    ||| 0x30 <= c as u32 <= 0x39
    ||| 0x41 <= c as u32 <= 0x46
    ||| 0x61 <= c as u32 <= 0x66
}

/// Whether `c` may follow a backslash to make an escape of two characters.
pub open spec fn is_short_escape(c: char) -> bool {
    c == '"' || c == '\\' || c == '/' || c == 'b' || c == 'f' || c == 'n' || c == 'r' || c == 't'
}

/// Whether `t` may stand between the quotes of a JSON string literal: it holds
/// no quote and no control character, and each backslash in it begins an
/// escape, of two characters or of `u` and four hexadecimal digits.
pub open spec fn is_literal_body(t: Seq<char>) -> bool
    decreases t.len(),
{
    if t.len() == 0 {
        true
    } else if t[0] == '\\' {
        if t.len() >= 2 && is_short_escape(t[1]) {
            is_literal_body(t.skip(2))
        } else if t.len() >= 6 && t[1] == 'u' && is_hex_digit(t[2]) && is_hex_digit(t[3])
            && is_hex_digit(t[4]) && is_hex_digit(t[5]) {
            is_literal_body(t.skip(6))
        } else {
            false
        }
    } else {
        t[0] != '"' && t[0] as u32 >= 0x20 && is_literal_body(t.skip(1))
    }
}

/// Whether `t` is a JSON string literal.
pub open spec fn is_string_literal(t: Seq<char>) -> bool {
    &&& t.len() >= 2
    &&& t[0] == '"'
    &&& t.last() == '"'
    &&& is_literal_body(t.subrange(1, t.len() - 1))
}

/// An escaped character before a literal body gives a literal body.
proof fn lemma_escape_char_is_body(c: char, rest: Seq<char>)
    requires
        is_literal_body(rest),
    ensures
        is_literal_body(escape_char(c) + rest),
{
    let t = escape_char(c) + rest;
    let n = escape_char(c).len();
    assert(t.skip(n as int) =~= rest);
    if n == 6 {
        let p = (c as u32) as int;
        assert(is_hex_digit(hex_digit(p / 16)));
        assert(is_hex_digit(hex_digit(p % 16)));
        assert(t[1] == 'u' && t[2] == '0' && t[3] == '0');
        assert(t[4] == hex_digit(p / 16) && t[5] == hex_digit(p % 16));
    } else if n == 2 {
        assert(t[0] == '\\' && is_short_escape(t[1]));
    } else {
        assert(t[0] == c);
    }
}

/// The escaped form of any text is a literal body.
pub proof fn lemma_escaped_is_body(s: Seq<char>)
    ensures
        is_literal_body(escaped(s)),
    decreases s.len(),
{
    if s.len() > 0 {
        lemma_escaped_front(s);
        lemma_escaped_is_body(s.drop_first());
        lemma_escape_char_is_body(s[0], escaped(s.drop_first()));
    }
}

/// Whatever a text holds, its literal is a JSON string literal: no character of
/// the text can end the literal early or stand in it unescaped where JSON
/// forbids it.
pub proof fn lemma_quoted_is_literal(s: Seq<char>)
    ensures
        is_string_literal(quoted(s)),
{
    lemma_escaped_is_body(s);
    let t = quoted(s);
    assert(t.subrange(1, t.len() - 1) =~= escaped(s));
}

/// A joined list begins with its first part and the separator.
pub proof fn lemma_joined_front(parts: Seq<Seq<char>>, sep: Seq<char>)
    requires
        parts.len() >= 2,
    ensures
        joined(parts, sep) == parts[0] + sep + joined(parts.drop_first(), sep),
    decreases parts.len(),
{
    let front = parts.drop_last();
    let back = parts.drop_first();
    if parts.len() == 2 {
        assert(joined(front, sep) == parts[0]);
        assert(joined(back, sep) == parts[1]);
    } else {
        lemma_joined_front(front, sep);
        assert(front.drop_first() =~= back.drop_last());
        assert(joined(parts, sep) =~= parts[0] + sep + joined(back, sep));
    }
}

/// The text of each of `items` under `encode`, in order.
pub open spec fn encoded_each<T>(items: Seq<T>, encode: spec_fn(T) -> Seq<char>) -> Seq<Seq<char>> {
    Seq::new(items.len(), |i: int| encode(items[i]))
}

/// No text under `encode` is the beginning of another: where two of them, each
/// followed by some text, give the same text, they stand for the same value and
/// the same follows them.
pub open spec fn self_delimiting<T>(encode: spec_fn(T) -> Seq<char>) -> bool {
    forall|a: T, b: T, x: Seq<char>, y: Seq<char>|
        #![trigger encode(a) + x, encode(b) + y]
        encode(a) + x == encode(b) + y ==> a == b && x == y
}

/// No text under `encode` is empty or begins with the bracket that closes an
/// array.
pub open spec fn opens_unlike_close<T>(encode: spec_fn(T) -> Seq<char>) -> bool {
    forall|a: T| (#[trigger] encode(a)).len() > 0 && encode(a)[0] != ']'
}

/// What stands in an array behind an element: a comma before each further
/// element, then the closing bracket.
pub open spec fn rest_text(elements: Seq<Seq<char>>) -> Seq<char>
    decreases elements.len(),
{
    if elements.len() == 0 {
        seq![']']
    } else {
        seq![','] + elements[0] + rest_text(elements.drop_first())
    }
}

/// An array with elements is the opening bracket, the first element, and what
/// stands behind it.
pub proof fn lemma_array_front(elements: Seq<Seq<char>>)
    ensures
        array_text(elements) == if elements.len() == 0 {
            seq!['[', ']']
        } else {
            seq!['['] + elements[0] + rest_text(elements.drop_first())
        },
    decreases elements.len(),
{
    reveal_strlit("[");
    reveal_strlit(",");
    reveal_strlit("]");
    assert("["@ =~= seq!['[']);
    assert(","@ =~= seq![',']);
    assert("]"@ =~= seq![']']);
    let back = elements.drop_first();
    if elements.len() == 0 {
        assert(array_text(elements) =~= seq!['[', ']']);
    } else if elements.len() == 1 {
        assert(rest_text(back) == seq![']']);
        assert(array_text(elements) =~= seq!['['] + elements[0] + rest_text(back));
    } else {
        lemma_joined_front(elements, ","@);
        lemma_array_front(back);
        assert(array_text(back) =~= seq!['['] + (joined(back, ","@) + seq![']']));
        assert(joined(back, ","@) + seq![']'] =~= array_text(back).skip(1));
        assert(back[0] + rest_text(back.drop_first()) =~= (seq!['['] + back[0] + rest_text(
            back.drop_first(),
        )).skip(1));
        assert(rest_text(back) =~= seq![','] + (joined(back, ","@) + seq![']']));
        assert(array_text(elements) =~= seq!['['] + elements[0] + rest_text(back));
    }
}

/// What stands behind an element tells the further elements: where two such
/// texts, each followed by some text, give the same text, the further
/// elements are the same and so is what follows the closing bracket.
proof fn lemma_rest_self_delimiting<T>(
    encode: spec_fn(T) -> Seq<char>,
    a: Seq<T>,
    b: Seq<T>,
    x: Seq<char>,
    y: Seq<char>,
)
    requires
        self_delimiting(encode),
        rest_text(encoded_each(a, encode)) + x == rest_text(encoded_each(b, encode)) + y,
    ensures
        a == b,
        x == y,
    decreases a.len(),
{
    let ea = encoded_each(a, encode);
    let eb = encoded_each(b, encode);
    let left = rest_text(ea) + x;
    let right = rest_text(eb) + y;
    assert(left[0] == right[0]);
    if a.len() == 0 && b.len() == 0 {
        assert(x =~= left.skip(1));
        assert(y =~= right.skip(1));
        assert(a =~= b);
    } else if a.len() == 0 {
        assert(left[0] == ']' && right[0] == ',');
    } else if b.len() == 0 {
        assert(left[0] == ',' && right[0] == ']');
    } else {
        let more_a = rest_text(ea.drop_first()) + x;
        let more_b = rest_text(eb.drop_first()) + y;
        assert(left.skip(1) =~= encode(a[0]) + more_a);
        assert(right.skip(1) =~= encode(b[0]) + more_b);
        assert(a[0] == b[0] && more_a == more_b);
        assert(ea.drop_first() =~= encoded_each(a.drop_first(), encode));
        assert(eb.drop_first() =~= encoded_each(b.drop_first(), encode));
        lemma_rest_self_delimiting(encode, a.drop_first(), b.drop_first(), x, y);
        assert(a =~= seq![a[0]] + a.drop_first());
        assert(b =~= seq![b[0]] + b.drop_first());
    }
}

/// An array of self-delimiting texts is self-delimiting too: where two arrays,
/// each followed by some text, give the same text, they hold the same values in
/// the same order, and the same follows them.
pub proof fn lemma_array_self_delimiting<T>(
    encode: spec_fn(T) -> Seq<char>,
    a: Seq<T>,
    b: Seq<T>,
    x: Seq<char>,
    y: Seq<char>,
)
    requires
        self_delimiting(encode),
        opens_unlike_close(encode),
        array_text(encoded_each(a, encode)) + x == array_text(encoded_each(b, encode)) + y,
    ensures
        a == b,
        x == y,
{
    let ea = encoded_each(a, encode);
    let eb = encoded_each(b, encode);
    let left = array_text(ea) + x;
    let right = array_text(eb) + y;
    lemma_array_front(ea);
    lemma_array_front(eb);
    assert(left[1] == right[1]);
    if a.len() == 0 && b.len() == 0 {
        assert(x =~= left.skip(2));
        assert(y =~= right.skip(2));
        assert(a =~= b);
    } else if a.len() == 0 {
        assert(right[1] == encode(b[0])[0]);
    } else if b.len() == 0 {
        assert(left[1] == encode(a[0])[0]);
    } else {
        let more_a = rest_text(ea.drop_first()) + x;
        let more_b = rest_text(eb.drop_first()) + y;
        assert(left.skip(1) =~= encode(a[0]) + more_a);
        assert(right.skip(1) =~= encode(b[0]) + more_b);
        assert(a[0] == b[0] && more_a == more_b);
        assert(ea.drop_first() =~= encoded_each(a.drop_first(), encode));
        assert(eb.drop_first() =~= encoded_each(b.drop_first(), encode));
        lemma_rest_self_delimiting(encode, a.drop_first(), b.drop_first(), x, y);
        assert(a =~= seq![a[0]] + a.drop_first());
        assert(b =~= seq![b[0]] + b.drop_first());
    }
}

/// Where one text, followed by two others, gives the same text, the two are the
/// same.
proof fn lemma_same_front(front: Seq<char>, x: Seq<char>, y: Seq<char>)
    requires
        front + x == front + y,
    ensures
        x == y,
{
    assert(x =~= (front + x).skip(front.len() as int));
    assert(y =~= (front + y).skip(front.len() as int));
}

/// String literals are self-delimiting, and none begins with a closing
/// bracket.
pub proof fn lemma_literals_self_delimiting()
    ensures
        self_delimiting(|s: Seq<char>| quoted(s)),
        opens_unlike_close(|s: Seq<char>| quoted(s)),
{
    let encode = |s: Seq<char>| quoted(s);
    assert forall|a: Seq<char>, b: Seq<char>, x: Seq<char>, y: Seq<char>|
        #![trigger encode(a) + x, encode(b) + y]
        encode(a) + x == encode(b) + y implies a == b && x == y by {
        lemma_quoted_self_delimiting(a, b, x, y);
    }
}

/// What follows the opening of a project's object: the description, the name
/// and the technologies, each with the key of the next behind it.
spec fn project_rest(p: ProjectView) -> Seq<char> {
    quoted(p.description) + (",\"name\":"@ + (quoted(p.name) + (",\"tech\":"@ + (array_text(
        quoted_each(p.tech),
    ) + "}"@))))
}

/// The object of a project is its opening and what follows it.
proof fn lemma_project_front(p: ProjectView)
    ensures
        project_text(p) == "{\"description\":"@ + project_rest(p),
{
    assert(project_text(p) =~= "{\"description\":"@ + project_rest(p));
}

/// Text behind a text that was put together from two stands behind the second.
proof fn lemma_regroup(a: Seq<char>, b: Seq<char>, x: Seq<char>)
    ensures
        (a + b) + x == a + (b + x),
{
    assert((a + b) + x =~= a + (b + x));
}

/// The object of a project is self-delimiting: where two objects, each followed
/// by some text, give the same text, the projects are the same and so is what
/// follows them.
pub proof fn lemma_project_self_delimiting(
    p: ProjectView,
    q: ProjectView,
    x: Seq<char>,
    y: Seq<char>,
)
    requires
        project_text(p) + x == project_text(q) + y,
    ensures
        p == q,
        x == y,
{
    let encode = |s: Seq<char>| quoted(s);
    let open = "{\"description\":"@;
    let name_key = ",\"name\":"@;
    let tech_key = ",\"tech\":"@;
    let close_p = "}"@ + x;
    let close_q = "}"@ + y;
    let tech_p = array_text(quoted_each(p.tech)) + close_p;
    let tech_q = array_text(quoted_each(q.tech)) + close_q;
    let name_p = quoted(p.name) + (tech_key + tech_p);
    let name_q = quoted(q.name) + (tech_key + tech_q);
    let description_p = quoted(p.description) + (name_key + name_p);
    let description_q = quoted(q.description) + (name_key + name_q);
    assert(project_text(p) + x == open + description_p) by {
        lemma_project_front(p);
        lemma_regroup(array_text(quoted_each(p.tech)), "}"@, x);
        lemma_regroup(tech_key, array_text(quoted_each(p.tech)) + "}"@, x);
        lemma_regroup(quoted(p.name), tech_key + (array_text(quoted_each(p.tech)) + "}"@), x);
        lemma_regroup(
            name_key,
            quoted(p.name) + (tech_key + (array_text(quoted_each(p.tech)) + "}"@)),
            x,
        );
        lemma_regroup(
            quoted(p.description),
            name_key + (quoted(p.name) + (tech_key + (array_text(quoted_each(p.tech)) + "}"@))),
            x,
        );
        lemma_regroup(open, project_rest(p), x);
    }
    assert(project_text(q) + y == open + description_q) by {
        lemma_project_front(q);
        lemma_regroup(array_text(quoted_each(q.tech)), "}"@, y);
        lemma_regroup(tech_key, array_text(quoted_each(q.tech)) + "}"@, y);
        lemma_regroup(quoted(q.name), tech_key + (array_text(quoted_each(q.tech)) + "}"@), y);
        lemma_regroup(
            name_key,
            quoted(q.name) + (tech_key + (array_text(quoted_each(q.tech)) + "}"@)),
            y,
        );
        lemma_regroup(
            quoted(q.description),
            name_key + (quoted(q.name) + (tech_key + (array_text(quoted_each(q.tech)) + "}"@))),
            y,
        );
        lemma_regroup(open, project_rest(q), y);
    }
    lemma_same_front(open, description_p, description_q);
    lemma_quoted_self_delimiting(p.description, q.description, name_key + name_p, name_key + name_q);
    lemma_same_front(name_key, name_p, name_q);
    lemma_quoted_self_delimiting(p.name, q.name, tech_key + tech_p, tech_key + tech_q);
    lemma_same_front(tech_key, tech_p, tech_q);
    assert(p.tech == q.tech && close_p == close_q) by {
        assert(quoted_each(p.tech) =~= encoded_each(p.tech, encode));
        assert(quoted_each(q.tech) =~= encoded_each(q.tech, encode));
        lemma_literals_self_delimiting();
        lemma_array_self_delimiting(encode, p.tech, q.tech, close_p, close_q);
    }
    lemma_same_front("}"@, x, y);
}

/// The objects of projects are self-delimiting, and none begins with a closing
/// bracket.
pub proof fn lemma_projects_self_delimiting()
    ensures
        self_delimiting(|p: ProjectView| project_text(p)),
        opens_unlike_close(|p: ProjectView| project_text(p)),
{
    let encode = |p: ProjectView| project_text(p);
    assert forall|a: ProjectView, b: ProjectView, x: Seq<char>, y: Seq<char>|
        #![trigger encode(a) + x, encode(b) + y]
        encode(a) + x == encode(b) + y implies a == b && x == y by {
        lemma_project_self_delimiting(a, b, x, y);
    }
    reveal_strlit("{\"description\":");
    assert forall|a: ProjectView| (#[trigger] encode(a)).len() > 0 && encode(a)[0] != ']' by {
        assert(encode(a)[0] == "{\"description\":"@[0]);
    }
}

/// The text of a flag tells the flag, whatever follows it.
pub proof fn lemma_flag_self_delimiting(s: bool, t: bool, x: Seq<char>, y: Seq<char>)
    requires
        flag_text(s) + x == flag_text(t) + y,
    ensures
        s == t,
        x == y,
{
    reveal_strlit("true");
    reveal_strlit("false");
    assert("true"@.len() == 4 && "true"@[0] == 't');
    assert("false"@.len() == 5 && "false"@[0] == 'f');
    assert((flag_text(s) + x)[0] == flag_text(s)[0]);
    assert((flag_text(t) + y)[0] == flag_text(t)[0]);
    assert(s == t);
    lemma_same_front(flag_text(s), x, y);
}

/// The text of the data tells the data, whatever follows it.
pub proof fn lemma_data_self_delimiting(
    a: Option<Seq<ProjectView>>,
    b: Option<Seq<ProjectView>>,
    x: Seq<char>,
    y: Seq<char>,
)
    requires
        data_text(a) + x == data_text(b) + y,
    ensures
        a == b,
        x == y,
{
    let encode = |p: ProjectView| project_text(p);
    reveal_strlit("null");
    assert("null"@.len() == 4 && "null"@[0] == 'n');
    match a {
        Some(pa) => lemma_array_front(project_texts(pa)),
        None => {},
    }
    match b {
        Some(pb) => lemma_array_front(project_texts(pb)),
        None => {},
    }
    assert((data_text(a) + x)[0] == data_text(a)[0]);
    assert((data_text(b) + y)[0] == data_text(b)[0]);
    match (a, b) {
        (Some(pa), Some(pb)) => {
            assert(project_texts(pa) =~= encoded_each(pa, encode));
            assert(project_texts(pb) =~= encoded_each(pb, encode));
            lemma_projects_self_delimiting();
            lemma_array_self_delimiting(encode, pa, pb, x, y);
        },
        (None, None) => {
            lemma_same_front("null"@, x, y);
        },
        (Some(pa), None) => {
            assert(data_text(a)[0] == '[');
            assert(data_text(b)[0] == 'n');
        },
        (None, Some(pb)) => {
            assert(data_text(a)[0] == 'n');
            assert(data_text(b)[0] == '[');
        },
    }
}

/// What follows the opening of a response: the flag, the output and the data,
/// each with the key of the next behind it.
spec fn envelope_rest(r: ResponseView) -> Seq<char> {
    flag_text(r.success) + (",\"output\":"@ + (quoted(r.output) + (",\"data\":"@ + (data_text(
        r.data,
    ) + "}"@))))
}

/// A response is its opening and what follows it.
proof fn lemma_envelope_front(r: ResponseView)
    ensures
        envelope_text(r) == "{\"success\":"@ + envelope_rest(r),
{
    assert(envelope_text(r) =~= "{\"success\":"@ + envelope_rest(r));
}

/// The text of a response tells the response: two responses with the same text
/// have the same flag, the same output and the same data.
pub proof fn lemma_envelope_unique(a: ResponseView, b: ResponseView)
    requires
        envelope_text(a) == envelope_text(b),
    ensures
        a == b,
{
    let data_a = data_text(a.data) + "}"@;
    let data_b = data_text(b.data) + "}"@;
    let output_a = quoted(a.output) + (",\"data\":"@ + data_a);
    let output_b = quoted(b.output) + (",\"data\":"@ + data_b);
    lemma_envelope_front(a);
    lemma_envelope_front(b);
    lemma_same_front("{\"success\":"@, envelope_rest(a), envelope_rest(b));
    lemma_flag_self_delimiting(
        a.success,
        b.success,
        ",\"output\":"@ + output_a,
        ",\"output\":"@ + output_b,
    );
    lemma_same_front(",\"output\":"@, output_a, output_b);
    lemma_quoted_self_delimiting(
        a.output,
        b.output,
        ",\"data\":"@ + data_a,
        ",\"data\":"@ + data_b,
    );
    lemma_same_front(",\"data\":"@, data_a, data_b);
    lemma_data_self_delimiting(a.data, b.data, "}"@, "}"@);
}

} // verus!
