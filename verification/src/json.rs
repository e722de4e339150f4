//! The string pieces of the JSON checkpoints: escaping and the array of
//! action names.
use vstd::prelude::*;

use crate::csv::str_views;
use crate::text::{chars_of, push_char, push_str};

verus! {

/// The JSON text of one character inside a string literal: a backslash and
/// a double quote get a backslash in front, every other character stands
/// for itself.
pub open spec fn escape_char(c: char) -> Seq<char> {
    if c == '\\' || c == '"' {
        seq!['\\', c]
    } else {
        seq![c]
    }
}

/// `s` with every backslash and double quote escaped by a backslash.
pub open spec fn escaped(s: Seq<char>) -> Seq<char>
    decreases s.len(),
{
    if s.len() == 0 {
        Seq::empty()
    } else {
        escape_char(s[0]) + escaped(s.drop_first())
    }
}

/// Escaping distributes over appending one character.
proof fn lemma_escaped_push(s: Seq<char>, c: char)
    ensures
        escaped(s.push(c)) == escaped(s) + escape_char(c),
    decreases s.len(),
{
    if s.len() == 0 {
        assert(s.push(c).drop_first() =~= Seq::<char>::empty());
        assert(escaped(Seq::<char>::empty()) =~= Seq::<char>::empty());
        assert(escaped(s.push(c)) =~= escaped(s) + escape_char(c));
    } else {
        assert(s.push(c).drop_first() =~= s.drop_first().push(c));
        lemma_escaped_push(s.drop_first(), c);
        assert(escaped(s.push(c)) =~= escaped(s) + escape_char(c));
    }
}

/// Escapes backslashes and double quotes for a JSON string literal.
pub fn escape_json(value: &str) -> (r: String)
    ensures
        r@ == escaped(value@),
{
    let cs = chars_of(value);
    let mut r = String::new();
    let mut i: usize = 0;
    assert(cs@.subrange(0, 0) =~= Seq::<char>::empty());
    while i < cs.len()
        invariant
            0 <= i <= cs@.len(),
            cs@ == value@,
            r@ == escaped(cs@.subrange(0, i as int)),
        decreases cs@.len() - i,
    {
        let c = cs[i];
        proof {
            assert(cs@.subrange(0, i + 1) =~= cs@.subrange(0, i as int).push(c));
            lemma_escaped_push(cs@.subrange(0, i as int), c);
        }
        if c == '\\' || c == '"' {
            push_char(&mut r, '\\');
        }
        push_char(&mut r, c);
        assert(r@ =~= escaped(cs@.subrange(0, i + 1)));
        i = i + 1;
    }
    assert(cs@.subrange(0, i as int) =~= cs@);
    r
}

/// Reads back a JSON string body: a backslash takes the next character
/// literally, every other character stands for itself.
pub open spec fn unescaped(t: Seq<char>) -> Seq<char>
    decreases t.len(),
{
    if t.len() == 0 {
        Seq::empty()
    } else if t[0] == '\\' && t.len() >= 2 {
        seq![t[1]] + unescaped(t.subrange(2, t.len() as int))
    } else {
        seq![t[0]] + unescaped(t.drop_first())
    }
}

/// Escaping loses nothing: reading the escaped text back gives the same
/// string.
pub proof fn lemma_escape_round_trip(s: Seq<char>)
    ensures
        unescaped(escaped(s)) == s,
    decreases s.len(),
{
    if s.len() > 0 {
        let c = s[0];
        let rest = escaped(s.drop_first());
        lemma_escape_round_trip(s.drop_first());
        let t = escape_char(c) + rest;
        if c == '\\' || c == '"' {
            assert(t.subrange(2, t.len() as int) =~= rest);
        } else {
            assert(t.drop_first() =~= rest);
        }
        assert(s =~= seq![c] + s.drop_first());
    }
}

/// `n` spaces.
pub open spec fn spaces(n: nat) -> Seq<char> {
    Seq::new(n, |i: int| ' ')
}

/// The quoted, escaped names joined by `", "`.
pub open spec fn quoted_list(values: Seq<Seq<char>>) -> Seq<char>
    decreases values.len(),
{
    if values.len() == 0 {
        Seq::empty()
    } else if values.len() == 1 {
        seq!['"'] + escaped(values[0]) + seq!['"']
    } else {
        quoted_list(values.drop_last()) + seq![',', ' ', '"'] + escaped(values.last()) + seq!['"']
    }
}

/// The JSON member `"name": ["v0", "v1", ...]` indented by `indent` spaces,
/// followed by a comma when `comma`, and a newline.
pub open spec fn json_str_array(
    name: Seq<char>,
    values: Seq<Seq<char>>,
    indent: nat,
    comma: bool,
) -> Seq<char> {
    spaces(indent) + seq!['"'] + name + seq!['"', ':', ' ', '['] + quoted_list(values) + if comma {
        seq![']', ',', '\n']
    } else {
        seq![']', '\n']
    }
}

/// Appends the JSON member `"name": [...]` holding the escaped `values` as
/// strings.
pub fn write_json_array_str(
    output: &mut String,
    name: &str,
    values: &[&str],
    indent: usize,
    comma: bool,
)
    ensures
        final(output)@ == old(output)@ + json_str_array(
            name@,
            str_views(values@),
            indent as nat,
            comma,
        ),
{
    let ghost start = output@;
    let ghost vs = str_views(values@);
    let mut k: usize = 0;
    while k < indent
        invariant
            0 <= k <= indent,
            output@ == start + spaces(k as nat),
        decreases indent - k,
    {
        push_char(output, ' ');
        assert(spaces((k + 1) as nat) =~= spaces(k as nat).push(' '));
        k = k + 1;
    }
    push_char(output, '"');
    push_str(output, name);
    push_char(output, '"');
    push_char(output, ':');
    push_char(output, ' ');
    push_char(output, '[');
    let ghost head = output@;
    assert(head =~= start + spaces(indent as nat) + seq!['"'] + name@ + seq!['"', ':', ' ', '[']);
    let mut idx: usize = 0;
    assert(vs.subrange(0, 0) =~= Seq::<Seq<char>>::empty());
    while idx < values.len()
        invariant
            0 <= idx <= values@.len(),
            vs == str_views(values@),
            output@ == head + quoted_list(vs.subrange(0, idx as int)),
        decreases values@.len() - idx,
    {
        let ghost before = output@;
        if idx > 0 {
            push_char(output, ',');
            push_char(output, ' ');
        }
        push_char(output, '"');
        let e = escape_json(values[idx]);
        push_str(output, e.as_str());
        push_char(output, '"');
        let ghost sub = vs.subrange(0, idx + 1);
        assert(sub.drop_last() =~= vs.subrange(0, idx as int));
        assert(sub.last() == values@[idx as int]@);
        assert(output@ =~= head + quoted_list(sub));
        idx = idx + 1;
    }
    assert(vs.subrange(0, idx as int) =~= vs);
    if comma {
        push_char(output, ']');
        push_char(output, ',');
        push_char(output, '\n');
    } else {
        push_char(output, ']');
        push_char(output, '\n');
    }
    assert(output@ =~= start + json_str_array(name@, vs, indent as nat, comma));
}

} // verus!
