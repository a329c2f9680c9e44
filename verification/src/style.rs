//! Colours declared in an inline style.

use crate::text::{matches_at, to_chars, trim, trim_range};
use vstd::prelude::*;
use vstd::utf8::encode_utf8;

verus! {

/// How many characters stand before the first `c` in `s`; the length of
/// `s` where it holds no `c`.
pub open spec fn first_index(s: Seq<char>, c: char) -> nat
    decreases s.len(),
{
    if s.len() == 0 || s.first() == c {
        0
    } else {
        1 + first_index(s.drop_first(), c)
    }
}

/// The parts of a text between the occurrences of `separator`, in order.
/// A text with no separator is one part.
pub open spec fn split(s: Seq<char>, separator: char) -> Seq<Seq<char>>
    decreases s.len(),
{
    let k = first_index(s, separator) as int;
    if k < s.len() {
        seq![s.take(k)] + split(s.skip(k + 1), separator)
    } else {
        seq![s]
    }
}

/// Whether a value has the shape of a six-digit colour: it starts with
/// `#` and takes seven bytes in UTF-8.
pub open spec fn is_color_shaped(value: Seq<char>) -> bool {
    value.len() > 0 && value[0] == '#' && encode_utf8(value).len() == 7
}

/// The colour that one declaration gives to `property`: the declaration,
/// trimmed, starts with the property's name and a colon, and what
/// follows, trimmed, has the shape of a six-digit colour.
pub open spec fn declared_color(declaration: Seq<char>, property: Seq<char>) -> Option<Seq<char>> {
    let key = property.push(':');
    let text = trim(declaration);
    if key.is_prefix_of(text) && is_color_shaped(trim(text.skip(key.len() as int))) {
        Some(trim(text.skip(key.len() as int)))
    } else {
        None
    }
}

/// The colour of the first of `declarations` that gives one to
/// `property`.
pub open spec fn first_declared(declarations: Seq<Seq<char>>, property: Seq<char>) -> Option<
    Seq<char>,
>
    decreases declarations.len(),
{
    if declarations.len() == 0 {
        None
    } else {
        match declared_color(declarations.first(), property) {
            Some(value) => Some(value),
            None => first_declared(declarations.drop_first(), property),
        }
    }
}

/// The colour that an inline style gives to `property`: that of the
/// first of its declarations, which semicolons separate, that gives one.
pub open spec fn css_color(style: Seq<char>, property: Seq<char>) -> Option<Seq<char>> {
    first_declared(split(style, ';'), property)
}

/// The position of the first `c` in `s` at or after `from`; the length
/// of `s` where there is none.
fn find_from(s: &[char], from: usize, c: char) -> (at: usize)
    requires
        from <= s.len(),
    ensures
        from <= at <= s.len(),
        at - from == first_index(s@.skip(from as int), c),
{
    let mut at: usize = from;
    while at < s.len() && s[at] != c
        invariant
            from <= at <= s.len(),
            first_index(s@.skip(from as int), c) == (at - from) + first_index(
                s@.skip(at as int),
                c,
            ),
        decreases s.len() - at,
    {
        assert(s@.skip(at as int).drop_first() == s@.skip(at + 1));
        at += 1;
    }
    at
}

/// The colour that the declaration between `from` and `to` gives to the
/// property whose name and colon are `key`.
fn declared_color_in(style: &str, chars: &[char], from: usize, to: usize, key: &[char]) -> (color:
    Option<String>)
    requires
        chars@ == style@,
        from <= to <= chars.len(),
        key@.len() > 0,
        key@.last() == ':',
    ensures
        match color {
            Some(value) => declared_color(
                chars@.subrange(from as int, to as int),
                key@.drop_last(),
            ) == Some(value@),
            None => declared_color(chars@.subrange(from as int, to as int), key@.drop_last())
                is None,
        },
{
    let (a, b) = trim_range(chars, from, to);
    let ghost text = chars@.subrange(a as int, b as int);
    assert(key@.drop_last().push(':') == key@);
    if !matches_at(chars, key, a) || key.len() > b - a {
        assert(!key@.is_prefix_of(text)) by {
            if key@.is_prefix_of(text) {
                assert(text.subrange(0, key@.len() as int) == chars@.subrange(
                    a as int,
                    a + key@.len(),
                ));
            }
        }
        return None;
    }
    assert(text.subrange(0, key@.len() as int) == chars@.subrange(a as int, a + key@.len()));
    let (c, d) = trim_range(chars, a + key.len(), b);
    assert(text.skip(key@.len() as int) == chars@.subrange(a + key@.len(), b as int));
    let value = style.substring_char(c, d);
    if c < d && chars[c] == '#' && value.as_bytes().len() == 7 {
        Some(value.to_owned())
    } else {
        None
    }
}

/// Finds in an inline style the colour given to a property, where it is
/// written with `#` and takes seven bytes.
pub fn extract_css_color(style: &str, prop: &str) -> (color: Option<String>)
    ensures
        match color {
            Some(value) => css_color(style@, prop@) == Some(value@),
            None => css_color(style@, prop@) is None,
        },
{
    let chars = to_chars(style);
    let mut key = to_chars(prop);
    key.push(':');
    assert(key@.drop_last() == prop@);
    let mut start: usize = 0;
    assert(chars@.skip(0) == chars@);
    loop
        invariant
            start <= chars.len(),
            chars@ == style@,
            key@.len() > 0,
            key@.last() == ':',
            key@.drop_last() == prop@,
            css_color(style@, prop@) == first_declared(
                split(chars@.skip(start as int), ';'),
                prop@,
            ),
        decreases chars.len() - start,
    {
        let end = find_from(chars.as_slice(), start, ';');
        let ghost rest = chars@.skip(start as int);
        let ghost parts = split(rest, ';');
        assert(chars@.subrange(start as int, end as int) == rest.take(end - start));
        let found = declared_color_in(style, chars.as_slice(), start, end, key.as_slice());
        if found.is_some() {
            return found;
        }
        if end == chars.len() {
            assert(rest.take(rest.len() as int) == rest);
            assert(parts == seq![rest]);
            assert(parts.drop_first().len() == 0);
            assert(first_declared(parts.drop_first(), prop@) is None);
            return None;
        }
        assert(rest.skip(end - start + 1) == chars@.skip(end + 1));
        assert(parts.drop_first() == split(chars@.skip(end + 1), ';'));
        start = end + 1;
    }
}

} // verus!
