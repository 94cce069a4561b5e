//! Patterns: strings with `${name}` placeholders, rendered against a
//! property map.
//!
//! A placeholder is `${`, a name and `}`. A name is what the regular
//! expressions of rules accept as the name of a capture group: it starts
//! with `_` or an alphabetic character and goes on with alphanumeric
//! characters, `_`, `.`, `[` and `]`. A placeholder whose name the map has
//! is replaced by the property's value, as it is; one whose name the map
//! lacks stays in the output as it is written. Everything else is copied.

use vstd::prelude::*;
use vstd::string::*;
use crate::props::PropertyMap;
use crate::text::{alphabetic, alphanumeric, is_alphabetic, is_alphanumeric};

verus! {

/// Whether a name may start with this character.
pub open spec fn name_start(c: char) -> bool {
    c == '_' || alphabetic(c)
}

/// Whether a name may go on with this character.
pub open spec fn name_char(c: char) -> bool {
    c == '_' || c == '.' || c == '[' || c == ']' || alphanumeric(c)
}

/// The end of the longest run of name characters that begins at `from`.
pub open spec fn name_end(t: Seq<char>, from: int) -> int
    decreases t.len() - from,
{
    if 0 <= from < t.len() && name_char(t[from]) {
        name_end(t, from + 1)
    } else {
        from
    }
}

/// Where a placeholder begins at `i`, the position behind its closing brace.
pub open spec fn placeholder_end(t: Seq<char>, i: int) -> Option<int> {
    let close = name_end(t, i + 3);
    if 0 <= i && i + 3 < t.len() && t[i] == '$' && t[i + 1] == '{' && name_start(t[i + 2])
        && close < t.len() && t[close] == '}' {
        Some(close + 1)
    } else {
        None
    }
}

/// The name of the placeholder that begins at `i` and ends before `end`.
pub open spec fn placeholder_name(t: Seq<char>, i: int, end: int) -> Seq<char> {
    t.subrange(i + 2, end - 1)
}

/// A run of name characters ends at or behind its start, and within the text.
pub proof fn lemma_name_end_bounds(t: Seq<char>, from: int)
    requires
        0 <= from <= t.len(),
    ensures
        from <= name_end(t, from) <= t.len(),
    decreases t.len() - from,
{
    if from < t.len() && name_char(t[from]) {
        lemma_name_end_bounds(t, from + 1);
    }
}

/// A run of name characters holds name characters only, and is not
/// followed by one.
pub proof fn lemma_name_end_run(t: Seq<char>, from: int)
    requires
        0 <= from <= t.len(),
    ensures
        forall|k: int| from <= k < name_end(t, from) ==> name_char(#[trigger] t[k]),
        name_end(t, from) < t.len() ==> !name_char(t[name_end(t, from)]),
    decreases t.len() - from,
{
    lemma_name_end_bounds(t, from);
    if from < t.len() && name_char(t[from]) {
        lemma_name_end_run(t, from + 1);
    }
}

/// What a placeholder looks like: `${`, a character that a name may start
/// with, characters that a name may go on with, and `}`.
pub proof fn lemma_placeholder_shape(t: Seq<char>, i: int)
    requires
        placeholder_end(t, i).is_some(),
    ensures
        0 <= i,
        i + 4 <= placeholder_end(t, i).unwrap() <= t.len(),
        t[i] == '$',
        t[i + 1] == '{',
        name_start(t[i + 2]),
        forall|k: int|
            i + 3 <= k < placeholder_end(t, i).unwrap() - 1 ==> name_char(#[trigger] t[k]),
        t[placeholder_end(t, i).unwrap() - 1] == '}',
{
    lemma_name_end_bounds(t, i + 3);
    lemma_name_end_run(t, i + 3);
}

/// A run of name characters ends at the first character that is none.
proof fn lemma_name_end_at(t: Seq<char>, from: int, stop: int)
    requires
        0 <= from <= stop < t.len(),
        forall|k: int| from <= k < stop ==> name_char(#[trigger] t[k]),
        !name_char(t[stop]),
    ensures
        name_end(t, from) == stop,
    decreases stop - from,
{
    if from < stop {
        lemma_name_end_at(t, from + 1, stop);
    }
}

/// What looks like a placeholder is one, as long as `}` is no character
/// that a name may go on with.
pub proof fn lemma_placeholder_found(t: Seq<char>, i: int, end: int)
    requires
        0 <= i,
        i + 4 <= end <= t.len(),
        t[i] == '$',
        t[i + 1] == '{',
        name_start(t[i + 2]),
        forall|k: int| i + 3 <= k < end - 1 ==> name_char(#[trigger] t[k]),
        t[end - 1] == '}',
        !name_char('}'),
    ensures
        placeholder_end(t, i) == Some(end),
{
    lemma_name_end_at(t, i + 3, end - 1);
}

/// The rendering of the text from position `i` on.
pub open spec fn render_from(t: Seq<char>, i: int, props: Map<Seq<char>, Seq<char>>) -> Seq<char>
    decreases t.len() - i,
{
    if i < 0 || i >= t.len() {
        Seq::empty()
    } else {
        match placeholder_end(t, i) {
            Some(end) if props.contains_key(placeholder_name(t, i, end)) => {
                proof {
                    lemma_name_end_bounds(t, i + 3);
                }
                props[placeholder_name(t, i, end)] + render_from(t, end, props)
            },
            _ => seq![t[i]] + render_from(t, i + 1, props),
        }
    }
}

/// The rendering of a pattern's text against a property map.
pub open spec fn render(t: Seq<char>, props: Map<Seq<char>, Seq<char>>) -> Seq<char> {
    render_from(t, 0, props)
}

/// Whether the map knows none of the placeholders that begin in the text
/// at `from` or behind it: it has the name of none of them.
pub open spec fn knows_none_from(
    t: Seq<char>,
    from: int,
    props: Map<Seq<char>, Seq<char>>,
) -> bool {
    forall|i: int|
        from <= i < t.len() ==> (#[trigger] placeholder_end(t, i) matches Some(end)
            ==> !props.contains_key(placeholder_name(t, i, end)))
}

/// Whether two maps say the same of the name of every placeholder that
/// begins in the text at `from` or behind it.
pub open spec fn agree_from(
    t: Seq<char>,
    from: int,
    a: Map<Seq<char>, Seq<char>>,
    b: Map<Seq<char>, Seq<char>>,
) -> bool {
    forall|i: int|
        from <= i < t.len() ==> (#[trigger] placeholder_end(t, i) matches Some(end) ==> {
            let name = placeholder_name(t, i, end);
            a.contains_key(name) == b.contains_key(name) && (a.contains_key(name) ==> a[name]
                == b[name])
        })
}

/// Where the map has none of the names of the placeholders from `i` on,
/// the rest of the text is rendered as it is.
pub proof fn lemma_render_from_unknown(t: Seq<char>, i: int, props: Map<Seq<char>, Seq<char>>)
    requires
        0 <= i <= t.len(),
        knows_none_from(t, i, props),
    ensures
        render_from(t, i, props) == t.skip(i),
    decreases t.len() - i,
{
    if i < t.len() {
        assert(placeholder_end(t, i) matches Some(end) ==> !props.contains_key(
            placeholder_name(t, i, end),
        ));
        lemma_render_from_unknown(t, i + 1, props);
        assert(seq![t[i]] + t.skip(i + 1) =~= t.skip(i));
    } else {
        assert(t.skip(i) =~= Seq::empty());
    }
}

/// A pattern none of whose placeholders the map knows is rendered as it
/// is written.
pub proof fn lemma_render_unknown(t: Seq<char>, props: Map<Seq<char>, Seq<char>>)
    requires
        knows_none_from(t, 0, props),
    ensures
        render(t, props) == t,
{
    lemma_render_from_unknown(t, 0, props);
    assert(t.skip(0) =~= t);
}

/// A pattern without placeholders is rendered as it is written, against
/// every map.
pub proof fn lemma_render_without_placeholders(t: Seq<char>, props: Map<Seq<char>, Seq<char>>)
    requires
        forall|i: int| 0 <= i < t.len() ==> placeholder_end(t, i).is_none(),
    ensures
        render(t, props) == t,
{
    lemma_render_unknown(t, props);
}

/// Against the map without properties every pattern is rendered as it is
/// written.
pub proof fn lemma_render_empty(t: Seq<char>)
    ensures
        render(t, Map::empty()) == t,
{
    lemma_render_unknown(t, Map::empty());
}

/// A text without `$` is rendered as it is written, against every map.
pub proof fn lemma_render_plain(t: Seq<char>, props: Map<Seq<char>, Seq<char>>)
    requires
        forall|i: int| 0 <= i < t.len() ==> t[i] != '$',
    ensures
        render(t, props) == t,
{
    lemma_render_without_placeholders(t, props);
}

/// Two maps that say the same of the names of the placeholders from `i` on
/// render the rest of the text alike.
pub proof fn lemma_render_from_agree(
    t: Seq<char>,
    i: int,
    a: Map<Seq<char>, Seq<char>>,
    b: Map<Seq<char>, Seq<char>>,
)
    requires
        0 <= i <= t.len(),
        agree_from(t, i, a, b),
    ensures
        render_from(t, i, a) == render_from(t, i, b),
    decreases t.len() - i,
{
    if i < t.len() {
        assert(placeholder_end(t, i) matches Some(end) ==> {
            let name = placeholder_name(t, i, end);
            a.contains_key(name) == b.contains_key(name) && (a.contains_key(name) ==> a[name]
                == b[name])
        });
        lemma_render_from_agree(t, i + 1, a, b);
        if let Some(end) = placeholder_end(t, i) {
            lemma_name_end_bounds(t, i + 3);
            lemma_render_from_agree(t, end, a, b);
        }
    }
}

/// Two maps that say the same of the names of a pattern's placeholders
/// render the pattern alike.
pub proof fn lemma_render_agree(
    t: Seq<char>,
    a: Map<Seq<char>, Seq<char>>,
    b: Map<Seq<char>, Seq<char>>,
)
    requires
        agree_from(t, 0, a, b),
    ensures
        render(t, a) == render(t, b),
{
    lemma_render_from_agree(t, 0, a, b);
}

/// A pattern that is one placeholder whose name the map has is rendered as
/// the value of that name.
pub proof fn lemma_render_placeholder(t: Seq<char>, props: Map<Seq<char>, Seq<char>>)
    requires
        placeholder_end(t, 0) == Some(t.len() as int),
        props.contains_key(placeholder_name(t, 0, t.len() as int)),
    ensures
        render(t, props) == props[placeholder_name(t, 0, t.len() as int)],
{
    let name = placeholder_name(t, 0, t.len() as int);
    assert(render_from(t, t.len() as int, props) =~= Seq::empty());
    assert(props[name] + Seq::<char>::empty() =~= props[name]);
}

/// A string with `${name}` placeholders.
#[derive(Debug)]
pub struct Pattern {
    pub src: String,
}

/// The characters of a string, in order.
fn chars_of(s: &str) -> (v: Vec<char>)
    ensures
        v@ == s@,
{
    let mut v: Vec<char> = Vec::new();
    for c in it: s.chars()
        invariant
            v@ == it.seq().take(it.index() as int),
            it.seq() == s@,
    {
        v.push(c);
    }
    v
}

/// Whether a name may go on with this character.
fn is_name_char(c: char) -> (b: bool)
    ensures
        b == name_char(c),
{
    c == '_' || c == '.' || c == '[' || c == ']' || is_alphanumeric(c)
}

/// The end of the run of name characters that begins at `from`.
fn scan_name(t: &Vec<char>, from: usize) -> (end: usize)
    requires
        from <= t@.len(),
    ensures
        end == name_end(t@, from as int),
        from <= end <= t@.len(),
{
    let mut end: usize = from;
    while end < t.len() && is_name_char(t[end])
        invariant
            from <= end <= t@.len(),
            name_end(t@, from as int) == name_end(t@, end as int),
        decreases t@.len() - end,
    {
        end += 1;
    }
    end
}

/// Where a placeholder begins at `i`, the position behind its closing brace.
fn scan_placeholder(t: &Vec<char>, i: usize) -> (r: Option<usize>)
    requires
        i < t@.len(),
    ensures
        match r {
            Some(end) => placeholder_end(t@, i as int) == Some(end as int) && i + 4 <= end
                <= t@.len(),
            None => placeholder_end(t@, i as int).is_none(),
        },
{
    if t.len() - i <= 3 || t[i] != '$' || t[i + 1] != '{' {
        return None;
    }
    let first: char = t[i + 2];
    if !(first == '_' || is_alphabetic(first)) {
        return None;
    }
    let close: usize = scan_name(t, i + 3);
    if close < t.len() && t[close] == '}' {
        Some(close + 1)
    } else {
        None
    }
}

impl Pattern {
    /// The pattern with this text.
    pub fn new(src: String) -> (r: Pattern)
        ensures
            r.src == src,
    {
        Pattern { src }
    }

    /// Renders the pattern: each placeholder whose name `props` has is
    /// replaced by the property's value, the rest is copied.
    pub fn inject(&self, props: &PropertyMap) -> (r: String)
        ensures
            r@ == render(self.src@, props@),
    {
        let text: &str = self.src.as_str();
        let t: Vec<char> = chars_of(text);
        let mut out = String::new();
        let mut i: usize = 0;
        while i < t.len()
            invariant
                i <= t@.len(),
                t@ == text@,
                render(t@, props@) == out@ + render_from(t@, i as int, props@),
            decreases t@.len() - i,
        {
            let mut next: usize = i + 1;
            let mut replaced: bool = false;
            if let Some(end) = scan_placeholder(&t, i) {
                let name: &str = text.substring_char(i + 2, end - 1);
                if let Some(value) = props.get(name) {
                    out.append(value.as_str());
                    next = end;
                    replaced = true;
                }
            }
            if !replaced {
                out.push(t[i]);
            }
            i = next;
        }
        out
    }
}

} // verus!
