//! XML text: escaping, elements, and finding one's place in a document.

use vstd::prelude::*;
use vstd::string::StringExecFns;

verus! {

/// A character as it stands in text and in attribute values.
pub open spec fn escaped_char(c: char) -> Seq<char> {
    if c == '&' {
        "&amp;"@
    } else if c == '<' {
        "&lt;"@
    } else if c == '>' {
        "&gt;"@
    } else if c == '"' {
        "&quot;"@
    } else if c == '\'' {
        "&#39;"@
    } else {
        seq![c]
    }
}

/// A text with its markup characters escaped.
pub open spec fn escaped(s: Seq<char>) -> Seq<char>
    decreases s.len(),
{
    if s.len() == 0 {
        Seq::empty()
    } else {
        escaped(s.drop_last()) + escaped_char(s.last())
    }
}

/// Whether a character begins or ends markup.
pub open spec fn is_markup(c: char) -> bool {
    c == '<' || c == '>' || c == '"' || c == '\''
}

/// Whether a text holds no character that begins or ends markup.
pub open spec fn is_inert(s: Seq<char>) -> bool {
    forall|i: int| 0 <= i < s.len() ==> !is_markup(#[trigger] s[i])
}

/// An escaped text is inert: whatever it was made of, it opens no tag, closes
/// none, and ends no attribute value.
pub proof fn law_escaped_is_inert(s: Seq<char>)
    ensures
        is_inert(escaped(s)),
    decreases s.len(),
{
    if s.len() > 0 {
        law_escaped_is_inert(s.drop_last());
        reveal_strlit("&amp;");
        reveal_strlit("&lt;");
        reveal_strlit("&gt;");
        reveal_strlit("&quot;");
        reveal_strlit("&#39;");
        let a = escaped(s.drop_last());
        let b = escaped_char(s.last());
        assert forall|i: int| 0 <= i < escaped(s).len() implies !is_markup(
            #[trigger] escaped(s)[i],
        ) by {
            if i < a.len() {
                assert((a + b)[i] == a[i]);
            } else {
                assert((a + b)[i] == b[i - a.len()]);
            }
        }
    }
}

/// A text with its markup characters escaped.
pub fn escape(s: &str) -> (result: String)
    ensures
        result@ == escaped(s@),
{
    let mut out = String::new();
    for c in it: s.chars()
        invariant
            out@ == escaped(it.seq().take(it.index())),
    {
        let ghost before = out@;
        proof {
            let after = it.seq().take(it.index() + 1);
            assert(after.drop_last() == it.seq().take(it.index()));
            assert(after.last() == c);
        }
        match c {
            '&' => out.append("&amp;"),
            '<' => out.append("&lt;"),
            '>' => out.append("&gt;"),
            '"' => out.append("&quot;"),
            '\'' => out.append("&#39;"),
            _ => {
                out.push(c);
                assert(before.push(c) == before + seq![c]);
            },
        }
    }
    assert(s@.take(s@.len() as int) == s@);
    out
}

/// An attribute of an element, with a space before it.
pub open spec fn attr(name: Seq<char>, value: Seq<char>) -> Seq<char> {
    " "@ + name + "=\""@ + escaped(value) + "\""@
}

/// An attribute that may be absent.
pub open spec fn opt_attr(name: Seq<char>, value: Option<Seq<char>>) -> Seq<char> {
    match value {
        Some(v) => attr(name, v),
        None => Seq::empty(),
    }
}

/// An element with its attributes and what it holds.
pub open spec fn element(name: Seq<char>, attrs: Seq<char>, body: Seq<char>) -> Seq<char> {
    "<"@ + name + attrs + ">"@ + body + "</"@ + name + ">"@
}

/// An element that holds text.
pub open spec fn text_element(name: Seq<char>, attrs: Seq<char>, text: Seq<char>) -> Seq<char> {
    element(name, attrs, escaped(text))
}

/// An attribute of an element, with a space before it.
pub fn make_attr(name: &str, value: &str) -> (result: String)
    ensures
        result@ == attr(name@, value@),
{
    let mut out = " ".to_owned();
    out.append(name);
    out.append("=\"");
    out.append(escape(value).as_str());
    out.append("\"");
    out
}

/// An attribute that may be absent.
pub fn make_opt_attr(name: &str, value: Option<&str>) -> (result: String)
    ensures
        result@ == opt_attr(name@, crate::text::opt_str(value)),
{
    match value {
        Some(v) => make_attr(name, v),
        None => {
            let empty = String::new();
            assert(empty@ == Seq::<char>::empty());
            empty
        },
    }
}

/// An element with its attributes and what it holds.
pub fn make_element(name: &str, attrs: &str, body: &str) -> (result: String)
    ensures
        result@ == element(name@, attrs@, body@),
{
    let mut out = "<".to_owned();
    out.append(name);
    out.append(attrs);
    out.append(">");
    out.append(body);
    out.append("</");
    out.append(name);
    out.append(">");
    out
}

/// An element that holds text.
pub fn make_text_element(name: &str, attrs: &str, text: &str) -> (result: String)
    ensures
        result@ == text_element(name@, attrs@, text@),
{
    make_element(name, attrs, escape(text).as_str())
}

/// Whether `pattern` stands at place `i` of `s`.
pub open spec fn stands_at(s: Seq<char>, pattern: Seq<char>, i: int) -> bool {
    0 <= i && i + pattern.len() <= s.len() && s.subrange(i, i + pattern.len()) == pattern
}

/// Whether `i` is the first place from `start` on where `pattern` stands.
pub open spec fn is_first_at(s: Seq<char>, pattern: Seq<char>, start: int, i: int) -> bool {
    &&& start <= i
    &&& stands_at(s, pattern, i)
    &&& forall|k: int| start <= k < i ==> !#[trigger] stands_at(s, pattern, k)
}

/// Whether `pattern` stands nowhere from `start` on.
pub open spec fn stands_nowhere(s: Seq<char>, pattern: Seq<char>, start: int) -> bool {
    forall|k: int| start <= k ==> !#[trigger] stands_at(s, pattern, k)
}

/// There is only one first place.
pub proof fn lemma_first_is_only(s: Seq<char>, pattern: Seq<char>, start: int, a: int, b: int)
    requires
        is_first_at(s, pattern, start, a),
        is_first_at(s, pattern, start, b),
    ensures
        a == b,
{
    if a < b {
        assert(!stands_at(s, pattern, a));
    } else if b < a {
        assert(!stands_at(s, pattern, b));
    }
}

fn matches_at(s: &[char], pattern: &[char], at: usize) -> (result: bool)
    requires
        at + pattern@.len() <= s@.len(),
    ensures
        result == stands_at(s@, pattern@, at as int),
{
    let n: usize = s.len();
    let mut k: usize = 0;
    while k < pattern.len()
        invariant
            k <= pattern@.len(),
            n == s@.len(),
            at + pattern@.len() <= n,
            forall|j: int| 0 <= j < k ==> s@[at + j] == pattern@[j],
        decreases pattern@.len() - k,
    {
        if s[at + k] != pattern[k] {
            proof {
                let sub = s@.subrange(at as int, at + pattern@.len());
                assert(sub[k as int] == s@[at + k]);
            }
            return false;
        }
        k += 1;
    }
    assert(s@.subrange(at as int, at + pattern@.len()) == pattern@);
    true
}

/// The first place from `start` on where `pattern` stands.
pub fn find(s: &[char], pattern: &[char], start: usize) -> (result: Option<usize>)
    ensures
        match result {
            Some(i) => is_first_at(s@, pattern@, start as int, i as int),
            None => stands_nowhere(s@, pattern@, start as int),
        },
{
    if pattern.len() > s.len() {
        return None;
    }
    let last: usize = s.len() - pattern.len();
    let mut i: usize = start;
    while i <= last
        invariant
            start <= i,
            last + pattern@.len() == s@.len(),
            i <= last + 1 || i == start,
            forall|k: int| start <= k < i ==> !#[trigger] stands_at(s@, pattern@, k),
        decreases last + 1 - i,
    {
        if matches_at(s, pattern, i) {
            return Some(i);
        }
        if i == last {
            assert forall|k: int| start <= k implies !#[trigger] stands_at(s@, pattern@, k) by {}
            return None;
        }
        i += 1;
    }
    None
}

/// The quotation mark that stands open at `end` when a tag is read from `start`
/// on: within an attribute value, the one that began the value.
pub open spec fn open_quote(s: Seq<char>, start: int, end: int) -> Option<char>
    decreases end - start,
{
    if end <= start {
        None
    } else {
        match (open_quote(s, start, end - 1), s[end - 1]) {
            (Some(q), c) => if c == q {
                None
            } else {
                Some(q)
            },
            (None, c) => if c == '"' || c == '\'' {
                Some(c)
            } else {
                None
            },
        }
    }
}

/// Whether a tag that is read from `start` on could end at `i`: with a `>` that
/// stands outside the attribute values.
pub open spec fn closes_at(s: Seq<char>, start: int, i: int) -> bool {
    start <= i < s.len() && s[i] == '>' && open_quote(s, start, i) is None
}

/// Whether the tag that begins at `start` ends at `i`.
pub open spec fn is_tag_end(s: Seq<char>, start: int, i: int) -> bool {
    closes_at(s, start, i) && forall|k: int| k < i ==> !#[trigger] closes_at(s, start, k)
}

/// Whether the tag that begins at `start` does not end.
pub open spec fn is_unclosed(s: Seq<char>, start: int) -> bool {
    forall|k: int| !#[trigger] closes_at(s, start, k)
}

/// Find the end of the tag that begins at `start`.
pub fn find_tag_end(s: &[char], start: usize) -> (result: Option<usize>)
    ensures
        match result {
            Some(i) => is_tag_end(s@, start as int, i as int),
            None => is_unclosed(s@, start as int),
        },
{
    let mut quote: Option<char> = None;
    let mut i: usize = start;
    while i < s.len()
        invariant
            start <= i,
            i <= s@.len() || i == start,
            quote == open_quote(s@, start as int, i as int),
            forall|k: int| k < i ==> !#[trigger] closes_at(s@, start as int, k),
        decreases s@.len() - i,
    {
        let c = s[i];
        match quote {
            Some(q) => {
                if c == q {
                    quote = None;
                }
            },
            None => {
                if c == '>' {
                    return Some(i);
                }
                if c == '"' || c == '\'' {
                    quote = Some(c);
                }
            },
        }
        i += 1;
    }
    None
}

/// Text without quotation marks keeps what stands open.
proof fn lemma_quote_kept(s: Seq<char>, start: int, from: int, to: int)
    requires
        start <= from <= to,
        forall|k: int| from <= k < to ==> !is_markup(#[trigger] s[k]),
    ensures
        open_quote(s, start, to) == open_quote(s, start, from),
    decreases to - from,
{
    if from < to {
        lemma_quote_kept(s, start, from, to - 1);
        assert(!is_markup(s[to - 1]));
        if let Some(q) = open_quote(s, start, to - 1) {
            lemma_quote_is_a_mark(s, start, to - 1);
        }
    }
}

proof fn lemma_quote_is_a_mark(s: Seq<char>, start: int, end: int)
    ensures
        open_quote(s, start, end) matches Some(q) ==> q == '"' || q == '\'',
    decreases end - start,
{
    if end > start {
        lemma_quote_is_a_mark(s, start, end - 1);
    }
}

/// After an attribute, none of its quotation marks stands open.
proof fn lemma_attr_is_closed(s: Seq<char>, at: int, name: Seq<char>, value: Seq<char>)
    requires
        0 <= at,
        stands_at(s, attr(name, value), at),
        is_inert(name),
        open_quote(s, 0, at) is None,
    ensures
        open_quote(s, 0, at + attr(name, value).len()) is None,
{
    reveal_strlit(" ");
    reveal_strlit("=\"");
    reveal_strlit("\"");
    law_escaped_is_inert(value);
    let a = attr(name, value);
    let e = escaped(value);
    let first = name.len() as int + 2;
    let last = first + 1 + e.len();
    assert forall|k: int| at <= k < at + a.len() implies #[trigger] s[k] == a[k - at] by {
        assert(s.subrange(at, at + a.len())[k - at] == s[k]);
    }
    assert forall|k: int| at <= k < at + first implies !is_markup(#[trigger] s[k]) by {
        assert(s[k] == a[k - at]);
        if 1 <= k - at < 1 + name.len() {
            assert(a[k - at] == name[k - at - 1]);
        }
    }
    lemma_quote_kept(s, 0, at, at + first);
    assert(s[at + first] == a[first] && a[first] == '"');
    assert(open_quote(s, 0, at + first + 1) == Some('"'));
    assert forall|k: int| at + first < k < at + last implies !is_markup(#[trigger] s[k]) by {
        assert(s[k] == a[k - at]);
        assert(a[k - at] == e[k - at - first - 1]);
    }
    lemma_quote_kept(s, 0, at + first + 1, at + last);
    assert(s[at + last] == a[last] && a[last] == '"');
}

/// No attribute holds a `>`.
proof fn lemma_attr_has_no_end(name: Seq<char>, value: Seq<char>, i: int)
    requires
        is_inert(name),
        0 <= i < attr(name, value).len(),
    ensures
        attr(name, value)[i] != '>',
{
    reveal_strlit(" ");
    reveal_strlit("=\"");
    reveal_strlit("\"");
    law_escaped_is_inert(value);
    let e = escaped(value);
    let first = name.len() as int + 3;
    if 1 <= i < 1 + name.len() {
        assert(attr(name, value)[i] == name[i - 1]);
    } else if first <= i < first + e.len() {
        assert(attr(name, value)[i] == e[i - first]);
    }
}

/// Where three attributes stand in an element, its tag ends after them.
pub proof fn lemma_tag_ends(
    name: Seq<char>,
    a: (Seq<char>, Seq<char>),
    b: (Seq<char>, Seq<char>),
    c: (Seq<char>, Seq<char>),
    body: Seq<char>,
)
    requires
        is_inert(name),
        is_inert(a.0),
        is_inert(b.0),
        is_inert(c.0),
    ensures
        is_tag_end(
            element(name, attr(a.0, a.1) + attr(b.0, b.1) + attr(c.0, c.1), body),
            0,
            1int + name.len() + (attr(a.0, a.1) + attr(b.0, b.1) + attr(c.0, c.1)).len(),
        ),
{
    reveal_strlit("<");
    reveal_strlit(">");
    let (x, y, z) = (attr(a.0, a.1), attr(b.0, b.1), attr(c.0, c.1));
    let s = element(name, x + y + z, body);
    let head = "<"@ + name;
    let tail = ">"@ + body + "</"@ + name + ">"@;
    assert(s == head + x + (y + z + tail));
    assert(s == head + x + y + (z + tail));
    assert(s == head + x + y + z + tail);
    assert forall|k: int| 1 <= k < head.len() implies !is_markup(#[trigger] s[k]) by {
        assert(s[k] == name[k - 1]);
    }
    assert(s[0] == '<');
    assert(open_quote(s, 0, 0) is None);
    assert(open_quote(s, 0, 1) is None);
    lemma_quote_kept(s, 0, 1, head.len() as int);
    lemma_stands_between(head, x, y + z + tail);
    lemma_attr_is_closed(s, head.len() as int, a.0, a.1);
    lemma_stands_between(head + x, y, z + tail);
    lemma_attr_is_closed(s, (head + x).len() as int, b.0, b.1);
    lemma_stands_between(head + x + y, z, tail);
    lemma_attr_is_closed(s, (head + x + y).len() as int, c.0, c.1);
    let end = (head + x + y + z).len() as int;
    assert(s[end] == tail[0] && tail[0] == '>');
    assert forall|k: int| k < end implies !#[trigger] closes_at(s, 0, k) by {
        if 0 <= k {
            let at = k - head.len();
            if 1 <= k < head.len() {
                assert(!is_markup(s[k]));
            } else if 0 <= at < x.len() {
                assert(s[k] == x[at]);
                lemma_attr_has_no_end(a.0, a.1, at);
            } else if 0 <= at - x.len() < y.len() {
                assert(s[k] == y[at - x.len()]);
                lemma_attr_has_no_end(b.0, b.1, at - x.len());
            } else if 0 <= at - x.len() - y.len() < z.len() {
                assert(s[k] == z[at - x.len() - y.len()]);
                lemma_attr_has_no_end(c.0, c.1, at - x.len() - y.len());
            }
        }
    }
}

/// `s` with `piece` put in before place `at`.
pub open spec fn spliced(s: Seq<char>, at: int, piece: Seq<char>) -> Seq<char> {
    s.take(at) + piece + s.skip(at)
}

/// `s` with `piece` put in before place `at`.
pub fn splice(s: &[char], at: usize, piece: &str) -> (result: String)
    requires
        at <= s@.len(),
    ensures
        result@ == spliced(s@, at as int, piece@),
{
    let head = vstd::slice::slice_subrange(s, 0, at);
    let tail = vstd::slice::slice_subrange(s, at, s.len());
    let mut out = crate::text::from_chars(head);
    out.append(piece);
    out.append(crate::text::from_chars(tail).as_str());
    assert(head@ == s@.take(at as int));
    assert(tail@ == s@.skip(at as int));
    out
}

/// What is put together of three pieces has the middle one where the first
/// ends.
pub proof fn lemma_stands_between(a: Seq<char>, b: Seq<char>, c: Seq<char>)
    ensures
        stands_at(a + b + c, b, a.len() as int),
{
    assert((a + b + c).subrange(a.len() as int, (a.len() + b.len()) as int) == b);
}

/// An element with attributes opens with its name and a space.
pub proof fn lemma_element_opens(
    name: Seq<char>,
    key: Seq<char>,
    value: Seq<char>,
    more: Seq<char>,
    body: Seq<char>,
)
    ensures
        is_first_at(
            element(name, attr(key, value) + more, body),
            "<"@ + name + " "@,
            0,
            0,
        ),
{
    let attrs = attr(key, value) + more;
    let xml = element(name, attrs, body);
    let wide = "<"@ + name + " "@;
    let tail = key + "=\""@ + escaped(value) + "\""@ + more + ">"@ + body + "</"@ + name + ">"@;
    assert(xml == Seq::<char>::empty() + wide + tail);
    lemma_stands_between(Seq::empty(), wide, tail);
}

/// A `>` within a quoted value does not end a tag, whichever of the two
/// quotation marks the value stands between.
pub proof fn law_quoted_end_is_no_end(
    head: Seq<char>,
    quote: char,
    value: Seq<char>,
    rest: Seq<char>,
    i: int,
)
    requires
        quote == '"' || quote == '\'',
        forall|k: int| 0 <= k < head.len() ==> #[trigger] head[k] != '"' && head[k] != '\'' && head[k]
            != '>',
        forall|k: int| 0 <= k < value.len() ==> #[trigger] value[k] != quote,
        is_tag_end(head.push(quote) + value.push(quote) + rest, 0, i),
    ensures
        i >= head.len() + value.len() + 2,
{
    let s = head.push(quote) + value.push(quote) + rest;
    if i < head.len() + value.len() + 2 {
        lemma_open_in_head(s, head.len() as int, i);
        if i > head.len() {
            lemma_open_in_value(s, head.len() as int, quote, value, i);
        }
    }
}

proof fn lemma_open_in_head(s: Seq<char>, n: int, i: int)
    requires
        0 <= n <= s.len(),
        forall|k: int| 0 <= k < n ==> #[trigger] s[k] != '"' && s[k] != '\'',
    ensures
        0 <= i <= n ==> open_quote(s, 0, i) is None,
    decreases i,
{
    if 0 < i <= n {
        lemma_open_in_head(s, n, i - 1);
        assert(s[i - 1] != '"');
    }
}

proof fn lemma_open_in_value(s: Seq<char>, n: int, quote: char, value: Seq<char>, i: int)
    requires
        0 <= n,
        n + value.len() + 1 < s.len(),
        quote == '"' || quote == '\'',
        forall|k: int| 0 <= k < n ==> #[trigger] s[k] != '"' && s[k] != '\'',
        s[n] == quote,
        forall|k: int| 0 <= k < value.len() ==> s[n + 1 + k] == #[trigger] value[k],
        forall|k: int| 0 <= k < value.len() ==> #[trigger] value[k] != quote,
        n < i <= n + 1 + value.len(),
    ensures
        open_quote(s, 0, i) == Some(quote),
    decreases i,
{
    if i == n + 1 {
        lemma_open_in_head(s, n, n);
    } else {
        lemma_open_in_value(s, n, quote, value, i - 1);
        assert(s[i - 1] == value[i - 2 - n]);
    }
}

/// A tag without quoted values ends at its first `>`.
pub proof fn law_bare_tag_ends_at_once(s: Seq<char>, i: int)
    requires
        0 <= i < s.len(),
        s[i] == '>',
        forall|k: int|
            0 <= k < i ==> #[trigger] s[k] != '"' && s[k] != '\'' && s[k] != '>',
    ensures
        is_tag_end(s, 0, i),
{
    lemma_open_in_head(s, i, i);
}

} // verus!
