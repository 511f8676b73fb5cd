//! Reading XML: what a document says to whoever receives it.
//!
//! Nothing here runs. The tags of a document are read off its text, from one
//! `<` to the next, so that what is written can be told by what a reader finds.

use crate::text::{free_of, leading, lemma_leading_is, split};
use crate::xml::{
    attr, element, escaped, escaped_char, is_markup, law_escaped_is_inert, opt_attr, text_element,
};
use vstd::prelude::*;

verus! {

/// A tag of a document: its name, which begins with `/` where the tag closes an
/// element, its attributes, and the text between it and the next tag.
#[verifier::ext_equal]
pub struct Tag {
    pub name: Seq<char>,
    pub attributes: Seq<(Seq<char>, Seq<char>)>,
    pub text: Seq<char>,
}

/// Whether a text ends in another.
pub open spec fn ends_in(s: Seq<char>, end: Seq<char>) -> bool {
    s.len() >= end.len() && s.skip(s.len() - end.len()) == end
}

/// A text with its character references replaced by the characters they stand
/// for.
pub open spec fn unescaped(s: Seq<char>) -> Seq<char>
    decreases s.len(),
{
    if s.len() == 0 {
        Seq::empty()
    } else if s.len() >= 5 && ends_in(s, "&amp;"@) {
        unescaped(s.take(s.len() - 5)).push('&')
    } else if s.len() >= 4 && ends_in(s, "&lt;"@) {
        unescaped(s.take(s.len() - 4)).push('<')
    } else if s.len() >= 4 && ends_in(s, "&gt;"@) {
        unescaped(s.take(s.len() - 4)).push('>')
    } else if s.len() >= 6 && ends_in(s, "&quot;"@) {
        unescaped(s.take(s.len() - 6)).push('"')
    } else if s.len() >= 5 && ends_in(s, "&#39;"@) {
        unescaped(s.take(s.len() - 5)).push('\'')
    } else {
        unescaped(s.drop_last()).push(s.last())
    }
}

/// Whether a text holds a `&` that no `;` follows.
pub open spec fn has_open_reference(s: Seq<char>) -> bool {
    exists|i: int|
        0 <= i < s.len() && #[trigger] s[i] == '&' && forall|j: int|
            i < j < s.len() ==> #[trigger] s[j] != ';'
}

/// What the references of the markup characters are made of.
proof fn lemma_references()
    ensures
        "&amp;"@ == seq!['&', 'a', 'm', 'p', ';'],
        "&lt;"@ == seq!['&', 'l', 't', ';'],
        "&gt;"@ == seq!['&', 'g', 't', ';'],
        "&quot;"@ == seq!['&', 'q', 'u', 'o', 't', ';'],
        "&#39;"@ == seq!['&', '#', '3', '9', ';'],
{
    reveal_strlit("&amp;");
    reveal_strlit("&lt;");
    reveal_strlit("&gt;");
    reveal_strlit("&quot;");
    reveal_strlit("&#39;");
}

proof fn lemma_references_are_closed(s: Seq<char>)
    ensures
        !has_open_reference(escaped(s)),
    decreases s.len(),
{
    if s.len() > 0 {
        lemma_references();
        let front = escaped(s.drop_last());
        let end = escaped_char(s.last());
        lemma_references_are_closed(s.drop_last());
        let whole = escaped(s);
        assert(whole == front + end);
        if has_open_reference(whole) {
            let i = choose|i: int|
                0 <= i < whole.len() && #[trigger] whole[i] == '&' && forall|j: int|
                    i < j < whole.len() ==> #[trigger] whole[j] != ';';
            if i < front.len() {
                assert(front[i] == '&');
                assert forall|j: int| i < j < front.len() implies #[trigger] front[j] != ';' by {
                    assert(whole[j] == front[j]);
                }
                assert(false);
            } else {
                assert(end[i - front.len()] == '&');
                assert(end.last() == ';');
                assert(whole[whole.len() - 1] == ';');
                assert(end.len() > 1);
                assert(i == front.len());
                assert(false);
            }
        }
    }
}

/// A text that ends in a reference without its `;` has an open reference.
proof fn lemma_open(e: Seq<char>, reference: Seq<char>)
    requires
        reference.len() >= 2,
        reference[0] == '&',
        forall|j: int| 0 < j < reference.len() - 1 ==> reference[j] != ';',
        ends_in(e.push(reference.last()), reference),
    ensures
        has_open_reference(e),
{
    let s = e.push(reference.last());
    let start = s.len() - reference.len();
    assert(s.skip(start)[0] == s[start]);
    assert(e[start] == '&');
    assert forall|j: int| start < j < e.len() implies #[trigger] e[j] != ';' by {
        assert(s.skip(start)[j - start] == s[j]);
        assert(s[j] == e[j]);
    }
}

/// Reading undoes escaping: whatever a text was, it is read back unchanged.
pub proof fn law_unescaping_undoes_escaping(s: Seq<char>)
    ensures
        unescaped(escaped(s)) == s,
    decreases s.len(),
{
    lemma_references();
    if s.len() > 0 {
        let c = s.last();
        let front = escaped(s.drop_last());
        let end = escaped_char(c);
        let whole = escaped(s);
        law_unescaping_undoes_escaping(s.drop_last());
        lemma_references_are_closed(s.drop_last());
        assert(whole == front + end);
        assert(s.drop_last().push(c) == s);
        if c == '&' || c == '<' || c == '>' || c == '"' || c == '\'' {
            assert(whole.skip(whole.len() - end.len()) == end);
            assert(whole.take(whole.len() - end.len()) == front);
            lemma_one_reference(whole, end);
        } else {
            assert(whole == front.push(c));
            assert(whole.drop_last() == front);
            if ends_in(whole, "&amp;"@) {
                assert(whole.skip(whole.len() - 5)[4] == c);
                lemma_open(front, "&amp;"@);
            }
            if ends_in(whole, "&lt;"@) {
                assert(whole.skip(whole.len() - 4)[3] == c);
                lemma_open(front, "&lt;"@);
            }
            if ends_in(whole, "&gt;"@) {
                assert(whole.skip(whole.len() - 4)[3] == c);
                lemma_open(front, "&gt;"@);
            }
            if ends_in(whole, "&quot;"@) {
                assert(whole.skip(whole.len() - 6)[5] == c);
                lemma_open(front, "&quot;"@);
            }
            if ends_in(whole, "&#39;"@) {
                assert(whole.skip(whole.len() - 5)[4] == c);
                lemma_open(front, "&#39;"@);
            }
        }
    }
}

/// A text ends in at most one reference: the characters before the `;` tell
/// them apart.
proof fn lemma_one_reference(s: Seq<char>, end: Seq<char>)
    requires
        ends_in(s, end),
        end == "&amp;"@ || end == "&lt;"@ || end == "&gt;"@ || end == "&quot;"@ || end == "&#39;"@,
    ensures
        ends_in(s, "&amp;"@) <==> end == "&amp;"@,
        ends_in(s, "&lt;"@) <==> end == "&lt;"@,
        ends_in(s, "&gt;"@) <==> end == "&gt;"@,
        ends_in(s, "&quot;"@) <==> end == "&quot;"@,
        ends_in(s, "&#39;"@) <==> end == "&#39;"@,
{
    lemma_references();
    let n = s.len() as int;
    assert(end[end.len() - 2] == s.skip(n - end.len())[end.len() - 2]);
    assert(end[end.len() - 3] == s.skip(n - end.len())[end.len() - 3]);
    assert(s[n - 2] == end[end.len() - 2]);
    assert(s[n - 3] == end[end.len() - 3]);
    if ends_in(s, "&amp;"@) {
        assert(s.skip(n - 5)[3] == 'p');
    }
    if ends_in(s, "&lt;"@) {
        assert(s.skip(n - 4)[2] == 't');
        assert(s.skip(n - 4)[1] == 'l');
    }
    if ends_in(s, "&gt;"@) {
        assert(s.skip(n - 4)[2] == 't');
        assert(s.skip(n - 4)[1] == 'g');
    }
    if ends_in(s, "&quot;"@) {
        assert(s.skip(n - 6)[4] == 't');
        assert(s.skip(n - 6)[3] == 'o');
    }
    if ends_in(s, "&#39;"@) {
        assert(s.skip(n - 5)[3] == '9');
    }
}

/// The attributes of a tag: before each quoted value stands its name, between a
/// space and an equals sign.
pub open spec fn attributes_in(s: Seq<char>) -> Seq<(Seq<char>, Seq<char>)> {
    let parts = split(s, '"');
    Seq::new(
        (parts.len() / 2) as nat,
        |i: int|
            (parts[2 * i].subrange(1, parts[2 * i].len() - 1), unescaped(parts[2 * i + 1])),
    )
}

/// What stands between a `<` and the next: the tag up to the first `>`, and the
/// text after it.
pub open spec fn tag_in(piece: Seq<char>) -> Tag {
    let head = piece.take(leading(piece, '>') as int);
    let name = head.take(leading(head, ' ') as int);
    Tag {
        name,
        attributes: attributes_in(head.skip(name.len() as int)),
        text: unescaped(piece.skip(head.len() as int + 1)),
    }
}

/// The tags of a document, in order.
pub open spec fn read(xml: Seq<char>) -> Seq<Tag> {
    let pieces = split(xml, '<');
    Seq::new((pieces.len() - 1) as nat, |i: int| tag_in(pieces[i + 1]))
}

/// A tag that opens an element, and the text after it.
pub open spec fn opening(
    name: Seq<char>,
    attributes: Seq<(Seq<char>, Seq<char>)>,
    text: Seq<char>,
) -> Tag {
    Tag { name, attributes, text }
}

/// A tag that closes an element.
pub open spec fn closing(name: Seq<char>) -> Tag {
    Tag { name: "/"@ + name, attributes: Seq::empty(), text: Seq::empty() }
}

/// An attribute that may be absent.
pub open spec fn opt_pair(name: Seq<char>, value: Option<Seq<char>>) -> Seq<(Seq<char>, Seq<char>)> {
    match value {
        Some(v) => seq![(name, v)],
        None => Seq::empty(),
    }
}

/// Whether a text can stand as a name: no markup and no space.
pub open spec fn is_name(s: Seq<char>) -> bool {
    forall|i: int| 0 <= i < s.len() ==> !is_markup(#[trigger] s[i]) && s[i] != ' '
}

/// Whether a document is empty or begins with a tag.
pub open spec fn begins_a_tag(s: Seq<char>) -> bool {
    s.len() == 0 || s[0] == '<'
}

proof fn lemma_free(s: Seq<char>, sep: char)
    requires
        forall|i: int| 0 <= i < s.len() ==> s[i] != sep,
    ensures
        free_of(s, sep),
{
}

/// Splitting two texts with the separator between them splits each.
proof fn lemma_split_two(a: Seq<char>, b: Seq<char>, sep: char)
    ensures
        split(a.push(sep) + b, sep) == split(a, sep) + split(b, sep),
        split(b, sep).len() >= 1,
    decreases b.len(),
{
    let whole = a.push(sep) + b;
    if b.len() == 0 {
        assert(whole == a.push(sep));
        assert(whole.drop_last() == a);
        assert(split(a, sep).push(Seq::empty()) == split(a, sep) + split(b, sep));
    } else {
        let front = b.drop_last();
        lemma_split_two(a, front, sep);
        assert(whole.drop_last() == a.push(sep) + front);
        assert(whole.last() == b.last());
        let sa = split(a, sep);
        let sf = split(front, sep);
        assert((sa + sf).last() == sf.last());
        assert((sa + sf).drop_last() == sa + sf.drop_last());
        if b.last() == sep {
            assert((sa + sf).push(Seq::<char>::empty()) == sa + sf.push(Seq::empty()));
        } else {
            let last = sf.last().push(b.last());
            assert((sa + sf.drop_last()).push(last) == sa + sf.drop_last().push(last));
        }
    }
}

/// A text without the separator is added to the last piece.
proof fn lemma_split_more(a: Seq<char>, b: Seq<char>, sep: char)
    requires
        free_of(b, sep),
    ensures
        split(a, sep).len() >= 1,
        split(a + b, sep) == split(a, sep).drop_last().push(split(a, sep).last() + b),
    decreases b.len(),
{
    lemma_split_two(Seq::empty(), a, sep);
    let sa = split(a, sep);
    if b.len() == 0 {
        assert(a + b == a);
        assert(sa.last() + b == sa.last());
        assert(sa.drop_last().push(sa.last()) == sa);
    } else {
        let front = b.drop_last();
        assert(free_of(front, sep)) by {
            assert forall|i: int| 0 <= i < front.len() implies front[i] != sep by {
                assert(b[i] == front[i]);
                assert(b.contains(b[i]));
            }
        }
        lemma_split_more(a, front, sep);
        assert((a + b).drop_last() == a + front);
        assert((a + b).last() == b.last());
        assert(b.contains(b.last()));
        assert((sa.last() + front).push(b.last()) == sa.last() + b);
        let sf = sa.drop_last().push(sa.last() + front);
        assert(sf.drop_last() == sa.drop_last());
    }
}

proof fn lemma_split_one(s: Seq<char>, sep: char)
    requires
        free_of(s, sep),
    ensures
        split(s, sep) == seq![s],
{
    lemma_split_more(Seq::empty(), s, sep);
    assert(Seq::<char>::empty() + s == s);
    assert(split(Seq::<char>::empty(), sep) == seq![Seq::<char>::empty()]);
    assert(seq![Seq::<char>::empty()].drop_last().push(s) == seq![s]);
}

/// Documents are read one after another: a document that begins with a tag adds
/// its tags to what came before.
pub proof fn law_documents_are_read_in_order(a: Seq<char>, b: Seq<char>)
    requires
        begins_a_tag(b),
    ensures
        read(a + b) == read(a) + read(b),
{
    if b.len() == 0 {
        assert(a + b == a);
        assert(split(b, '<') == seq![Seq::<char>::empty()]);
        assert(read(b) == Seq::<Tag>::empty());
        assert(read(a) + read(b) == read(a));
    } else {
        let c = b.skip(1);
        assert(a + b == a.push('<') + c);
        assert(b == Seq::<char>::empty().push('<') + c);
        lemma_split_two(a, c, '<');
        lemma_split_two(Seq::empty(), c, '<');
        lemma_split_two(Seq::empty(), a, '<');
        let sa = split(a, '<');
        let sc = split(c, '<');
        assert(split(Seq::<char>::empty(), '<') == seq![Seq::<char>::empty()]);
        assert(split(b, '<') == seq![Seq::<char>::empty()] + sc);
        assert(read(b).len() == sc.len());
        assert forall|i: int| 0 <= i < read(a + b).len() implies read(a + b)[i] == (read(a) + read(
            b,
        ))[i] by {
            if i < read(a).len() {
                assert((sa + sc)[i + 1] == sa[i + 1]);
            } else {
                let k = i - read(a).len();
                assert((sa + sc)[i + 1] == sc[k]);
                assert(split(b, '<')[k + 1] == sc[k]);
            }
        }
    }
}

/// Whether attributes as they are written are those of a list: two pieces for
/// each between the quotation marks, and nothing after the last.
pub open spec fn are_written(attrs: Seq<char>, list: Seq<(Seq<char>, Seq<char>)>) -> bool {
    let parts = split(attrs, '"');
    &&& parts.len() == 2 * list.len() + 1
    &&& parts.last() == Seq::<char>::empty()
    &&& forall|i: int|
        0 <= i < list.len() ==> parts[2 * i] == " "@ + (#[trigger] list[i]).0 + "="@ && parts[2 * i
            + 1] == escaped(list[i].1)
    &&& attrs.len() == 0 || attrs[0] == ' '
    &&& forall|i: int| 0 <= i < attrs.len() ==> #[trigger] attrs[i] != '<' && attrs[i] != '>'
}

pub proof fn lemma_none_written()
    ensures
        are_written(Seq::empty(), Seq::empty()),
{
    assert(split(Seq::<char>::empty(), '"') == seq![Seq::<char>::empty()]);
}

pub proof fn lemma_one_more_written(
    attrs: Seq<char>,
    list: Seq<(Seq<char>, Seq<char>)>,
    name: Seq<char>,
    value: Seq<char>,
)
    requires
        are_written(attrs, list),
        is_name(name),
    ensures
        are_written(attrs + attr(name, value), list.push((name, value))),
{
    reveal_strlit(" ");
    reveal_strlit("=");
    reveal_strlit("=\"");
    reveal_strlit("\"");
    law_escaped_is_inert(value);
    let before = " "@ + name + "="@;
    let e = escaped(value);
    let none = Seq::<char>::empty();
    let whole = attrs + attr(name, value);
    assert("=\""@ == "="@.push('"'));
    assert(whole == ((attrs + before).push('"') + e).push('"') + none);
    assert(free_of(before, '"')) by {
        assert forall|i: int| 0 <= i < before.len() implies before[i] != '"' by {
            if 0 < i < before.len() - 1 {
                assert(before[i] == name[i - 1]);
            }
        }
    }
    assert(free_of(e, '"')) by {
        assert forall|i: int| 0 <= i < e.len() implies e[i] != '"' by {
            assert(!is_markup(e[i]));
        }
    }
    let p = split(attrs, '"');
    lemma_split_more(attrs, before, '"');
    assert(none + before == before);
    let p1 = p.drop_last().push(before);
    lemma_split_two(attrs + before, e, '"');
    lemma_split_one(e, '"');
    let p2 = p1.push(e);
    assert(p1 + seq![e] == p2);
    lemma_split_two((attrs + before).push('"') + e, none, '"');
    assert(split(none, '"') == seq![none]);
    let p3 = p2.push(none);
    assert(p2 + seq![none] == p3);
    assert(split(whole, '"') == p3);
    let more = list.push((name, value));
    assert forall|i: int| 0 <= i < more.len() implies p3[2 * i] == " "@ + (#[trigger] more[i]).0
        + "="@ && p3[2 * i + 1] == escaped(more[i].1) by {
        if i < list.len() {
            assert(more[i] == list[i]);
            assert(p3[2 * i] == p[2 * i]);
            assert(p3[2 * i + 1] == p[2 * i + 1]);
        }
    }
    lemma_attr_has_no_tag(name, value);
    let added = attr(name, value);
    assert forall|i: int| 0 <= i < whole.len() implies #[trigger] whole[i] != '<' && whole[i]
        != '>' by {
        if i < attrs.len() {
            assert(whole[i] == attrs[i]);
        } else {
            assert(whole[i] == added[i - attrs.len()]);
        }
    }
    assert(added[0] == ' ');
    if attrs.len() == 0 {
        assert(whole[0] == added[0]);
    } else {
        assert(whole[0] == attrs[0]);
    }
}

proof fn lemma_attr_has_no_tag(name: Seq<char>, value: Seq<char>)
    requires
        is_name(name),
    ensures
        forall|i: int|
            0 <= i < attr(name, value).len() ==> #[trigger] attr(name, value)[i] != '<' && attr(
                name,
                value,
            )[i] != '>',
        attr(name, value).len() > 0,
        attr(name, value)[0] == ' ',
{
    reveal_strlit(" ");
    reveal_strlit("=\"");
    reveal_strlit("\"");
    law_escaped_is_inert(value);
    let e = escaped(value);
    let a = attr(name, value);
    assert forall|i: int| 0 <= i < a.len() implies #[trigger] a[i] != '<' && a[i] != '>' by {
        if i == 0 {
        } else if i < 1 + name.len() {
            assert(a[i] == name[i - 1]);
        } else if i < 3 + name.len() {
        } else if i < 3 + name.len() + e.len() {
            assert(a[i] == e[i - 3 - name.len()]);
            assert(!is_markup(e[i - 3 - name.len()]));
        }
    }
}

pub proof fn lemma_one_more_if_any_written(
    attrs: Seq<char>,
    list: Seq<(Seq<char>, Seq<char>)>,
    name: Seq<char>,
    value: Option<Seq<char>>,
)
    requires
        are_written(attrs, list),
        is_name(name),
    ensures
        are_written(attrs + opt_attr(name, value), list + opt_pair(name, value)),
{
    match value {
        Some(v) => {
            lemma_one_more_written(attrs, list, name, v);
            assert(list + seq![(name, v)] == list.push((name, v)));
        },
        None => {
            assert(attrs + Seq::<char>::empty() == attrs);
            assert(list + Seq::<(Seq<char>, Seq<char>)>::empty() == list);
        },
    }
}

/// Attributes that are written are read back.
proof fn lemma_written_are_read(attrs: Seq<char>, list: Seq<(Seq<char>, Seq<char>)>)
    requires
        are_written(attrs, list),
    ensures
        attributes_in(attrs) == list,
{
    reveal_strlit(" ");
    reveal_strlit("=");
    let parts = split(attrs, '"');
    let back = attributes_in(attrs);
    assert(back.len() == list.len());
    assert forall|i: int| 0 <= i < list.len() implies back[i] == list[i] by {
        let (name, value) = list[i];
        let part = " "@ + name + "="@;
        assert(parts[2 * i] == part);
        assert(part.subrange(1, part.len() - 1) == name);
        law_unescaping_undoes_escaping(value);
    }
}

/// One tag and the text after it are read back.
pub proof fn lemma_tag_is_read(
    name: Seq<char>,
    attrs: Seq<char>,
    list: Seq<(Seq<char>, Seq<char>)>,
    text: Seq<char>,
)
    requires
        is_name(name),
        are_written(attrs, list),
    ensures
        read("<"@ + name + attrs + ">"@ + escaped(text)) == seq![opening(name, list, text)],
{
    reveal_strlit("<");
    reveal_strlit(">");
    law_escaped_is_inert(text);
    law_unescaping_undoes_escaping(text);
    lemma_written_are_read(attrs, list);
    let e = escaped(text);
    let head = name + attrs;
    let piece = head.push('>') + e;
    let none = Seq::<char>::empty();
    let whole = "<"@ + name + attrs + ">"@ + e;
    assert(whole == none.push('<') + piece);
    assert forall|i: int| 0 <= i < head.len() implies #[trigger] head[i] != '<' && head[i]
        != '>' by {
        if i < name.len() {
            assert(head[i] == name[i]);
        } else {
            assert(head[i] == attrs[i - name.len()]);
        }
    }
    assert(free_of(piece, '<')) by {
        assert forall|i: int| 0 <= i < piece.len() implies piece[i] != '<' by {
            if i < head.len() {
                assert(piece[i] == head[i]);
            } else if i > head.len() {
                assert(piece[i] == e[i - head.len() - 1]);
                assert(!is_markup(e[i - head.len() - 1]));
            }
        }
    }
    lemma_split_two(none, piece, '<');
    lemma_split_one(piece, '<');
    assert(split(none, '<') == seq![none]);
    assert(split(whole, '<') == seq![none] + seq![piece]);
    assert(piece[head.len() as int] == '>');
    assert forall|i: int| 0 <= i < head.len() implies piece[i] != '>' by {
        assert(piece[i] == head[i]);
    }
    lemma_leading_is(piece, '>', head.len() as int);
    assert(piece.take(head.len() as int) == head);
    assert(piece.skip(head.len() as int + 1) == e);
    assert forall|i: int| 0 <= i < name.len() implies head[i] != ' ' by {
        assert(head[i] == name[i]);
    }
    if attrs.len() > 0 {
        assert(head[name.len() as int] == attrs[0]);
    }
    lemma_leading_is(head, ' ', name.len() as int);
    assert(head.take(name.len() as int) == name);
    assert(head.skip(name.len() as int) == attrs);
    assert(tag_in(piece) == opening(name, list, text));
    assert(read(whole).len() == 1);
    assert(read(whole)[0] == tag_in(split(whole, '<')[1]));
}

/// A closing tag is read back.
pub proof fn lemma_closing_is_read(name: Seq<char>)
    requires
        is_name(name),
    ensures
        read("</"@ + name + ">"@) == seq![closing(name)],
{
    reveal_strlit("/");
    reveal_strlit("</");
    reveal_strlit("<");
    let none = Seq::<char>::empty();
    let slashed = "/"@ + name;
    assert(is_name(slashed)) by {
        assert forall|i: int| 0 <= i < slashed.len() implies !is_markup(#[trigger] slashed[i])
            && slashed[i] != ' ' by {
            if i > 0 {
                assert(slashed[i] == name[i - 1]);
            }
        }
    }
    lemma_none_written();
    lemma_tag_is_read(slashed, none, Seq::empty(), none);
    assert(escaped(none) == none);
    assert("</"@ + name + ">"@ == "<"@ + slashed + none + ">"@ + none);
}

/// An element is read back: the tag that opens it, what it holds, and the tag
/// that closes it.
pub proof fn lemma_element_is_read(
    name: Seq<char>,
    attrs: Seq<char>,
    list: Seq<(Seq<char>, Seq<char>)>,
    body: Seq<char>,
)
    requires
        is_name(name),
        are_written(attrs, list),
        begins_a_tag(body),
    ensures
        read(element(name, attrs, body)) == seq![opening(name, list, Seq::empty())] + read(body)
            + seq![closing(name)],
        begins_a_tag(element(name, attrs, body)),
        element(name, attrs, body).len() > 0,
{
    reveal_strlit("<");
    reveal_strlit("</");
    let none = Seq::<char>::empty();
    lemma_tag_is_read(name, attrs, list, none);
    assert(escaped(none) == none);
    lemma_closing_is_read(name);
    let open = "<"@ + name + attrs + ">"@ + none;
    let close = "</"@ + name + ">"@;
    assert(close[0] == '<');
    assert(element(name, attrs, body) == open + body + close);
    law_documents_are_read_in_order(open, body);
    law_documents_are_read_in_order(open + body, close);
    assert(element(name, attrs, body)[0] == '<');
}

/// An element that holds text is read back: the tag that opens it, with the
/// text, and the tag that closes it.
pub proof fn lemma_text_element_is_read(
    name: Seq<char>,
    attrs: Seq<char>,
    list: Seq<(Seq<char>, Seq<char>)>,
    text: Seq<char>,
)
    requires
        is_name(name),
        are_written(attrs, list),
    ensures
        read(text_element(name, attrs, text)) == seq![opening(name, list, text), closing(name)],
        begins_a_tag(text_element(name, attrs, text)),
        text_element(name, attrs, text).len() > 0,
{
    reveal_strlit("<");
    reveal_strlit("</");
    lemma_tag_is_read(name, attrs, list, text);
    lemma_closing_is_read(name);
    let open = "<"@ + name + attrs + ">"@ + escaped(text);
    let close = "</"@ + name + ">"@;
    assert(close[0] == '<');
    assert(text_element(name, attrs, text) == open + close);
    law_documents_are_read_in_order(open, close);
    assert(seq![opening(name, list, text)] + seq![closing(name)] == seq![
        opening(name, list, text),
        closing(name),
    ]);
    assert(text_element(name, attrs, text)[0] == '<');
}

pub proof fn lemma_nothing_is_read()
    ensures
        read(Seq::<char>::empty()) == Seq::<Tag>::empty(),
{
    let none = Seq::<char>::empty();
    law_documents_are_read_in_order(none, none);
    assert(none + none == none);
    assert(read(none).len() == read(none).len() + read(none).len());
}

pub proof fn lemma_begins(a: Seq<char>, b: Seq<char>)
    requires
        begins_a_tag(a),
        begins_a_tag(b),
    ensures
        begins_a_tag(a + b),
{
    if a.len() > 0 {
        assert((a + b)[0] == a[0]);
    } else if b.len() > 0 {
        assert((a + b)[0] == b[0]);
    }
}

/// One attribute alone is written.
pub proof fn lemma_one_written(name: Seq<char>, value: Seq<char>)
    requires
        is_name(name),
    ensures
        are_written(attr(name, value), seq![(name, value)]),
{
    lemma_none_written();
    let none = Seq::<char>::empty();
    let nothing = Seq::<(Seq<char>, Seq<char>)>::empty();
    lemma_one_more_written(none, nothing, name, value);
    assert(none + attr(name, value) == attr(name, value));
    assert(nothing.push((name, value)) == seq![(name, value)]);
}

/// An element that holds nothing is read back.
pub proof fn lemma_empty_element_is_read(
    name: Seq<char>,
    attrs: Seq<char>,
    list: Seq<(Seq<char>, Seq<char>)>,
)
    requires
        is_name(name),
        are_written(attrs, list),
    ensures
        read(element(name, attrs, Seq::empty())) == seq![
            opening(name, list, Seq::empty()),
            closing(name),
        ],
        begins_a_tag(element(name, attrs, Seq::empty())),
        element(name, attrs, Seq::empty()).len() > 0,
{
    lemma_nothing_is_read();
    lemma_element_is_read(name, attrs, list, Seq::empty());
}

} // verus!
