//! Where the signatures of a response and of its assertion stand.

use super::response::{AssertionView, ResponseView, SAMLP_NS, SAML_NS};
use super::response_xml::{
    attribute_statement_xml, authn_xml, conditions_xml, issuer_xml, message_attrs,
    opt_assertion_xml, response_xml, status_message_xml, status_xml, sub_code_xml, subject_xml,
};
use super::signing::{is_signature_place, with_signature, ISSUER_END};
use super::status::StatusView;
use crate::digest::{hex, hex_digit, is_new_id};
use crate::xml::{
    attr, element, escaped, escaped_char, is_first_at, lemma_stands_between, opt_attr, stands_at,
    text_element,
};
use vstd::prelude::*;

verus! {

/// Whether a text holds no tag.
spec fn no_tag(s: Seq<char>) -> bool {
    forall|i: int| 0 <= i < s.len() ==> #[trigger] s[i] != '<'
}

/// Whether a text holds no space.
spec fn no_space(s: Seq<char>) -> bool {
    forall|i: int| 0 <= i < s.len() ==> #[trigger] s[i] != ' '
}

proof fn lemma_no_tag_concat(a: Seq<char>, b: Seq<char>)
    requires
        no_tag(a),
        no_tag(b),
    ensures
        no_tag(a + b),
{
    assert forall|i: int| 0 <= i < (a + b).len() implies #[trigger] (a + b)[i] != '<' by {
        if i < a.len() {
            assert((a + b)[i] == a[i]);
        } else {
            assert((a + b)[i] == b[i - a.len()]);
        }
    }
}

proof fn lemma_escaped_no_tag(s: Seq<char>)
    ensures
        no_tag(escaped(s)),
{
    crate::xml::law_escaped_is_inert(s);
    assert forall|i: int| 0 <= i < escaped(s).len() implies #[trigger] escaped(s)[i] != '<' by {
        assert(!crate::xml::is_markup(escaped(s)[i]));
    }
}

proof fn lemma_escaped_no_space(s: Seq<char>)
    requires
        no_space(s),
    ensures
        no_space(escaped(s)),
    decreases s.len(),
{
    if s.len() > 0 {
        assert forall|i: int| 0 <= i < s.drop_last().len() implies #[trigger] s.drop_last()[i]
            != ' ' by {
            assert(s[i] == s.drop_last()[i]);
        }
        lemma_escaped_no_space(s.drop_last());
        reveal_strlit("&amp;");
        reveal_strlit("&lt;");
        reveal_strlit("&gt;");
        reveal_strlit("&quot;");
        reveal_strlit("&#39;");
        let a = escaped(s.drop_last());
        let b = crate::xml::escaped_char(s.last());
        assert(s[s.len() - 1] != ' ');
        assert forall|i: int| 0 <= i < escaped(s).len() implies #[trigger] escaped(s)[i] != ' ' by {
            if i < a.len() {
                assert((a + b)[i] == a[i]);
            } else {
                assert((a + b)[i] == b[i - a.len()]);
            }
        }
    }
}

proof fn lemma_attr_no_tag(name: Seq<char>, value: Seq<char>)
    requires
        no_tag(name),
    ensures
        no_tag(attr(name, value)),
{
    reveal_strlit(" ");
    reveal_strlit("=\"");
    reveal_strlit("\"");
    lemma_escaped_no_tag(value);
    lemma_no_tag_concat(" "@, name);
    lemma_no_tag_concat(" "@ + name, "=\""@);
    lemma_no_tag_concat(" "@ + name + "=\""@, escaped(value));
    lemma_no_tag_concat(" "@ + name + "=\""@ + escaped(value), "\""@);
}

/// In an attribute whose name and value hold no space, the one space is at its
/// beginning, and the first character of the name follows.
proof fn lemma_attr_space(name: Seq<char>, value: Seq<char>)
    requires
        no_space(name),
        no_space(value),
        name.len() > 0,
    ensures
        attr(name, value).len() > 1,
        attr(name, value)[0] == ' ',
        attr(name, value)[1] == name[0],
        forall|i: int|
            0 < i < attr(name, value).len() ==> #[trigger] attr(name, value)[i] != ' ',
{
    reveal_strlit(" ");
    reveal_strlit("=\"");
    reveal_strlit("\"");
    lemma_escaped_no_space(value);
    let a = " "@ + name;
    let b = a + "=\""@;
    let c = b + escaped(value);
    let whole = c + "\""@;
    assert forall|i: int| 0 < i < whole.len() implies #[trigger] whole[i] != ' ' by {
        if i < a.len() {
            assert(whole[i] == name[i - 1]);
        } else if i < b.len() {
            assert(whole[i] == "=\""@[i - a.len()]);
        } else if i < c.len() {
            assert(whole[i] == escaped(value)[i - b.len()]);
        } else {
            assert(whole[i] == "\""@[i - c.len()]);
        }
    }
}

/// Whether every space in a text is followed by an `x`.
spec fn spaces_before_x(s: Seq<char>) -> bool {
    forall|i: int|
        0 <= i < s.len() && #[trigger] s[i] == ' ' ==> i + 1 < s.len() && s[i + 1] == 'x'
}

/// What stands before the identifier of a response.
spec fn before_id() -> Seq<char> {
    "<"@ + "samlp:Response"@ + attr("xmlns:samlp"@, SAMLP_NS@) + attr("xmlns:saml"@, SAML_NS@)
}

proof fn lemma_before_id()
    ensures
        spaces_before_x(before_id()),
        before_id().len() > 0,
{
    reveal_strlit("<");
    reveal_strlit("samlp:Response");
    reveal_strlit("xmlns:samlp");
    reveal_strlit("xmlns:saml");
    reveal_strlit("urn:oasis:names:tc:SAML:2.0:protocol");
    reveal_strlit("urn:oasis:names:tc:SAML:2.0:assertion");
    let a = attr("xmlns:samlp"@, SAMLP_NS@);
    let b = attr("xmlns:saml"@, SAML_NS@);
    lemma_attr_space("xmlns:samlp"@, SAMLP_NS@);
    lemma_attr_space("xmlns:saml"@, SAML_NS@);
    let head = "<"@ + "samlp:Response"@;
    let whole = head + a + b;
    assert(whole == before_id());
    assert(no_space(head)) by {
        assert forall|i: int| 0 <= i < head.len() implies #[trigger] head[i] != ' ' by {
            if i >= 1 {
                assert(head[i] == "samlp:Response"@[i - 1]);
            }
        }
    }
    assert forall|i: int| 0 <= i < whole.len() && #[trigger] whole[i] == ' ' implies i + 1
        < whole.len() && whole[i + 1] == 'x' by {
        if i < head.len() {
            assert(whole[i] == head[i]);
        } else if i < head.len() + a.len() {
            assert(whole[i] == a[i - head.len()]);
            assert(i == head.len());
            assert(whole[i + 1] == a[1]);
        } else {
            assert(whole[i] == b[i - head.len() - a.len()]);
            assert(i == head.len() + a.len());
            assert(whole[i + 1] == b[1]);
        }
    }
}

/// The attributes of a response after its identifier.
spec fn after_id(r: ResponseView) -> Seq<char> {
    attr("Version"@, "2.0"@) + attr("IssueInstant"@, r.issue_instant.text()) + attr(
        "Destination"@,
        r.destination,
    ) + opt_attr("InResponseTo"@, r.in_response_to)
}

proof fn lemma_after_id(r: ResponseView)
    ensures
        no_tag(after_id(r)),
        no_tag(attr("ID"@, r.id)),
{
    reveal_strlit("ID");
    reveal_strlit("Version");
    reveal_strlit("IssueInstant");
    reveal_strlit("Destination");
    reveal_strlit("InResponseTo");
    lemma_attr_no_tag("ID"@, r.id);
    let a = attr("Version"@, "2.0"@);
    let b = attr("IssueInstant"@, r.issue_instant.text());
    let c = attr("Destination"@, r.destination);
    let d = opt_attr("InResponseTo"@, r.in_response_to);
    lemma_attr_no_tag("Version"@, "2.0"@);
    lemma_attr_no_tag("IssueInstant"@, r.issue_instant.text());
    lemma_attr_no_tag("Destination"@, r.destination);
    if let Some(v) = r.in_response_to {
        lemma_attr_no_tag("InResponseTo"@, v);
    }
    lemma_no_tag_concat(a, b);
    lemma_no_tag_concat(a + b, c);
    lemma_no_tag_concat(a + b + c, d);
}

/// A response up to the end of its Issuer.
pub open spec fn up_to_issuer(r: ResponseView) -> Seq<char> {
    "<"@ + "samlp:Response"@ + (attr("xmlns:samlp"@, SAMLP_NS@) + attr("xmlns:saml"@, SAML_NS@)
        + message_attrs(r.id, r.issue_instant) + attr("Destination"@, r.destination) + opt_attr(
        "InResponseTo"@,
        r.in_response_to,
    )) + ">"@ + issuer_xml(r.issuer)
}

/// A response after its Issuer.
pub open spec fn after_issuer(r: ResponseView) -> Seq<char> {
    status_xml(r.status) + opt_assertion_xml(r.assertion) + "</"@ + "samlp:Response"@ + ">"@
}

proof fn lemma_regroup_body(x: Seq<char>, i: Seq<char>, s: Seq<char>, a: Seq<char>, t: Seq<char>)
    ensures
        x + (i + s + a) + t == (x + i) + (s + a + t),
{
    assert(x + (i + s + a) + t =~= (x + i) + (s + a + t));
}

proof fn lemma_regroup_attrs(
    h: Seq<char>,
    n1: Seq<char>,
    n2: Seq<char>,
    id: Seq<char>,
    v: Seq<char>,
    t: Seq<char>,
    d: Seq<char>,
    i: Seq<char>,
)
    ensures
        h + (n1 + n2 + (id + v + t) + d + i) == (h + n1 + n2) + id + (v + t + d + i),
{
    assert(h + (n1 + n2 + (id + v + t) + d + i) =~= (h + n1 + n2) + id + (v + t + d + i));
}

proof fn lemma_response_parts(r: ResponseView)
    ensures
        response_xml(r) == up_to_issuer(r) + after_issuer(r),
{
    reveal(response_xml);
    let attrs = attr("xmlns:samlp"@, SAMLP_NS@) + attr("xmlns:saml"@, SAML_NS@) + message_attrs(
        r.id,
        r.issue_instant,
    ) + attr("Destination"@, r.destination) + opt_attr("InResponseTo"@, r.in_response_to);
    let x = "<"@ + "samlp:Response"@ + attrs + ">"@;
    let i = issuer_xml(r.issuer);
    let s = status_xml(r.status);
    let a = opt_assertion_xml(r.assertion);
    lemma_regroup_close(x, i + s + a, "</"@, "samlp:Response"@, ">"@);
    lemma_regroup_body(x, i, s, a, "</"@ + "samlp:Response"@ + ">"@);
    lemma_regroup_tail(s, a, "</"@, "samlp:Response"@, ">"@);
}

proof fn lemma_regroup_close(x: Seq<char>, b: Seq<char>, u: Seq<char>, n: Seq<char>, g: Seq<char>)
    ensures
        x + b + u + n + g == x + b + (u + n + g),
{
    assert(x + b + u + n + g =~= x + b + (u + n + g));
}

proof fn lemma_regroup_tail(s: Seq<char>, a: Seq<char>, u: Seq<char>, n: Seq<char>, g: Seq<char>)
    ensures
        s + a + (u + n + g) == s + a + u + n + g,
{
    assert(s + a + (u + n + g) =~= s + a + u + n + g);
}

proof fn lemma_front_parts(r: ResponseView)
    ensures
        up_to_issuer(r) == before_id() + attr("ID"@, r.id) + after_id(r) + ">"@ + issuer_xml(
            r.issuer,
        ),
{
    lemma_regroup_attrs(
        "<"@ + "samlp:Response"@,
        attr("xmlns:samlp"@, SAMLP_NS@),
        attr("xmlns:saml"@, SAML_NS@),
        attr("ID"@, r.id),
        attr("Version"@, "2.0"@),
        attr("IssueInstant"@, r.issue_instant.text()),
        attr("Destination"@, r.destination),
        opt_attr("InResponseTo"@, r.in_response_to),
    );
}

proof fn lemma_issuer_parts(issuer: Seq<char>)
    ensures
        issuer_xml(issuer) == "<saml:Issuer>"@ + escaped(issuer) + ISSUER_END@,
{
    reveal_strlit("<saml:Issuer>");
    reveal_strlit("</saml:Issuer>");
    reveal_strlit("<");
    reveal_strlit("</");
    reveal_strlit(">");
    reveal_strlit("saml:Issuer");
    assert("<saml:Issuer>"@ =~= "<"@ + "saml:Issuer"@ + Seq::<char>::empty() + ">"@);
    assert(ISSUER_END@ =~= "</"@ + "saml:Issuer"@ + ">"@);
    lemma_regroup_close(
        "<saml:Issuer>"@,
        escaped(issuer),
        "</"@,
        "saml:Issuer"@,
        ">"@,
    );
}

/// Where the Issuer ends that follows an identifier: the first place, where
/// nothing else before it opens a closing tag.
proof fn lemma_issuer_end(
    xml: Seq<char>,
    a: Seq<char>,
    marker: Seq<char>,
    b: Seq<char>,
    open: Seq<char>,
    text: Seq<char>,
    end: Seq<char>,
    rest: Seq<char>,
)
    requires
        xml == a + marker + b + open + text + end + rest,
        no_tag(marker),
        no_tag(b),
        no_tag(text),
        open.len() > 2,
        open[1] == '<',
        open[2] == 's',
        forall|i: int| 0 <= i < open.len() && i != 1 ==> #[trigger] open[i] != '<',
        end.len() > 1,
        end[0] == '<',
        end[1] == '/',
    ensures
        is_first_at(xml, end, a.len() as int, (a + marker + b + open + text).len() as int),
{
    let p = a.len() as int;
    let front = a + marker + b + open + text;
    let q = front.len() as int;
    assert(xml =~= front + end + rest);
    lemma_stands_between(front, end, rest);
    let q0 = (a + marker + b).len() as int;
    assert forall|k: int| p <= k < q implies !#[trigger] stands_at(xml, end, k) by {
        if stands_at(xml, end, k) {
            let sub = xml.subrange(k, k + end.len());
            assert(sub[0] == xml[k] && sub[1] == xml[k + 1]);
            assert(xml[k] == front[k]);
            if k < p + marker.len() {
                assert(front[k] == marker[k - p]);
            } else if k < q0 {
                assert(front[k] == b[k - p - marker.len()]);
            } else if k < q0 + open.len() {
                assert(front[k] == open[k - q0]);
                assert(k == q0 + 1);
                assert(xml[k + 1] == open[2]);
            } else {
                assert(front[k] == text[k - q0 - open.len()]);
            }
        }
    }
}

/// Where the identifier of a response first stands.
proof fn lemma_first_marker(a: Seq<char>, marker: Seq<char>, tail: Seq<char>)
    requires
        spaces_before_x(a),
        marker.len() > 1,
        marker[0] == ' ',
        marker[1] == 'I',
    ensures
        is_first_at(a + marker + tail, marker, 0, a.len() as int),
{
    let xml = a + marker + tail;
    lemma_stands_between(a, marker, tail);
    assert forall|k: int| 0 <= k < a.len() implies !#[trigger] stands_at(xml, marker, k) by {
        if stands_at(xml, marker, k) {
            let sub = xml.subrange(k, k + marker.len());
            assert(sub[0] == xml[k] && sub[1] == xml[k + 1]);
            assert(xml[k] == a[k]);
            assert(a[k] == ' ');
            assert(xml[k + 1] == a[k + 1]);
        }
    }
}

/// The signature of a response stands right after the response's own Issuer,
/// where the schema has it, and there always is a place for it.
pub proof fn law_response_signature_follows_its_issuer(r: ResponseView, piece: Seq<char>)
    ensures
        with_signature(response_xml(r), r.id, piece) == Some(
            up_to_issuer(r) + piece + after_issuer(r),
        ),
{
    let xml = response_xml(r);
    let a = before_id();
    let marker = attr("ID"@, r.id);
    let b = after_id(r);
    let open = ">"@ + "<saml:Issuer>"@;
    let text = escaped(r.issuer);
    let rest = after_issuer(r);
    lemma_response_parts(r);
    lemma_front_parts(r);
    lemma_issuer_parts(r.issuer);
    lemma_before_id();
    lemma_after_id(r);
    lemma_escaped_no_tag(r.issuer);
    let front = a + marker + b + open + text;
    assert(up_to_issuer(r) == front + ISSUER_END@) by {
        lemma_regroup_front(a + marker + b, ">"@, "<saml:Issuer>"@, text, ISSUER_END@);
    }
    lemma_marker(r.id);
    lemma_open();
    assert(xml == front + ISSUER_END@ + rest);
    let tail = b + open + text + ISSUER_END@ + rest;
    lemma_regroup_marker(a, marker, b, open, text, ISSUER_END@, rest);
    lemma_first_marker(a, marker, tail);
    lemma_issuer_end(xml, a, marker, b, open, text, ISSUER_END@, rest);
    let at = front.len() + ISSUER_END@.len();
    assert(is_signature_place(xml, r.id, at as int));
    super::signing::lemma_place_is_only(
        xml,
        r.id,
        at as int,
        choose|x: int| is_signature_place(xml, r.id, x),
    );
    lemma_cut(up_to_issuer(r), rest);
}

proof fn lemma_regroup_marker(
    a: Seq<char>,
    m: Seq<char>,
    b: Seq<char>,
    o: Seq<char>,
    t: Seq<char>,
    e: Seq<char>,
    r: Seq<char>,
)
    ensures
        a + m + b + o + t + e + r == a + m + (b + o + t + e + r),
{
    assert(a + m + b + o + t + e + r =~= a + m + (b + o + t + e + r));
}

proof fn lemma_cut(a: Seq<char>, b: Seq<char>)
    ensures
        (a + b).take(a.len() as int) == a,
        (a + b).skip(a.len() as int) == b,
{
    assert((a + b).take(a.len() as int) =~= a);
    assert((a + b).skip(a.len() as int) =~= b);
}

proof fn lemma_regroup_front(x: Seq<char>, g: Seq<char>, o: Seq<char>, t: Seq<char>, e: Seq<char>)
    ensures
        x + g + (o + t + e) == x + (g + o) + t + e,
{
    assert(x + g + (o + t + e) =~= x + (g + o) + t + e);
}

proof fn lemma_marker(id: Seq<char>)
    ensures
        attr("ID"@, id).len() > 1,
        attr("ID"@, id)[0] == ' ',
        attr("ID"@, id)[1] == 'I',
{
    reveal_strlit(" ");
    reveal_strlit("ID");
}

proof fn lemma_open()
    ensures
        ({
            let open = ">"@ + "<saml:Issuer>"@;
            &&& open.len() > 2
            &&& open[1] == '<'
            &&& open[2] == 's'
            &&& forall|i: int| 0 <= i < open.len() && i != 1 ==> #[trigger] open[i] != '<'
        }),
        ISSUER_END@.len() > 1,
        ISSUER_END@[0] == '<',
        ISSUER_END@[1] == '/',
{
    reveal_strlit(">");
    reveal_strlit("<saml:Issuer>");
    reveal_strlit("</saml:Issuer>");
}

/// Whether a text holds no quotation mark.
spec fn no_quote(s: Seq<char>) -> bool {
    forall|i: int| 0 <= i < s.len() ==> #[trigger] s[i] != '"'
}

/// Whether a character is one that a piece of a document begins with.
spec fn begins_piece(c: char) -> bool {
    c == ' ' || c == '<' || c == '>'
}

/// Whether a text is one that an identifier attribute can be: a space, then
/// characters none of which a piece begins with, with a quotation mark among
/// them in fifth place.
spec fn is_marker(m: Seq<char>) -> bool {
    &&& m.len() > 5
    &&& m[0] == ' '
    &&& m[1] == 'I'
    &&& m[2] == 'D'
    &&& m[3] == '='
    &&& m[4] == '"'
    &&& forall|i: int| 1 <= i < m.len() ==> !begins_piece(#[trigger] m[i])
}

/// Whether a text is a piece of a document that does not hold a marker.
spec fn is_free_piece(s: Seq<char>, m: Seq<char>) -> bool {
    &&& s.len() == 0 || begins_piece(s[0])
    &&& forall|k: int| !#[trigger] stands_at(s, m, k)
}

proof fn lemma_free_concat(a: Seq<char>, b: Seq<char>, m: Seq<char>)
    requires
        is_marker(m),
        is_free_piece(a, m),
        is_free_piece(b, m),
    ensures
        is_free_piece(a + b, m),
{
    let s = a + b;
    if s.len() > 0 {
        if a.len() > 0 {
            assert(s[0] == a[0]);
        } else {
            assert(s[0] == b[0]);
        }
    }
    assert forall|k: int| !#[trigger] stands_at(s, m, k) by {
        if stands_at(s, m, k) {
            let sub = s.subrange(k, k + m.len());
            if k + m.len() <= a.len() {
                assert(a.subrange(k, k + m.len()) =~= sub);
                assert(stands_at(a, m, k));
            } else if k >= a.len() {
                assert(b.subrange(k - a.len(), k - a.len() + m.len()) =~= sub);
                assert(stands_at(b, m, k - a.len()));
            } else {
                let i = a.len() - k;
                assert(sub[i] == s[a.len() as int]);
                assert(s[a.len() as int] == b[0]);
                assert(m[i] == b[0]);
            }
        }
    }
}

proof fn lemma_free_without_quote(s: Seq<char>, m: Seq<char>)
    requires
        is_marker(m),
        no_quote(s),
        s.len() == 0 || begins_piece(s[0]),
    ensures
        is_free_piece(s, m),
{
    assert forall|k: int| !#[trigger] stands_at(s, m, k) by {
        if stands_at(s, m, k) {
            let sub = s.subrange(k, k + m.len());
            assert(sub[4] == s[k + 4]);
        }
    }
}

proof fn lemma_escaped_no_quote(s: Seq<char>)
    ensures
        no_quote(escaped(s)),
{
    crate::xml::law_escaped_is_inert(s);
    assert forall|i: int| 0 <= i < escaped(s).len() implies #[trigger] escaped(s)[i] != '"' by {
        assert(!crate::xml::is_markup(escaped(s)[i]));
    }
}

proof fn lemma_no_quote_concat(a: Seq<char>, b: Seq<char>)
    requires
        no_quote(a),
        no_quote(b),
    ensures
        no_quote(a + b),
{
    assert forall|i: int| 0 <= i < (a + b).len() implies #[trigger] (a + b)[i] != '"' by {
        if i < a.len() {
            assert((a + b)[i] == a[i]);
        } else {
            assert((a + b)[i] == b[i - a.len()]);
        }
    }
}

/// Where quotation marks stand in an attribute.
proof fn lemma_attr_quotes(name: Seq<char>, value: Seq<char>)
    requires
        no_quote(name),
    ensures
        ({
            let s = attr(name, value);
            let open = name.len() as int + 2;
            let close = name.len() as int + 3 + escaped(value).len();
            &&& s.len() == close + 1
            &&& s[0] == ' '
            &&& s[open - 1] == '='
            &&& s[open] == '"'
            &&& s[close] == '"'
            &&& forall|i: int| 0 <= i < name.len() ==> #[trigger] s[i + 1] == name[i]
            &&& forall|i: int|
                0 <= i < s.len() && i != open && i != close ==> #[trigger] s[i] != '"'
            &&& s.subrange(open + 1, close) == escaped(value)
        }),
{
    reveal_strlit(" ");
    reveal_strlit("=\"");
    reveal_strlit("\"");
    lemma_escaped_no_quote(value);
    let s = attr(name, value);
    let e = escaped(value);
    let open = name.len() as int + 2;
    let close = name.len() as int + 3 + e.len();
    assert(s.subrange(open + 1, close) =~= e);
    assert forall|i: int| 0 <= i < s.len() && i != open && i != close implies #[trigger] s[i]
        != '"' by {
        if 1 <= i < 1 + name.len() {
            assert(s[i] == name[i - 1]);
        } else if open < i < close {
            assert(s[i] == e[i - open - 1]);
        }
    }
}

/// An attribute of another name holds no identifier.
proof fn lemma_free_attr(name: Seq<char>, value: Seq<char>, m: Seq<char>)
    requires
        is_marker(m),
        no_quote(name),
        no_space(name),
        name != "ID"@,
    ensures
        is_free_piece(attr(name, value), m),
{
    let s = attr(name, value);
    lemma_attr_quotes(name, value);
    reveal_strlit("ID");
    assert forall|k: int| !#[trigger] stands_at(s, m, k) by {
        if stands_at(s, m, k) {
            let sub = s.subrange(k, k + m.len());
            assert(sub[0] == s[k] && sub[1] == s[k + 1] && sub[2] == s[k + 2]);
            assert(sub[4] == s[k + 4]);
            assert(k + 4 == name.len() + 2);
            if k > 0 {
                assert(s[(k - 1) + 1] == name[k - 1]);
            } else {
                assert(s[0int + 1] == name[0]);
                assert(s[1int + 1] == name[1]);
                assert(name =~= "ID"@);
            }
        }
    }
}

/// The attribute of another identifier is not that of this one.
proof fn lemma_free_id(id: Seq<char>, other: Seq<char>)
    requires
        is_marker(attr("ID"@, id)),
        escaped(other) != escaped(id),
    ensures
        is_free_piece(attr("ID"@, other), attr("ID"@, id)),
{
    let s = attr("ID"@, other);
    let m = attr("ID"@, id);
    reveal_strlit("ID");
    lemma_attr_quotes("ID"@, other);
    lemma_attr_quotes("ID"@, id);
    assert forall|k: int| !#[trigger] stands_at(s, m, k) by {
        if stands_at(s, m, k) {
            let sub = s.subrange(k, k + m.len());
            assert(sub[4] == s[k + 4]);
            assert(k == 0);
            let close = m.len() - 1;
            assert(sub[close] == s[close]);
            assert(s[close] == '"');
            assert(s.len() == m.len());
            assert(sub =~= s);
            assert(s.subrange(5, close) == escaped(other));
        }
    }
}

proof fn lemma_free_opt_attr(name: Seq<char>, value: Option<Seq<char>>, m: Seq<char>)
    requires
        is_marker(m),
        no_quote(name),
        no_space(name),
        name != "ID"@,
    ensures
        is_free_piece(opt_attr(name, value), m),
{
    if let Some(v) = value {
        lemma_free_attr(name, v, m);
    } else {
        lemma_free_without_quote(Seq::empty(), m);
    }
}

proof fn lemma_open_tag(name: Seq<char>, m: Seq<char>)
    requires
        is_marker(m),
        no_quote(name),
    ensures
        is_free_piece("<"@ + name, m),
        is_free_piece("</"@ + name + ">"@, m),
        is_free_piece(">"@, m),
{
    reveal_strlit("<");
    reveal_strlit("</");
    reveal_strlit(">");
    lemma_no_quote_concat("<"@, name);
    lemma_no_quote_concat("</"@, name);
    lemma_no_quote_concat("</"@ + name, ">"@);
    lemma_free_without_quote("<"@ + name, m);
    lemma_free_without_quote("</"@ + name + ">"@, m);
    lemma_free_without_quote(">"@, m);
}

/// An element of free pieces is one.
proof fn lemma_free_element(name: Seq<char>, attrs: Seq<char>, body: Seq<char>, m: Seq<char>)
    requires
        is_marker(m),
        no_quote(name),
        is_free_piece(attrs, m),
        is_free_piece(body, m),
    ensures
        is_free_piece(element(name, attrs, body), m),
{
    lemma_open_tag(name, m);
    lemma_free_concat("<"@ + name, attrs, m);
    lemma_free_concat("<"@ + name + attrs, ">"@, m);
    lemma_free_concat("<"@ + name + attrs + ">"@, body, m);
    lemma_free_concat("<"@ + name + attrs + ">"@ + body, "</"@ + name + ">"@, m);
    lemma_regroup_close("<"@ + name + attrs + ">"@, body, "</"@, name, ">"@);
}

/// An element of text without attributes is a free piece.
proof fn lemma_free_text(name: Seq<char>, text: Seq<char>, m: Seq<char>)
    requires
        is_marker(m),
        no_quote(name),
    ensures
        is_free_piece(text_element(name, Seq::empty(), text), m),
{
    reveal_strlit(">");
    let e = escaped(text);
    lemma_escaped_no_quote(text);
    lemma_open_tag(name, m);
    lemma_no_quote_concat(">"@, e);
    assert((">"@ + e)[0] == '>');
    lemma_free_without_quote(">"@ + e, m);
    lemma_free_concat("<"@ + name, ">"@ + e, m);
    lemma_free_concat("<"@ + name + (">"@ + e), "</"@ + name + ">"@, m);
    assert("<"@ + name + Seq::<char>::empty() + ">"@ + e + "</"@ + name + ">"@ =~= "<"@ + name + (
    ">"@ + e) + ("</"@ + name + ">"@));
}

proof fn lemma_free_status(s: StatusView, m: Seq<char>)
    requires
        is_marker(m),
    ensures
        is_free_piece(status_xml(s), m),
{
    reveal_strlit("samlp:StatusCode");
    reveal_strlit("samlp:StatusMessage");
    reveal_strlit("samlp:Status");
    reveal_strlit("Value");
    reveal_strlit("ID");
    assert("Value"@.len() != "ID"@.len());
    lemma_free_without_quote(Seq::empty(), m);
    if let Some(c) = s.sub_code {
        lemma_free_attr("Value"@, c, m);
        lemma_free_element("samlp:StatusCode"@, attr("Value"@, c), Seq::empty(), m);
    }
    lemma_free_attr("Value"@, s.code, m);
    lemma_free_element("samlp:StatusCode"@, attr("Value"@, s.code), sub_code_xml(s.sub_code), m);
    if let Some(t) = s.message {
        lemma_free_text("samlp:StatusMessage"@, t, m);
    }
    lemma_free_concat(
        element("samlp:StatusCode"@, attr("Value"@, s.code), sub_code_xml(s.sub_code)),
        status_message_xml(s.message),
        m,
    );
    lemma_free_element(
        "samlp:Status"@,
        Seq::empty(),
        element("samlp:StatusCode"@, attr("Value"@, s.code), sub_code_xml(s.sub_code))
            + status_message_xml(s.message),
        m,
    );
}

/// A response up to its Issuer holds no identifier but its own.
proof fn lemma_free_front(r: ResponseView, id: Seq<char>)
    requires
        is_marker(attr("ID"@, id)),
        escaped(r.id) != escaped(id),
    ensures
        is_free_piece(up_to_issuer(r), attr("ID"@, id)),
{
    let m = attr("ID"@, id);
    reveal_strlit("ID");
    reveal_strlit("samlp:Response");
    reveal_strlit("xmlns:samlp");
    reveal_strlit("xmlns:saml");
    reveal_strlit("Version");
    reveal_strlit("IssueInstant");
    reveal_strlit("Destination");
    reveal_strlit("InResponseTo");
    reveal_strlit("saml:Issuer");
    assert("xmlns:samlp"@.len() != 2 && "xmlns:saml"@.len() != 2 && "Version"@.len() != 2);
    assert("IssueInstant"@.len() != 2 && "Destination"@.len() != 2 && "InResponseTo"@.len() != 2);
    lemma_open_tag("samlp:Response"@, m);
    let head = "<"@ + "samlp:Response"@;
    let n1 = attr("xmlns:samlp"@, SAMLP_NS@);
    let n2 = attr("xmlns:saml"@, SAML_NS@);
    let own = attr("ID"@, r.id);
    let v = attr("Version"@, "2.0"@);
    let t = attr("IssueInstant"@, r.issue_instant.text());
    let d = attr("Destination"@, r.destination);
    let i = opt_attr("InResponseTo"@, r.in_response_to);
    lemma_free_attr("xmlns:samlp"@, SAMLP_NS@, m);
    lemma_free_attr("xmlns:saml"@, SAML_NS@, m);
    lemma_free_id(id, r.id);
    lemma_free_attr("Version"@, "2.0"@, m);
    lemma_free_attr("IssueInstant"@, r.issue_instant.text(), m);
    lemma_free_attr("Destination"@, r.destination, m);
    lemma_free_opt_attr("InResponseTo"@, r.in_response_to, m);
    lemma_free_concat(own, v, m);
    lemma_free_concat(own + v, t, m);
    lemma_free_concat(n1, n2, m);
    lemma_free_concat(n1 + n2, own + v + t, m);
    lemma_free_concat(n1 + n2 + (own + v + t), d, m);
    lemma_free_concat(n1 + n2 + (own + v + t) + d, i, m);
    let attrs = n1 + n2 + (own + v + t) + d + i;
    lemma_free_concat(head, attrs, m);
    lemma_free_concat(head + attrs, ">"@, m);
    lemma_free_text("saml:Issuer"@, r.issuer, m);
    lemma_free_concat(head + attrs + ">"@, issuer_xml(r.issuer), m);
}

/// Whether a character neither begins a piece nor is escaped.
spec fn is_plain(c: char) -> bool {
    !begins_piece(c) && escaped_char(c) == seq![c]
}

proof fn lemma_hex_digit_is_plain(n: int)
    ensures
        is_plain(hex_digit(n)),
{
}

proof fn lemma_new_id_is_plain(id: Seq<char>)
    requires
        is_new_id(id),
    ensures
        forall|i: int| 0 <= i < id.len() ==> is_plain(#[trigger] id[i]),
        id.len() > 0,
{
    reveal_strlit("_");
    let seed = choose|seed: Seq<u8>| seed.len() == 32 && id == "_"@ + #[trigger] hex(seed);
    assert forall|i: int| 0 <= i < id.len() implies is_plain(#[trigger] id[i]) by {
        if i > 0 {
            let j = i - 1;
            assert(id[i] == hex(seed)[j]);
            lemma_hex_digit_is_plain(seed[j / 2] as int / 16);
            lemma_hex_digit_is_plain(seed[j / 2] as int % 16);
        } else {
            assert(id[0] == '_');
        }
    }
}

/// The identifiers that the library makes are quiet: escaping leaves them as
/// they are, and no piece of a document begins with a character of theirs.
proof fn lemma_new_id(id: Seq<char>)
    requires
        is_new_id(id),
    ensures
        escaped(id) == id,
        is_marker(attr("ID"@, id)),
{
    lemma_new_id_is_plain(id);
    assert forall|i: int| 0 <= i < id.len() implies escaped_char(#[trigger] id[i]) == seq![
        id[i],
    ] by {
        assert(is_plain(id[i]));
    }
    lemma_escaped_plain(id);
    assert forall|i: int| 0 <= i < id.len() implies !begins_piece(#[trigger] id[i]) by {
        assert(is_plain(id[i]));
    }
    lemma_id_marker(id);
}

proof fn lemma_id_marker(id: Seq<char>)
    requires
        escaped(id) == id,
        id.len() > 0,
        forall|i: int| 0 <= i < id.len() ==> !begins_piece(#[trigger] id[i]),
    ensures
        is_marker(attr("ID"@, id)),
{
    reveal_strlit(" ");
    reveal_strlit("ID");
    reveal_strlit("=\"");
    reveal_strlit("\"");
    let m = attr("ID"@, id);
    assert(m == " "@ + "ID"@ + "=\""@ + id + "\""@);
    assert forall|i: int| 1 <= i < m.len() implies !begins_piece(#[trigger] m[i]) by {
        if 5 <= i < 5 + id.len() {
            assert(m[i] == id[i - 5]);
        }
    }
}

proof fn lemma_escaped_plain(s: Seq<char>)
    requires
        forall|i: int| 0 <= i < s.len() ==> escaped_char(#[trigger] s[i]) == seq![s[i]],
    ensures
        escaped(s) == s,
    decreases s.len(),
{
    if s.len() > 0 {
        assert forall|i: int| 0 <= i < s.drop_last().len() implies escaped_char(
            #[trigger] s.drop_last()[i],
        ) == seq![s.drop_last()[i]] by {
            assert(s[i] == s.drop_last()[i]);
        }
        lemma_escaped_plain(s.drop_last());
        assert(escaped_char(s[s.len() - 1]) == seq![s[s.len() - 1]]);
        assert(s.drop_last() + seq![s.last()] =~= s);
    } else {
        assert(escaped(s) =~= s);
    }
}

/// The attributes of an assertion after its identifier.
spec fn after_assertion_id(a: AssertionView) -> Seq<char> {
    attr("Version"@, "2.0"@) + attr("IssueInstant"@, a.issue_instant.text())
}

/// A response up to the end of the Issuer of its assertion.
pub open spec fn up_to_assertion_issuer(r: ResponseView, a: AssertionView) -> Seq<char> {
    up_to_issuer(r) + status_xml(r.status) + ("<"@ + "saml:Assertion"@ + (attr(
        "xmlns:saml"@,
        SAML_NS@,
    ) + message_attrs(a.id, a.issue_instant)) + ">"@ + issuer_xml(a.issuer))
}

/// A response after the Issuer of its assertion.
pub open spec fn after_assertion_issuer(a: AssertionView) -> Seq<char> {
    subject_xml(a) + conditions_xml(a) + authn_xml(a) + attribute_statement_xml(a.attributes)
        + "</"@ + "saml:Assertion"@ + ">"@ + "</"@ + "samlp:Response"@ + ">"@
}

proof fn lemma_assertion_parts(r: ResponseView, a: AssertionView)
    requires
        r.assertion == Some(a),
    ensures
        response_xml(r) == up_to_assertion_issuer(r, a) + after_assertion_issuer(a),
{
    lemma_response_parts(r);
    let f = up_to_issuer(r);
    let s = status_xml(r.status);
    let x = "<"@ + "saml:Assertion"@ + (attr("xmlns:saml"@, SAML_NS@) + message_attrs(
        a.id,
        a.issue_instant,
    )) + ">"@;
    lemma_regroup_assertion(
        f,
        s,
        x,
        issuer_xml(a.issuer),
        subject_xml(a),
        conditions_xml(a),
        authn_xml(a),
        attribute_statement_xml(a.attributes),
        "</"@,
        "saml:Assertion"@,
        "samlp:Response"@,
        ">"@,
    );
}

proof fn lemma_regroup_assertion(
    f: Seq<char>,
    s: Seq<char>,
    x: Seq<char>,
    i: Seq<char>,
    b1: Seq<char>,
    b2: Seq<char>,
    b3: Seq<char>,
    b4: Seq<char>,
    u: Seq<char>,
    n: Seq<char>,
    o: Seq<char>,
    g: Seq<char>,
)
    ensures
        f + (s + (x + (i + b1 + b2 + b3 + b4) + u + n + g) + u + o + g) == (f + s + (x + i)) + (b1
            + b2 + b3 + b4 + u + n + g + u + o + g),
{
    assert(f + (s + (x + (i + b1 + b2 + b3 + b4) + u + n + g) + u + o + g) =~= (f + s + (x + i)) + (
    b1 + b2 + b3 + b4 + u + n + g + u + o + g));
}

proof fn lemma_regroup_up_to(
    f: Seq<char>,
    h: Seq<char>,
    n: Seq<char>,
    id: Seq<char>,
    v: Seq<char>,
    t: Seq<char>,
    g: Seq<char>,
    o: Seq<char>,
    e: Seq<char>,
    c: Seq<char>,
)
    ensures
        f + (h + (n + (id + v + t)) + g + (o + e + c)) == (f + (h + n)) + id + (v + t) + (g + o) + e
            + c,
{
    assert(f + (h + (n + (id + v + t)) + g + (o + e + c)) =~= (f + (h + n)) + id + (v + t) + (g + o)
        + e + c);
}

/// What stands before the identifier of the assertion of a response.
spec fn before_assertion_id(r: ResponseView) -> Seq<char> {
    up_to_issuer(r) + status_xml(r.status) + ("<"@ + "saml:Assertion"@ + attr(
        "xmlns:saml"@,
        SAML_NS@,
    ))
}

proof fn lemma_free_before_assertion(r: ResponseView, id: Seq<char>)
    requires
        is_marker(attr("ID"@, id)),
        escaped(r.id) != escaped(id),
    ensures
        is_free_piece(before_assertion_id(r), attr("ID"@, id)),
{
    reveal_strlit("saml:Assertion");
    reveal_strlit("xmlns:saml");
    reveal_strlit("ID");
    assert("xmlns:saml"@.len() != 2);
    let m = attr("ID"@, id);
    let f = up_to_issuer(r);
    let s = status_xml(r.status);
    let tag = "<"@ + "saml:Assertion"@;
    let ns = attr("xmlns:saml"@, SAML_NS@);
    lemma_free_front(r, id);
    lemma_free_status(r.status, m);
    lemma_free_concat(f, s, m);
    lemma_open_tag("saml:Assertion"@, m);
    lemma_free_attr("xmlns:saml"@, SAML_NS@, m);
    lemma_free_concat(tag, ns, m);
    lemma_free_concat(f + s, tag + ns, m);
}

proof fn lemma_up_to_assertion_parts(r: ResponseView, a: AssertionView)
    ensures
        up_to_assertion_issuer(r, a) == before_assertion_id(r) + attr("ID"@, a.id)
            + after_assertion_id(a) + (">"@ + "<saml:Issuer>"@) + escaped(a.issuer) + ISSUER_END@,
{
    lemma_issuer_parts(a.issuer);
    lemma_regroup_up_to(
        up_to_issuer(r) + status_xml(r.status),
        "<"@ + "saml:Assertion"@,
        attr("xmlns:saml"@, SAML_NS@),
        attr("ID"@, a.id),
        attr("Version"@, "2.0"@),
        attr("IssueInstant"@, a.issue_instant.text()),
        ">"@,
        "<saml:Issuer>"@,
        escaped(a.issuer),
        ISSUER_END@,
    );
}

proof fn lemma_after_assertion_id(a: AssertionView)
    ensures
        no_tag(attr("ID"@, a.id)),
        no_tag(after_assertion_id(a)),
{
    reveal_strlit("ID");
    reveal_strlit("Version");
    reveal_strlit("IssueInstant");
    lemma_attr_no_tag("ID"@, a.id);
    lemma_attr_no_tag("Version"@, "2.0"@);
    lemma_attr_no_tag("IssueInstant"@, a.issue_instant.text());
    lemma_no_tag_concat(
        attr("Version"@, "2.0"@),
        attr("IssueInstant"@, a.issue_instant.text()),
    );
}

/// Where a signature goes that follows an Issuer after an identifier that
/// stands nowhere before.
proof fn lemma_signature_after(
    before: Seq<char>,
    id: Seq<char>,
    b: Seq<char>,
    text: Seq<char>,
    rest: Seq<char>,
    piece: Seq<char>,
)
    requires
        is_marker(attr("ID"@, id)),
        is_free_piece(before, attr("ID"@, id)),
        no_tag(attr("ID"@, id)),
        no_tag(b),
        no_tag(text),
    ensures
        ({
            let front = before + attr("ID"@, id) + b + (">"@ + "<saml:Issuer>"@) + text
                + ISSUER_END@;
            with_signature(front + rest, id, piece) == Some(front + piece + rest)
        }),
{
    let m = attr("ID"@, id);
    let open = ">"@ + "<saml:Issuer>"@;
    let front = before + m + b + open + text;
    let xml = front + ISSUER_END@ + rest;
    lemma_open();
    lemma_issuer_end(xml, before, m, b, open, text, ISSUER_END@, rest);
    lemma_regroup_marker(before, m, b, open, text, ISSUER_END@, rest);
    lemma_first_after_free(before, m, b + open + text + ISSUER_END@ + rest);
    let at = front.len() + ISSUER_END@.len();
    assert(is_signature_place(xml, id, at as int));
    super::signing::lemma_place_is_only(
        xml,
        id,
        at as int,
        choose|x: int| is_signature_place(xml, id, x),
    );
    lemma_cut(front + ISSUER_END@, rest);
}

/// The signature of an assertion stands right after the assertion's own Issuer,
/// where the schema has it, not after that of the response around it, and there
/// always is a place for it. The two have identifiers that the library made,
/// and not the same one.
pub proof fn law_assertion_signature_follows_its_issuer(
    r: ResponseView,
    a: AssertionView,
    piece: Seq<char>,
)
    requires
        r.assertion == Some(a),
        is_new_id(r.id),
        is_new_id(a.id),
        r.id != a.id,
    ensures
        with_signature(response_xml(r), a.id, piece) == Some(
            up_to_assertion_issuer(r, a) + piece + after_assertion_issuer(a),
        ),
{
    lemma_new_id(r.id);
    lemma_new_id(a.id);
    lemma_free_before_assertion(r, a.id);
    lemma_after_assertion_id(a);
    lemma_escaped_no_tag(a.issuer);
    lemma_signature_after(
        before_assertion_id(r),
        a.id,
        after_assertion_id(a),
        escaped(a.issuer),
        after_assertion_issuer(a),
        piece,
    );
    lemma_up_to_assertion_parts(r, a);
    lemma_assertion_parts(r, a);
}

proof fn lemma_first_after_free(a: Seq<char>, m: Seq<char>, tail: Seq<char>)
    requires
        is_marker(m),
        is_free_piece(a, m),
    ensures
        is_first_at(a + m + tail, m, 0, a.len() as int),
{
    let xml = a + m + tail;
    lemma_stands_between(a, m, tail);
    assert forall|k: int| 0 <= k < a.len() implies !#[trigger] stands_at(xml, m, k) by {
        if stands_at(xml, m, k) {
            let sub = xml.subrange(k, k + m.len());
            if k + m.len() <= a.len() {
                assert(a.subrange(k, k + m.len()) =~= sub);
                assert(stands_at(a, m, k));
            } else {
                let i = a.len() - k;
                assert(sub[i] == xml[a.len() as int]);
                assert(xml[a.len() as int] == m[0]);
            }
        }
    }
}

} // verus!
