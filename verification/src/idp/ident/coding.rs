//! The compact storage form of a NameID.
//!
//! A NameID is stored as `index=value` pairs, separated by commas, in a fixed
//! field order; a field that is absent or empty is left out. Values escape the
//! characters that the form itself uses.

use crate::saml::name_id::{NameId, NameIdView};
use crate::text::{
    as_opt_str, find_char, free_of, join, join_with, leading, opt_str, opt_text, split, split_on,
    texts,
};
use vstd::prelude::*;

verus! {

/// The escaped form of one character.
pub open spec fn quoted_char(c: char) -> Seq<char> {
    if c == '%' {
        seq!['%', '2', '5']
    } else if c == ' ' {
        seq!['%', '2', '0']
    } else if c == ',' {
        seq!['%', '2', 'C']
    } else if c == '=' {
        seq!['%', '3', 'D']
    } else {
        seq![c]
    }
}

/// The escaped form of a text, character by character.
pub open spec fn quoted(s: Seq<char>) -> Seq<char>
    decreases s.len(),
{
    if s.len() == 0 {
        Seq::empty()
    } else {
        quoted(s.drop_last()) + quoted_char(s.last())
    }
}

/// The character that an escape with the digits `a` and `b` stands for.
pub open spec fn escape_meaning(a: char, b: char) -> Option<char> {
    if a == '2' && b == '0' {
        Some(' ')
    } else if a == '2' && b == '5' {
        Some('%')
    } else if a == '2' && (b == 'C' || b == 'c') {
        Some(',')
    } else if a == '3' && (b == 'D' || b == 'd') {
        Some('=')
    } else {
        None
    }
}

/// The text with every known escape replaced. Anything else that starts with
/// a percent sign stands for itself.
pub open spec fn unquoted(s: Seq<char>) -> Seq<char>
    decreases s.len(),
{
    if s.len() == 0 {
        Seq::empty()
    } else if s[0] != '%' {
        seq![s[0]] + unquoted(s.skip(1))
    } else if s.len() < 3 {
        s
    } else {
        match escape_meaning(s[1], s[2]) {
            Some(c) => seq![c] + unquoted(s.skip(3)),
            None => s.take(3) + unquoted(s.skip(3)),
        }
    }
}

/// Escape the characters that the storage form uses.
pub fn quote(s: &str) -> (result: String)
    ensures
        result@ == quoted(s@),
{
    let mut out = String::new();
    for c in it: s.chars()
        invariant
            out@ == quoted(it.seq().take(it.index())),
    {
        let ghost before = out@;
        proof {
            let after = it.seq().take(it.index() + 1);
            assert(after.drop_last() == it.seq().take(it.index()));
            assert(after.last() == c);
        }
        match c {
            '%' => {
                out.push('%');
                out.push('2');
                out.push('5');
            },
            ' ' => {
                out.push('%');
                out.push('2');
                out.push('0');
            },
            ',' => {
                out.push('%');
                out.push('2');
                out.push('C');
            },
            '=' => {
                out.push('%');
                out.push('3');
                out.push('D');
            },
            _ => out.push(c),
        }
        assert(out@ == before + quoted_char(c));
    }
    assert(s@.take(s@.len() as int) == s@);
    out
}

/// Replace every known escape by the character it stands for.
pub fn unquote(s: &str) -> (result: String)
    ensures
        result@ == unquoted(s@),
{
    let chars = crate::text::to_chars(s);
    let mut out = String::new();
    let mut i: usize = 0;
    assert(s@.skip(0) == s@);
    while i < chars.len()
        invariant
            chars@ == s@,
            i <= chars@.len(),
            out@ + unquoted(s@.skip(i as int)) == unquoted(s@),
        decreases chars@.len() - i,
    {
        let ghost rest = s@.skip(i as int);
        let ghost before = out@;
        let c = chars[i];
        assert(rest[0] == c);
        if c != '%' {
            out.push(c);
            i += 1;
            proof {
                assert(rest.skip(1) == s@.skip(i as int));
                assert(before.push(c) + unquoted(rest.skip(1)) == before + (seq![c] + unquoted(
                    rest.skip(1),
                )));
            }
        } else if chars.len() - i < 3 {
            out.push(c);
            i += 1;
            if i < chars.len() {
                out.push(chars[i]);
                i += 1;
            }
            proof {
                assert(out@ == before + rest);
                assert(s@.skip(i as int) == Seq::<char>::empty());
                assert(out@ + unquoted(s@.skip(i as int)) == out@);
            }
        } else {
            let a = chars[i + 1];
            let b = chars[i + 2];
            assert(rest[1] == a && rest[2] == b);
            match (a, b) {
                ('2', '0') => out.push(' '),
                ('2', '5') => out.push('%'),
                ('2', 'C') | ('2', 'c') => out.push(','),
                ('3', 'D') | ('3', 'd') => out.push('='),
                _ => {
                    out.push('%');
                    out.push(a);
                    out.push(b);
                },
            }
            i += 3;
            proof {
                assert(rest.skip(3) == s@.skip(i as int));
                let tail = unquoted(rest.skip(3));
                match escape_meaning(a, b) {
                    Some(m) => {
                        assert(out@ == before.push(m));
                        assert(before.push(m) + tail == before + (seq![m] + tail));
                    },
                    None => {
                        assert(out@ == before + rest.take(3));
                        assert(before + rest.take(3) + tail == before + (rest.take(3) + tail));
                    },
                }
            }
        }
    }
    proof {
        assert(s@.skip(i as int) == Seq::<char>::empty());
        assert(out@ + Seq::<char>::empty() == out@);
    }
    out
}

/// How many fields the storage form has.
pub const CODE_FIELDS: usize = 5;

/// The digit that names field `i`.
pub open spec fn field_digit(i: int) -> char {
    if i == 0 {
        '0'
    } else if i == 1 {
        '1'
    } else if i == 2 {
        '2'
    } else if i == 3 {
        '3'
    } else {
        '4'
    }
}

/// The fields of a NameID in storage order.
pub open spec fn field(n: NameIdView, i: int) -> Option<Seq<char>> {
    if i == 0 {
        n.name_qualifier
    } else if i == 1 {
        n.sp_name_qualifier
    } else if i == 2 {
        n.format
    } else if i == 3 {
        n.sp_provided_id
    } else {
        Some(n.value)
    }
}

/// The pair that stands for a field: nothing for an absent or an empty one.
pub open spec fn field_part(i: int, v: Option<Seq<char>>) -> Seq<Seq<char>> {
    match v {
        Some(s) => if s.len() == 0 {
            Seq::empty()
        } else {
            seq![seq![field_digit(i), '='] + quoted(s)]
        },
        None => Seq::empty(),
    }
}

/// The pairs that stand for the first `count` fields.
pub open spec fn coded_parts(n: NameIdView, count: int) -> Seq<Seq<char>>
    decreases count,
{
    if count <= 0 {
        Seq::empty()
    } else {
        coded_parts(n, count - 1) + field_part(count - 1, field(n, count - 1))
    }
}

/// The storage form of a NameID.
pub open spec fn coded(n: NameIdView) -> Seq<char> {
    join(coded_parts(n, CODE_FIELDS as int), ',')
}

/// A number without the plus sign that may stand before it.
pub open spec fn without_plus(t: Seq<char>) -> Seq<char> {
    if t.len() > 0 && t[0] == '+' {
        t.skip(1)
    } else {
        t
    }
}

/// Which field a decimal number names: an optional plus sign, then at least
/// one digit, with a value below the number of fields.
pub open spec fn field_index(t: Seq<char>) -> Option<int> {
    let digits = without_plus(t);
    if digits.len() > 0 && (forall|i: int| 0 <= i < digits.len() - 1 ==> digits[i] == '0') {
        let d = digits.last();
        if d == '0' {
            Some(0)
        } else if d == '1' {
            Some(1)
        } else if d == '2' {
            Some(2)
        } else if d == '3' {
            Some(3)
        } else if d == '4' {
            Some(4)
        } else {
            None
        }
    } else {
        None
    }
}

/// The field and the value that one stored pair gives, if it gives any.
pub open spec fn part_meaning(part: Seq<char>) -> Option<(int, Seq<char>)> {
    let at: int = leading(part, '=') as int;
    if at < part.len() {
        match field_index(part.take(at)) {
            Some(i) => Some((i, unquoted(part.skip(at + 1)))),
            None => None,
        }
    } else {
        None
    }
}

/// The value that the last pair for field `i` gives.
pub open spec fn last_field(parts: Seq<Seq<char>>, i: int) -> Option<Seq<char>>
    decreases parts.len(),
{
    if parts.len() == 0 {
        None
    } else {
        match part_meaning(parts.last()) {
            Some((j, v)) => if i == j {
                Some(v)
            } else {
                last_field(parts.drop_last(), i)
            },
            None => last_field(parts.drop_last(), i),
        }
    }
}

/// The NameID whose fields a list of stored pairs gives.
pub open spec fn decoded_parts(parts: Seq<Seq<char>>) -> NameIdView {
    NameIdView {
        value: match last_field(parts, 4) {
            Some(v) => v,
            None => Seq::empty(),
        },
        format: last_field(parts, 2),
        name_qualifier: last_field(parts, 0),
        sp_name_qualifier: last_field(parts, 1),
        sp_provided_id: last_field(parts, 3),
    }
}

/// The NameID that a stored text stands for.
pub open spec fn decoded(s: Seq<char>) -> NameIdView {
    decoded_parts(split(s, ','))
}

fn push_field(parts: &mut Vec<String>, digit: char, value: Option<&str>, Ghost(i): Ghost<int>)
    requires
        digit == field_digit(i),
    ensures
        texts(final(parts)@) == texts(old(parts)@) + field_part(i, opt_str(value)),
{
    if let Some(v) = value {
        if !v.is_empty() {
            let mut part = String::new();
            part.push(digit);
            part.push('=');
            let q = quote(v);
            let part = crate::text::concat(part.as_str(), q.as_str());
            assert(part@ == seq![digit, '='] + quoted(v@));
            parts.push(part);
            assert(texts(parts@) == texts(old(parts)@) + field_part(i, opt_str(value)));
            return ;
        }
    }
    assert(texts(parts@) == texts(old(parts)@) + field_part(i, opt_str(value)));
}

/// The compact storage form of a NameID: `index=value` pairs, comma separated,
/// in the order NameQualifier, SPNameQualifier, Format, SPProvidedID, value.
pub fn code_name_id(name_id: &NameId) -> (result: String)
    ensures
        result@ == coded(name_id@),
{
    let mut parts: Vec<String> = Vec::new();
    let ghost n = name_id@;
    proof {
        reveal_with_fuel(coded_parts, 6);
        assert(texts(parts@) == coded_parts(n, 0));
    }
    push_field(&mut parts, '0', as_opt_str(&name_id.name_qualifier), Ghost(0));
    push_field(&mut parts, '1', as_opt_str(&name_id.sp_name_qualifier), Ghost(1));
    push_field(&mut parts, '2', as_opt_str(&name_id.format), Ghost(2));
    push_field(&mut parts, '3', as_opt_str(&name_id.sp_provided_id), Ghost(3));
    push_field(&mut parts, '4', Some(name_id.value.as_str()), Ghost(4));
    assert(texts(parts@) == coded_parts(n, CODE_FIELDS as int));
    join_with(&parts, ',')
}

fn parse_field_index(t: &[char]) -> (result: Option<usize>)
    ensures
        match result {
            Some(i) => field_index(t@) == Some(i as int),
            None => field_index(t@) is None,
        },
{
    let start: usize = if t.len() > 0 && t[0] == '+' {
        1
    } else {
        0
    };
    let ghost digits = without_plus(t@);
    assert(digits == t@.skip(start as int));
    if start == t.len() {
        return None;
    }
    let last: usize = t.len() - 1;
    let mut i: usize = start;
    while i < last
        invariant
            start <= i <= last,
            last == t@.len() - 1,
            digits == t@.skip(start as int),
            digits == without_plus(t@),
            forall|k: int| 0 <= k < i - start ==> digits[k] == '0',
        decreases last - i,
    {
        if t[i] != '0' {
            assert(digits[i - start] != '0');
            return None;
        }
        i += 1;
    }
    match t[last] {
        '0' => Some(0),
        '1' => Some(1),
        '2' => Some(2),
        '3' => Some(3),
        '4' => Some(4),
        _ => None,
    }
}

/// Read the compact storage form back into a NameID. Pairs that name no field
/// are passed over; of two pairs for one field the later counts.
pub fn decode_name_id(coded: &str) -> (result: NameId)
    ensures
        result@ == decoded(coded@),
{
    let parts = split_on(coded, ',');
    let mut name_qualifier: Option<String> = None;
    let mut sp_name_qualifier: Option<String> = None;
    let mut format: Option<String> = None;
    let mut sp_provided_id: Option<String> = None;
    let mut value: Option<String> = None;
    let mut k: usize = 0;
    while k < parts.len()
        invariant
            k <= parts@.len(),
            opt_text(name_qualifier) == last_field(texts(parts@).take(k as int), 0),
            opt_text(sp_name_qualifier) == last_field(texts(parts@).take(k as int), 1),
            opt_text(format) == last_field(texts(parts@).take(k as int), 2),
            opt_text(sp_provided_id) == last_field(texts(parts@).take(k as int), 3),
            opt_text(value) == last_field(texts(parts@).take(k as int), 4),
        decreases parts@.len() - k,
    {
        let ghost ts = texts(parts@);
        proof {
            assert(ts.take(k + 1).drop_last() == ts.take(k as int));
            assert(ts.take(k + 1).last() == parts@[k as int]@);
        }
        let part = crate::text::to_chars(parts[k].as_str());
        let at: usize = find_char(part.as_slice(), '=');
        if at < part.len() {
            let index = vstd::slice::slice_subrange(part.as_slice(), 0, at);
            assert(index@ == part@.take(at as int));
            if let Some(i) = parse_field_index(index) {
                let rest = vstd::slice::slice_subrange(part.as_slice(), at + 1, part.len());
                assert(rest@ == part@.skip(at + 1));
                let text = crate::text::from_chars(rest);
                let v = unquote(text.as_str());
                match i {
                    0 => {
                        name_qualifier = Some(v);
                    },
                    1 => {
                        sp_name_qualifier = Some(v);
                    },
                    2 => {
                        format = Some(v);
                    },
                    3 => {
                        sp_provided_id = Some(v);
                    },
                    _ => {
                        value = Some(v);
                    },
                }
            }
        }
        k += 1;
    }
    assert(texts(parts@).take(parts@.len() as int) == texts(parts@));
    let value = match value {
        Some(v) => v,
        None => {
            let empty = String::new();
            assert(empty@ == Seq::<char>::empty());
            empty
        },
    };
    NameId { value, format, name_qualifier, sp_name_qualifier, sp_provided_id }
}

proof fn lemma_quoted_front(s: Seq<char>)
    requires
        s.len() > 0,
    ensures
        quoted(s) == quoted_char(s[0]) + quoted(s.skip(1)),
    decreases s.len(),
{
    let front = s.drop_last();
    if front.len() == 0 {
        assert(s.skip(1) == front);
        assert(quoted(front) + quoted_char(s.last()) == quoted_char(s[0]) + quoted(front));
    } else {
        lemma_quoted_front(front);
        assert(s.skip(1).drop_last() == front.skip(1));
        assert(quoted(s.skip(1)) == quoted(front.skip(1)) + quoted_char(s.last()));
        assert((quoted_char(s[0]) + quoted(front.skip(1))) + quoted_char(s.last()) == quoted_char(
            s[0],
        ) + (quoted(front.skip(1)) + quoted_char(s.last())));
    }
}

/// Escaping loses nothing: replacing the escapes gives back every text.
pub proof fn law_unquote_undoes_quote(s: Seq<char>)
    ensures
        unquoted(quoted(s)) == s,
    decreases s.len(),
{
    if s.len() > 0 {
        lemma_quoted_front(s);
        law_unquote_undoes_quote(s.skip(1));
        let head = quoted_char(s[0]);
        let tail = quoted(s.skip(1));
        assert((head + tail).skip(head.len() as int) == tail);
        assert(seq![s[0]] + s.skip(1) == s);
    }
}

/// An escaped text holds none of the characters that the storage form and the
/// list of stored NameIDs use, and is empty only for the empty text.
pub proof fn law_quoted_is_plain(s: Seq<char>)
    ensures
        free_of(quoted(s), ' '),
        free_of(quoted(s), ','),
        free_of(quoted(s), '='),
        quoted(s).len() >= s.len(),
    decreases s.len(),
{
    if s.len() > 0 {
        law_quoted_is_plain(s.drop_last());
        let a = quoted(s.drop_last());
        let b = quoted_char(s.last());
        assert forall|c: char| c == ' ' || c == ',' || c == '=' implies !(#[trigger] (a
            + b).contains(c)) by {
            if (a + b).contains(c) {
                let i = choose|i: int| 0 <= i < (a + b).len() && (a + b)[i] == c;
                if i < a.len() {
                    assert(a[i] == c);
                    assert(a.contains(c));
                }
            }
        }
    }
}

pub proof fn lemma_part(i: int, s: Seq<char>)
    requires
        0 <= i < CODE_FIELDS,
    ensures
        part_meaning(seq![field_digit(i), '='] + quoted(s)) == Some((i, s)),
        free_of(seq![field_digit(i), '='] + quoted(s), ','),
        free_of(seq![field_digit(i), '='] + quoted(s), ' '),
{
    let part = seq![field_digit(i), '='] + quoted(s);
    law_quoted_is_plain(s);
    law_unquote_undoes_quote(s);
    crate::text::lemma_leading_is(part, '=', 1);
    assert(part.take(1) == seq![field_digit(i)]);
    assert(part.skip(2) == quoted(s));
    assert(without_plus(part.take(1)) == part.take(1));
    assert forall|c: char| c == ' ' || c == ',' implies !(#[trigger] part.contains(c)) by {
        if part.contains(c) {
            let k = choose|k: int| 0 <= k < part.len() && part[k] == c;
            if k >= 2 {
                assert(quoted(s)[k - 2] == c);
                assert(quoted(s).contains(c));
            }
        }
    }
}

/// A field value that the storage form keeps.
pub open spec fn kept(v: Option<Seq<char>>) -> Option<Seq<char>> {
    match v {
        Some(s) => if s.len() == 0 {
            None
        } else {
            Some(s)
        },
        None => None,
    }
}

proof fn lemma_coded_parts(n: NameIdView, count: int)
    requires
        0 <= count <= CODE_FIELDS,
    ensures
        forall|k: int|
            0 <= k < coded_parts(n, count).len() ==> {
                &&& free_of(#[trigger] coded_parts(n, count)[k], ',')
                &&& free_of(coded_parts(n, count)[k], ' ')
            },
        forall|i: int|
            #![trigger last_field(coded_parts(n, count), i)]
            0 <= i < CODE_FIELDS ==> last_field(coded_parts(n, count), i) == if i < count {
                kept(field(n, i))
            } else {
                None
            },
    decreases count,
{
    if count > 0 {
        lemma_coded_parts(n, count - 1);
        let before = coded_parts(n, count - 1);
        let v = field(n, count - 1);
        match kept(v) {
            Some(s) => {
                lemma_part(count - 1, s);
                let part = seq![field_digit(count - 1), '='] + quoted(s);
                assert(coded_parts(n, count) == before.push(part));
                assert(before.push(part).drop_last() == before);
            },
            None => {
                assert(coded_parts(n, count) == before);
            },
        }
        assert forall|i: int|
            #![trigger last_field(coded_parts(n, count), i)]
            0 <= i < CODE_FIELDS implies last_field(coded_parts(n, count), i) == (if i < count {
            kept(field(n, i))
        } else {
            None
        }) by {
            assert(last_field(before, i) == if i < count - 1 {
                kept(field(n, i))
            } else {
                None
            });
        }
    }
}

proof fn lemma_join_free(parts: Seq<Seq<char>>, sep: char, c: char)
    requires
        sep != c,
        forall|i: int| 0 <= i < parts.len() ==> free_of(#[trigger] parts[i], c),
    ensures
        free_of(join(parts, sep), c),
    decreases parts.len(),
{
    if parts.len() == 1 {
        assert(free_of(parts[0], c));
    } else if parts.len() > 1 {
        lemma_join_free(parts.drop_last(), sep, c);
        assert(free_of(parts[parts.len() - 1], c));
        let a = join(parts.drop_last(), sep);
        let whole = a.push(sep) + parts.last();
        if whole.contains(c) {
            let k = choose|k: int| 0 <= k < whole.len() && whole[k] == c;
            if k < a.len() {
                assert(a[k] == c);
                assert(a.contains(c));
            } else if k > a.len() {
                assert(parts.last()[k - a.len() - 1] == c);
                assert(parts.last().contains(c));
            }
        }
    }
}

/// A stored NameID holds no space, so a list of them can be kept separated by
/// spaces.
pub proof fn law_coded_has_no_space(n: NameIdView)
    ensures
        free_of(coded(n), ' '),
{
    lemma_coded_parts(n, CODE_FIELDS as int);
    lemma_join_free(coded_parts(n, CODE_FIELDS as int), ',', ' ');
}

/// What is stored of a NameID: everything but the optional fields that are empty.
pub open spec fn storable(n: NameIdView) -> NameIdView {
    NameIdView {
        value: n.value,
        format: kept(n.format),
        name_qualifier: kept(n.name_qualifier),
        sp_name_qualifier: kept(n.sp_name_qualifier),
        sp_provided_id: kept(n.sp_provided_id),
    }
}

/// Reading back a stored NameID gives what was stored of it.
pub proof fn law_decode_undoes_code(n: NameIdView)
    ensures
        decoded(coded(n)) == storable(n),
{
    let parts = coded_parts(n, CODE_FIELDS as int);
    lemma_coded_parts(n, CODE_FIELDS as int);
    if parts.len() > 0 {
        crate::text::law_split_undoes_join(parts, ',');
        assert(split(coded(n), ',') == parts);
    } else {
        assert(coded(n) == Seq::<char>::empty());
        assert(part_meaning(Seq::<char>::empty()) is None);
        assert forall|i: int| last_field(seq![Seq::<char>::empty()], i) == last_field(parts, i) by {
            assert(seq![Seq::<char>::empty()].drop_last() == parts);
        }
        assert(split(coded(n), ',') == seq![Seq::<char>::empty()]);
    }
    let got = split(coded(n), ',');
    assert(last_field(got, 0) == last_field(parts, 0));
    assert(last_field(got, 1) == last_field(parts, 1));
    assert(last_field(got, 2) == last_field(parts, 2));
    assert(last_field(got, 3) == last_field(parts, 3));
    assert(last_field(got, 4) == last_field(parts, 4));
    assert(kept(Some(n.value)) is None ==> n.value == Seq::<char>::empty());
}

/// A NameID without empty optional fields survives being stored and read back.
pub proof fn law_code_round_trip(n: NameIdView)
    requires
        storable(n) == n,
    ensures
        decoded(coded(n)) == n,
{
    law_decode_undoes_code(n);
}

/// The storage form of a NameID is empty only where every field of it is.
pub proof fn law_coded_is_empty_only_for_nothing(n: NameIdView)
    requires
        coded(n).len() == 0,
    ensures
        forall|i: int| 0 <= i < CODE_FIELDS ==> kept(#[trigger] field(n, i)) is None,
{
    let parts = coded_parts(n, CODE_FIELDS as int);
    law_decode_undoes_code(n);
    assert(coded(n) == Seq::<char>::empty());
    assert(part_meaning(Seq::<char>::empty()) is None);
    assert(split(coded(n), ',').drop_last() == Seq::<Seq<char>>::empty());
    assert forall|i: int| last_field(split(coded(n), ','), i) is None by {
        assert(last_field(split(coded(n), ',').drop_last(), i) is None);
    }
    lemma_coded_parts(n, CODE_FIELDS as int);
    assert(n.value == Seq::<char>::empty());
    assert forall|i: int| 0 <= i < CODE_FIELDS implies kept(#[trigger] field(n, i)) is None by {
        assert(decoded(coded(n)).format is None);
        assert(decoded(coded(n)).name_qualifier is None);
        assert(decoded(coded(n)).sp_name_qualifier is None);
        assert(decoded(coded(n)).sp_provided_id is None);
    }
}

} // verus!
