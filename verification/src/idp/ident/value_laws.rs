//! What the values of NameIDs and their storage form promise.

use super::coding::{
    coded, coded_parts, decoded, field, field_index, field_part, law_decode_undoes_code, lemma_part,
    part_meaning, quoted, quoted_char, storable, unquoted,
};
use super::db::obtained;
use super::forward::{forward_key, lemma_keys, listed, owner, reverse_key};
use super::mint::{id_value, is_minted, value_of_seed, zeros};
use super::op::{is_persistent_for, persistent_in, IssueView};
use super::store::Contents;
use crate::digest::{hex, sha256_digest};
use crate::saml::name_id::NameIdView;
use crate::text::{free_of, join, law_split_undoes_join, lemma_leading_is, number_of};
use vstd::prelude::*;
use vstd::utf8::encode_utf8;

verus! {

/// What a text comes to in bytes, and nothing where there is none.
pub open spec fn bytes_of(s: Option<Seq<char>>) -> Seq<u8> {
    match s {
        Some(t) => encode_utf8(t),
        None => encode_utf8(Seq::empty()),
    }
}

/// The value of a new NameID tells nothing of the user. It is the hexadecimal
/// digest of 32 bytes that were drawn, the format and the two qualifiers, with
/// zeros after it only where someone owned the value without them. A NameID of
/// the email format goes on with an `@` and the domain that is configured, or
/// `idp.example.org`; no other does. No one owned the value before.
pub proof fn law_new_value_is_a_digest(
    m: Contents,
    value: Seq<char>,
    format: Seq<char>,
    name_qualifier: Option<Seq<char>>,
    sp_name_qualifier: Option<Seq<char>>,
    domain: Option<Seq<char>>,
)
    requires
        is_minted(m, value, format, name_qualifier, sp_name_qualifier, domain),
    ensures
        owner(m, value) is None,
        exists|seed: Seq<u8>, pad: nat|
            {
                let opaque = #[trigger] hex(
                    sha256_digest(
                        seed + encode_utf8(format) + bytes_of(name_qualifier) + bytes_of(
                            sp_name_qualifier,
                        ),
                    ),
                ) + #[trigger] zeros(pad);
                let email = format == "urn:oasis:names:tc:SAML:1.1:nameid-format:emailAddress"@;
                &&& seed.len() == 32
                &&& forall|i: int| 0 <= i < pad ==> #[trigger] zeros(pad)[i] == '0'
                &&& zeros(pad).len() == pad
                &&& !email ==> value == opaque
                &&& email && domain is Some ==> value == opaque + seq!['@'] + domain->0
                &&& email && domain is None ==> value == opaque + seq!['@'] + "idp.example.org"@
                &&& pad > 0 ==> owner(
                    m,
                    value_of_seed(seed, 0, format, name_qualifier, sp_name_qualifier, domain),
                ) is Some
            },
{
    let (seed, pad) = choose|seed: Seq<u8>, pad: nat|
        {
            &&& seed.len() == 32
            &&& value == #[trigger] value_of_seed(
                seed,
                pad,
                format,
                name_qualifier,
                sp_name_qualifier,
                domain,
            )
            &&& owner(m, value) is None
            &&& forall|fewer: nat|
                fewer < pad ==> owner(
                    m,
                    #[trigger] value_of_seed(
                        seed,
                        fewer,
                        format,
                        name_qualifier,
                        sp_name_qualifier,
                        domain,
                    ),
                ) is Some
        };
    let opaque = hex(
        sha256_digest(
            seed + encode_utf8(format) + bytes_of(name_qualifier) + bytes_of(sp_name_qualifier),
        ),
    ) + zeros(pad);
    assert(value == id_value(opaque, format, domain));
    assert(opaque.push('@') == opaque + seq!['@']);
}

/// A NameID that is obtained anew has such a value, and says nothing of an
/// identifier that the service provider gave.
pub proof fn law_obtained_is_there_or_new(
    m: Contents,
    m2: Contents,
    issue: IssueView,
    domain: Option<Seq<char>>,
    n: NameIdView,
)
    requires
        obtained(m, m2, issue, domain, n),
    ensures
        ({
            let there = exists|i: int|
                {
                    &&& 0 <= i < listed(m, issue.user_id).len()
                    &&& (#[trigger] listed(m, issue.user_id)[i]).format == Some(
                        "urn:oasis:names:tc:SAML:2.0:nameid-format:persistent"@,
                    )
                    &&& listed(m, issue.user_id)[i].sp_name_qualifier == issue.sp_name_qualifier
                    &&& listed(m, issue.user_id)[i].name_qualifier == issue.name_qualifier
                };
            let persistent = issue.format
                == "urn:oasis:names:tc:SAML:2.0:nameid-format:persistent"@;
            &&& persistent && there ==> m2 == m && listed(m, issue.user_id).contains(n)
            &&& !persistent || !there ==> {
                &&& n.sp_provided_id is None
                &&& is_minted(
                    m,
                    n.value,
                    issue.format,
                    issue.name_qualifier,
                    issue.sp_name_qualifier,
                    domain,
                )
            }
        }),
{
    let ns = listed(m, issue.user_id);
    super::laws::lemma_persistent_in(ns, issue.sp_name_qualifier, issue.name_qualifier, n);
    match persistent_in(ns, issue.sp_name_qualifier, issue.name_qualifier) {
        Some(e) => {
            let k = choose|k: int| 0 <= k < ns.len() && ns[k] == e;
            assert(is_persistent_for(ns[k], issue.sp_name_qualifier, issue.name_qualifier));
        },
        None => {
            assert forall|i: int|
                {
                    &&& 0 <= i < ns.len()
                    &&& (#[trigger] ns[i]).format == Some(
                        "urn:oasis:names:tc:SAML:2.0:nameid-format:persistent"@,
                    )
                    &&& ns[i].sp_name_qualifier == issue.sp_name_qualifier
                    &&& ns[i].name_qualifier == issue.name_qualifier
                } implies false by {
                assert(!is_persistent_for(ns[i], issue.sp_name_qualifier, issue.name_qualifier));
            }
        },
    }
}

/// Whether an optional text is absent or not empty.
pub open spec fn is_not_empty(s: Option<Seq<char>>) -> bool {
    s is None || s->0.len() > 0
}

/// A NameID without empty fields is read back from its storage form as it was,
/// each field of it.
pub proof fn law_nothing_is_lost_in_storage(n: NameIdView)
    requires
        is_not_empty(n.format),
        is_not_empty(n.name_qualifier),
        is_not_empty(n.sp_name_qualifier),
        is_not_empty(n.sp_provided_id),
    ensures
        decoded(coded(n)) == n,
        storable(n) == n,
{
    law_decode_undoes_code(n);
}

/// The part of the storage form for a field, where there is anything in it.
pub open spec fn numbered(number: Seq<char>, s: Option<Seq<char>>) -> Seq<Seq<char>> {
    if s is None || s->0.len() == 0 {
        seq![]
    } else {
        seq![number + "="@ + quoted(s->0)]
    }
}

/// The storage form names its fields by number: 0 the name qualifier, 1 that of
/// the service provider, 2 the format, 3 the identifier that the service provider
/// gave, 4 the value; in this order, with commas between them, and without those
/// that are empty.
pub proof fn law_storage_form_is_numbered(n: NameIdView)
    ensures
        coded(n) == join(
            numbered("0"@, n.name_qualifier) + numbered("1"@, n.sp_name_qualifier) + numbered(
                "2"@,
                n.format,
            ) + numbered("3"@, n.sp_provided_id) + numbered("4"@, Some(n.value)),
            ',',
        ),
{
    reveal_strlit("0");
    reveal_strlit("1");
    reveal_strlit("2");
    reveal_strlit("3");
    reveal_strlit("4");
    reveal_strlit("=");
    reveal_with_fuel(coded_parts, 6);
    lemma_numbered(0, "0"@, n.name_qualifier);
    lemma_numbered(1, "1"@, n.sp_name_qualifier);
    lemma_numbered(2, "2"@, n.format);
    lemma_numbered(3, "3"@, n.sp_provided_id);
    lemma_numbered(4, "4"@, Some(n.value));
    let none = Seq::<Seq<char>>::empty();
    assert(none + numbered("0"@, n.name_qualifier) == numbered("0"@, n.name_qualifier));
}

proof fn lemma_numbered(i: int, number: Seq<char>, s: Option<Seq<char>>)
    requires
        number =~= seq![super::coding::field_digit(i)],
    ensures
        field_part(i, s) == numbered(number, s),
{
    reveal_strlit("=");
    if s is Some {
        assert(seq![super::coding::field_digit(i), '='] + quoted(s->0) == number + "="@ + quoted(
            s->0,
        ));
    }
}

/// In the storage form four characters are written otherwise, by their codes, and
/// no other; each stands for itself alone.
pub proof fn law_four_characters_are_quoted(a: Seq<char>, b: Seq<char>, c: char)
    ensures
        quoted(a + b) == quoted(a) + quoted(b),
        c == '%' ==> quoted(seq![c]) == seq!['%', '2', '5'],
        c == ' ' ==> quoted(seq![c]) == seq!['%', '2', '0'],
        c == ',' ==> quoted(seq![c]) == seq!['%', '2', 'C'],
        c == '=' ==> quoted(seq![c]) == seq!['%', '3', 'D'],
        c != '%' && c != ' ' && c != ',' && c != '=' ==> quoted(seq![c]) == seq![c],
        quoted(Seq::empty()) == Seq::<char>::empty(),
    decreases b.len(),
{
    reveal_with_fuel(quoted, 2);
    assert(seq![c].drop_last() == Seq::<char>::empty());
    assert(Seq::<char>::empty() + quoted_char(c) == quoted_char(c));
    if b.len() == 0 {
        assert(a + b == a);
    } else {
        law_four_characters_are_quoted(a, b.drop_last(), c);
        assert((a + b).drop_last() == a + b.drop_last());
        assert((a + b).last() == b.last());
    }
}

/// Whether two characters after a percent sign stand for one that is quoted.
pub open spec fn stands_for_something(a: char, b: char) -> bool {
    ||| a == '2' && (b == '0' || b == '5' || b == 'C' || b == 'c')
    ||| a == '3' && (b == 'D' || b == 'd')
}

/// A percent sign with two characters that stand for nothing is left as it is,
/// and reading goes on after them.
pub proof fn law_unknown_code_is_left(a: char, b: char, s: Seq<char>)
    requires
        !stands_for_something(a, b),
    ensures
        unquoted(seq!['%', a, b] + s) == seq!['%', a, b] + unquoted(s),
{
    assert((seq!['%', a, b] + s).skip(3) == s);
    assert((seq!['%', a, b] + s).take(3) == seq!['%', a, b]);
}

/// Reading goes on after a code, whatever the case of its letters; a code that is
/// cut off is left as it is.
pub proof fn law_codes_are_read(s: Seq<char>)
    ensures
        unquoted(seq!['%', '2', '5'] + s) == seq!['%'] + unquoted(s),
        unquoted(seq!['%', '2', '0'] + s) == seq![' '] + unquoted(s),
        unquoted(seq!['%', '2', 'C'] + s) == seq![','] + unquoted(s),
        unquoted(seq!['%', '2', 'c'] + s) == seq![','] + unquoted(s),
        unquoted(seq!['%', '3', 'D'] + s) == seq!['='] + unquoted(s),
        unquoted(seq!['%', '3', 'd'] + s) == seq!['='] + unquoted(s),
        s.len() > 0 && s[0] != '%' ==> unquoted(s) == seq![s[0]] + unquoted(s.skip(1)),
        s.len() < 3 && s.len() > 0 && s[0] == '%' ==> unquoted(s) == s,
{
    assert((seq!['%', '2', '5'] + s).skip(3) == s);
    assert((seq!['%', '2', '0'] + s).skip(3) == s);
    assert((seq!['%', '2', 'C'] + s).skip(3) == s);
    assert((seq!['%', '2', 'c'] + s).skip(3) == s);
    assert((seq!['%', '3', 'D'] + s).skip(3) == s);
    assert((seq!['%', '3', 'd'] + s).skip(3) == s);
}

/// A part of the storage form sets its own field, whatever stood there before,
/// and leaves the others as they are.
pub proof fn law_a_part_sets_its_own_field(
    parts: Seq<Seq<char>>,
    number: int,
    digit: char,
    v: Seq<char>,
)
    requires
        parts.len() > 0,
        forall|i: int| 0 <= i < parts.len() ==> free_of(#[trigger] parts[i], ','),
        0 <= number <= 4,
        digit as int == '0' as int + number,
    ensures
        ({
            let before = decoded(join(parts, ','));
            let after = decoded(join(parts.push(seq![digit, '='] + quoted(v)), ','));
            &&& after.name_qualifier == if number == 0 {
                Some(v)
            } else {
                before.name_qualifier
            }
            &&& after.sp_name_qualifier == if number == 1 {
                Some(v)
            } else {
                before.sp_name_qualifier
            }
            &&& after.format == if number == 2 {
                Some(v)
            } else {
                before.format
            }
            &&& after.sp_provided_id == if number == 3 {
                Some(v)
            } else {
                before.sp_provided_id
            }
            &&& after.value == if number == 4 {
                v
            } else {
                before.value
            }
        }),
{
    assert(digit == super::coding::field_digit(number));
    lemma_part(number, v);
    let part = seq![digit, '='] + quoted(v);
    let more = parts.push(part);
    assert forall|i: int| 0 <= i < more.len() implies free_of(#[trigger] more[i], ',') by {
        if i < parts.len() {
            assert(more[i] == parts[i]);
        }
    }
    law_split_undoes_join(parts, ',');
    law_split_undoes_join(more, ',');
    assert(more.drop_last() == parts);
    assert(more.last() == part);
    assert(part_meaning(part) == Some((number, v)));
}

/// The list of a user and the owner of a value are kept apart, each under a key
/// of its own that begins with what it is.
pub proof fn law_keys_say_what_they_hold(a: Seq<char>, b: Seq<char>)
    ensures
        forward_key(a) == "user:"@ + a,
        reverse_key(a) == "nameid:"@ + a,
        forward_key(a) != reverse_key(b),
        forward_key(a) == forward_key(b) <==> a == b,
        reverse_key(a) == reverse_key(b) <==> a == b,
{
    lemma_keys();
}

/// Whether a text is made of decimal digits, and there is one.
pub open spec fn is_digits(t: Seq<char>) -> bool {
    t.len() > 0 && forall|i: int|
        0 <= i < t.len() ==> '0' as int <= #[trigger] t[i] as int <= '9' as int
}

proof fn lemma_number_of(t: Seq<char>)
    requires
        is_digits(t),
    ensures
        number_of(t) >= 0,
        (forall|i: int| 0 <= i < t.len() - 1 ==> t[i] == '0') ==> number_of(t) == t.last() as int
            - '0' as int,
        !(forall|i: int| 0 <= i < t.len() - 1 ==> t[i] == '0') ==> number_of(t) >= 10,
    decreases t.len(),
{
    let front = t.drop_last();
    assert('0' as int <= t[t.len() - 1] as int <= '9' as int);
    if front.len() > 0 {
        assert forall|i: int| 0 <= i < front.len() implies '0' as int <= #[trigger] front[i] as int
            <= '9' as int by {
            assert(front[i] == t[i]);
        }
        lemma_number_of(front);
        if forall|i: int| 0 <= i < t.len() - 1 ==> t[i] == '0' {
            assert(forall|i: int| 0 <= i < front.len() - 1 ==> front[i] == '0');
            assert(front.last() == t[t.len() - 2]);
        } else {
            if forall|i: int| 0 <= i < front.len() - 1 ==> front[i] == '0' {
                let i = choose|i: int| 0 <= i < t.len() - 1 && t[i] != '0';
                assert(front[i] == t[i]);
                assert(i == front.len() - 1);
            }
        }
    } else {
        assert(number_of(front) == 0);
    }
}

/// The number of a field is read as a number: with zeros before it or without,
/// and with a plus sign before it or without. A number that no field has, and a
/// text that is no number, name no field.
pub proof fn law_field_number_is_read(t: Seq<char>)
    ensures
        is_digits(t) && number_of(t) <= 4 ==> field_index(t) == Some(number_of(t)),
        is_digits(t) && number_of(t) > 4 ==> field_index(t) is None,
        is_digits(t) ==> field_index(seq!['+'] + t) == field_index(t),
        !is_digits(t) ==> field_index(seq!['+'] + t) is None,
        !is_digits(t) && (t.len() == 0 || t[0] != '+') ==> field_index(t) is None,
{
    assert((seq!['+'] + t).skip(1) == t);
    if is_digits(t) {
        lemma_number_of(t);
        assert('0' as int <= t[0] as int);
        assert('0' as int <= t[t.len() - 1] as int <= '9' as int);
    } else if t.len() > 0 {
        let i = choose|i: int|
            0 <= i < t.len() && !('0' as int <= #[trigger] t[i] as int <= '9' as int);
        assert(t[i] != '0');
    }
}

/// A part of the storage form is a number, an equals sign and a value, which may
/// hold further equals signs; a part without one says nothing.
pub proof fn law_part_is_told_by_its_first_equals_sign(number: Seq<char>, v: Seq<char>)
    requires
        free_of(number, '='),
    ensures
        part_meaning(number) is None,
        field_index(number) matches Some(i) ==> part_meaning(number + (seq!['='] + v)) == Some(
            (i, unquoted(v)),
        ),
        field_index(number) is None ==> part_meaning(number + (seq!['='] + v)) is None,
{
    let part = number + (seq!['='] + v);
    lemma_leading_is(part, '=', number.len() as int);
    lemma_leading_is(number, '=', number.len() as int);
    assert(part.take(number.len() as int) == number);
    assert(part.skip(number.len() as int + 1) == v);
}

} // verus!
