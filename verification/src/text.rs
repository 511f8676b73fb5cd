//! Strings as sequences of characters: the few operations the rest of the
//! library needs, each with the mathematical function it computes.

use vstd::prelude::*;
use vstd::string::StringExecFns;

verus! {

/// `String::push` appends one character to the end of the string.
pub assume_specification[ std::string::String::push ](s: &mut std::string::String, c: char)
    ensures
        final(s)@ == old(s)@.push(c),
;

/// What `<str as Debug>` writes for a text: the text between quotation marks, with
/// what is not to be shown as it is escaped. Which characters are escaped, and
/// how, is left to std.
pub uninterp spec fn debug_text(s: Seq<char>) -> Seq<char>;

/// `format!` with `{:?}` calls `<str as Debug>::fmt`, which writes a text that
/// depends on the given one alone.
#[verifier::external_body]
pub(crate) fn quoted(s: &str) -> (result: String)
    ensures
        result@ == debug_text(s@),
{
    format!("{s:?}")
}

/// Whether two texts are the same.
pub fn same(a: &str, b: &str) -> (result: bool)
    ensures
        result == (a@ == b@),
{
    let x = to_chars(a);
    let y = to_chars(b);
    if x.len() != y.len() {
        return false;
    }
    let mut i: usize = 0;
    while i < x.len()
        invariant
            x@ == a@,
            y@ == b@,
            x@.len() == y@.len(),
            i <= x@.len(),
            x@.take(i as int) == y@.take(i as int),
        decreases x@.len() - i,
    {
        if x[i] != y[i] {
            assert(x@ != y@);
            return false;
        }
        assert(x@.take(i + 1) == x@.take(i as int).push(x@[i as int]));
        assert(y@.take(i + 1) == y@.take(i as int).push(y@[i as int]));
        i += 1;
    }
    assert(x@.take(x@.len() as int) == x@ && y@.take(y@.len() as int) == y@);
    true
}

/// The text an optional string holds, if any.
pub open spec fn opt_text(s: Option<String>) -> Option<Seq<char>> {
    match s {
        Some(t) => Some(t@),
        None => None,
    }
}

/// The text an optional string slice holds, if any.
pub open spec fn opt_str(s: Option<&str>) -> Option<Seq<char>> {
    match s {
        Some(t) => Some(t@),
        None => None,
    }
}

/// The texts a sequence of strings holds.
pub open spec fn texts(v: Seq<String>) -> Seq<Seq<char>> {
    Seq::new(v.len(), |i: int| v[i]@)
}

/// A borrowed view of an optional string.
pub fn as_opt_str(s: &Option<String>) -> (result: Option<&str>)
    ensures
        opt_str(result) == opt_text(*s),
{
    match s {
        Some(t) => Some(t.as_str()),
        None => None,
    }
}

/// An owned copy of an optional string slice.
pub fn to_opt_string(s: Option<&str>) -> (result: Option<String>)
    ensures
        opt_text(result) == opt_str(s),
{
    match s {
        Some(t) => Some(t.to_owned()),
        None => None,
    }
}

/// Whether two optional texts are the same: both absent, or both present and equal.
pub fn same_opt(a: Option<&str>, b: Option<&str>) -> (result: bool)
    ensures
        result == (opt_str(a) == opt_str(b)),
{
    match (a, b) {
        (Some(x), Some(y)) => same(x, y),
        (None, None) => true,
        _ => false,
    }
}

/// The characters of a string slice.
pub fn to_chars(s: &str) -> (result: Vec<char>)
    ensures
        result@ == s@,
{
    let mut out: Vec<char> = Vec::new();
    for c in it: s.chars()
        invariant
            out@ == it.seq().take(it.index()),
    {
        out.push(c);
    }
    out
}

/// The string made of `chars`.
pub fn from_chars(chars: &[char]) -> (result: String)
    ensures
        result@ == chars@,
{
    let mut out = String::new();
    let mut i: usize = 0;
    while i < chars.len()
        invariant
            i <= chars@.len(),
            out@ == chars@.take(i as int),
        decreases chars@.len() - i,
    {
        assert(chars@.take(i + 1) == chars@.take(i as int).push(chars@[i as int]));
        out.push(chars[i]);
        i += 1;
    }
    assert(chars@.take(chars@.len() as int) == chars@);
    out
}

/// A copy of a list of strings.
pub fn clone_strings(v: &[String]) -> (result: Vec<String>)
    ensures
        texts(result@) == texts(v@),
{
    let mut out: Vec<String> = Vec::new();
    let mut i: usize = 0;
    while i < v.len()
        invariant
            i <= v@.len(),
            texts(out@) == texts(v@).take(i as int),
        decreases v@.len() - i,
    {
        let ghost before = texts(out@);
        out.push(v[i].clone());
        assert(texts(out@) == before.push(v@[i as int]@));
        assert(texts(v@).take(i + 1) == before.push(v@[i as int]@));
        i += 1;
    }
    assert(texts(v@).take(v@.len() as int) == texts(v@));
    out
}

/// Whether `s` is among `v`.
pub fn contains_text(v: &[String], s: &str) -> (result: bool)
    ensures
        result == texts(v@).contains(s@),
{
    let mut i: usize = 0;
    while i < v.len()
        invariant
            i <= v@.len(),
            forall|k: int| 0 <= k < i ==> texts(v@)[k] != s@,
        decreases v@.len() - i,
    {
        if same(v[i].as_str(), s) {
            assert(texts(v@)[i as int] == s@);
            return true;
        }
        i += 1;
    }
    false
}

/// `a` followed by `b`.
pub fn concat(a: &str, b: &str) -> (result: String)
    ensures
        result@ == a@ + b@,
{
    let mut out = a.to_owned();
    out.append(b);
    out
}

/// The pieces of `s` between occurrences of `sep`: one more than the number
/// of occurrences, in order.
pub open spec fn split(s: Seq<char>, sep: char) -> Seq<Seq<char>>
    decreases s.len(),
{
    if s.len() == 0 {
        seq![Seq::<char>::empty()]
    } else {
        let front = split(s.drop_last(), sep);
        if s.last() == sep {
            front.push(Seq::empty())
        } else {
            front.drop_last().push(front.last().push(s.last()))
        }
    }
}

/// `parts` with `sep` between each two neighbours.
pub open spec fn join(parts: Seq<Seq<char>>, sep: char) -> Seq<char>
    decreases parts.len(),
{
    if parts.len() == 0 {
        Seq::empty()
    } else if parts.len() == 1 {
        parts[0]
    } else {
        join(parts.drop_last(), sep).push(sep) + parts.last()
    }
}

/// The pieces of a string between occurrences of a separator.
pub fn split_on(s: &str, sep: char) -> (result: Vec<String>)
    ensures
        texts(result@) == split(s@, sep),
{
    let mut parts: Vec<String> = Vec::new();
    let mut cur = String::new();
    for c in it: s.chars()
        invariant
            split(it.seq().take(it.index()), sep) == texts(parts@).push(cur@),
    {
        proof {
            let before = it.seq().take(it.index());
            let after = it.seq().take(it.index() + 1);
            assert(after.drop_last() == before);
            assert(after.last() == c);
            assert(texts(parts@).push(cur@).drop_last() == texts(parts@));
        }
        if c == sep {
            let ghost prev = texts(parts@).push(cur@);
            parts.push(cur);
            assert(texts(parts@) == prev);
            cur = String::new();
        } else {
            cur.push(c);
        }
    }
    let ghost done = texts(parts@).push(cur@);
    parts.push(cur);
    assert(texts(parts@) == done);
    assert(s@.take(s@.len() as int) == s@);
    parts
}

/// The strings of `parts` with `sep` between each two neighbours.
pub fn join_with(parts: &[String], sep: char) -> (result: String)
    ensures
        result@ == join(texts(parts@), sep),
{
    let mut out = String::new();
    let mut i: usize = 0;
    while i < parts.len()
        invariant
            i <= parts@.len(),
            out@ == join(texts(parts@).take(i as int), sep),
        decreases parts@.len() - i,
    {
        proof {
            let ts = texts(parts@);
            assert(ts.take(i + 1).drop_last() == ts.take(i as int));
            assert(ts.take(i + 1).last() == parts@[i as int]@);
            assert(i == 0 ==> out@ + parts@[0]@ == parts@[0]@);
        }
        if i > 0 {
            out.push(sep);
        }
        out.append(parts[i].as_str());
        i += 1;
    }
    assert(texts(parts@).take(parts@.len() as int) == texts(parts@));
    out
}

/// How many characters of `s` come before the first `c`: all of them if there
/// is none.
pub open spec fn leading(s: Seq<char>, c: char) -> nat
    decreases s.len(),
{
    if s.len() == 0 || s[0] == c {
        0
    } else {
        1 + leading(s.skip(1), c)
    }
}

/// `leading(s, c)` is the place of the first `c`, or the length of `s`.
pub proof fn lemma_leading(s: Seq<char>, c: char)
    ensures
        leading(s, c) <= s.len(),
        forall|i: int| 0 <= i < leading(s, c) ==> s[i] != c,
        leading(s, c) < s.len() ==> s[leading(s, c) as int] == c,
    decreases s.len(),
{
    if s.len() > 0 && s[0] != c {
        let rest = s.skip(1);
        lemma_leading(rest, c);
        assert forall|i: int| 0 <= i < leading(s, c) implies s[i] != c by {
            if i > 0 {
                assert(s[i] == rest[i - 1]);
            }
        }
    }
}

/// The place of the first `c` is known once it is seen.
pub proof fn lemma_leading_is(s: Seq<char>, c: char, n: int)
    requires
        0 <= n <= s.len(),
        forall|i: int| 0 <= i < n ==> s[i] != c,
        n < s.len() ==> s[n] == c,
    ensures
        leading(s, c) == n,
{
    lemma_leading(s, c);
    if leading(s, c) < n {
        assert(s[leading(s, c) as int] != c);
    }
}

/// The place of the first `c` in `chars`, or its length if there is none.
pub fn find_char(chars: &[char], c: char) -> (result: usize)
    ensures
        result == leading(chars@, c),
        result <= chars@.len(),
{
    let mut i: usize = 0;
    while i < chars.len()
        invariant
            i <= chars@.len(),
            forall|k: int| 0 <= k < i ==> chars@[k] != c,
        decreases chars@.len() - i,
    {
        if chars[i] == c {
            proof {
                lemma_leading_is(chars@, c, i as int);
            }
            return i;
        }
        i += 1;
    }
    proof {
        lemma_leading_is(chars@, c, i as int);
    }
    i
}

/// A text that can stand as one piece of a joined list.
pub open spec fn free_of(s: Seq<char>, sep: char) -> bool {
    !s.contains(sep)
}

/// Every piece `split` gives is free of the separator, and there is at least one.
pub proof fn lemma_split_pieces(s: Seq<char>, sep: char)
    ensures
        split(s, sep).len() >= 1,
        forall|i: int| 0 <= i < split(s, sep).len() ==> free_of(#[trigger] split(s, sep)[i], sep),
    decreases s.len(),
{
    if s.len() > 0 {
        lemma_split_pieces(s.drop_last(), sep);
        let front = split(s.drop_last(), sep);
        assert(free_of(front.last(), sep)) by {
            assert(front[front.len() - 1] == front.last());
        }
    }
}

proof fn lemma_split_append(a: Seq<char>, last: Seq<char>, sep: char)
    requires
        free_of(last, sep),
    ensures
        split(a.push(sep) + last, sep) == split(a, sep).push(last),
    decreases last.len(),
{
    let whole = a.push(sep) + last;
    if last.len() == 0 {
        assert(whole == a.push(sep));
        assert(whole.drop_last() == a);
        assert(last == Seq::<char>::empty());
    } else {
        let shorter = last.drop_last();
        assert(free_of(shorter, sep)) by {
            assert forall|i: int| 0 <= i < shorter.len() implies shorter[i] != sep by {
                assert(last[i] == shorter[i]);
                assert(last.contains(last[i]));
            }
        }
        lemma_split_append(a, shorter, sep);
        assert(whole.drop_last() == a.push(sep) + shorter);
        assert(last.contains(last.last()));
        assert(whole.last() == last.last());
        assert(split(a, sep).push(shorter).drop_last() == split(a, sep));
        assert(shorter.push(last.last()) == last);
    }
}

proof fn lemma_split_whole(s: Seq<char>, sep: char)
    requires
        free_of(s, sep),
    ensures
        split(s, sep) == seq![s],
    decreases s.len(),
{
    if s.len() > 0 {
        let shorter = s.drop_last();
        assert(free_of(shorter, sep)) by {
            assert forall|i: int| 0 <= i < shorter.len() implies shorter[i] != sep by {
                assert(s[i] == shorter[i]);
                assert(s.contains(s[i]));
            }
        }
        lemma_split_whole(shorter, sep);
        assert(s.contains(s.last()));
        assert(shorter.push(s.last()) == s);
    } else {
        assert(s == Seq::<char>::empty());
    }
}

/// Splitting undoes joining: pieces that are free of the separator come back
/// unchanged.
pub proof fn law_split_undoes_join(parts: Seq<Seq<char>>, sep: char)
    requires
        parts.len() >= 1,
        forall|i: int| 0 <= i < parts.len() ==> free_of(#[trigger] parts[i], sep),
    ensures
        split(join(parts, sep), sep) == parts,
    decreases parts.len(),
{
    if parts.len() == 1 {
        lemma_split_whole(parts[0], sep);
        assert(parts == seq![parts[0]]);
    } else {
        law_split_undoes_join(parts.drop_last(), sep);
        assert(free_of(parts[parts.len() - 1], sep));
        lemma_split_append(join(parts.drop_last(), sep), parts.last(), sep);
        assert(parts.drop_last().push(parts.last()) == parts);
    }
}

/// The decimal digit of a number below 10.
pub open spec fn digit(n: nat) -> char {
    if n == 0 {
        '0'
    } else if n == 1 {
        '1'
    } else if n == 2 {
        '2'
    } else if n == 3 {
        '3'
    } else if n == 4 {
        '4'
    } else if n == 5 {
        '5'
    } else if n == 6 {
        '6'
    } else if n == 7 {
        '7'
    } else if n == 8 {
        '8'
    } else {
        '9'
    }
}

/// A number in decimal.
pub open spec fn decimal(n: nat) -> Seq<char>
    decreases n,
{
    if n < 10 {
        seq![digit(n)]
    } else {
        decimal(n / 10).push(digit(n % 10))
    }
}

fn digit_of(n: u128) -> (result: char)
    requires
        n < 10,
    ensures
        result == digit(n as nat),
{
    if n == 0 {
        '0'
    } else if n == 1 {
        '1'
    } else if n == 2 {
        '2'
    } else if n == 3 {
        '3'
    } else if n == 4 {
        '4'
    } else if n == 5 {
        '5'
    } else if n == 6 {
        '6'
    } else if n == 7 {
        '7'
    } else if n == 8 {
        '8'
    } else {
        '9'
    }
}

/// A number in decimal.
pub fn decimal_text(n: u128) -> (result: String)
    ensures
        result@ == decimal(n as nat),
    decreases n,
{
    if n < 10 {
        let mut out = String::new();
        out.push(digit_of(n));
        assert(out@ == decimal(n as nat));
        out
    } else {
        let mut out = decimal_text(n / 10);
        out.push(digit_of(n % 10));
        out
    }
}

/// The number that decimal digits stand for.
pub open spec fn number_of(digits: Seq<char>) -> int
    decreases digits.len(),
{
    if digits.len() == 0 {
        0
    } else {
        10 * number_of(digits.drop_last()) + (digits.last() as int - '0' as int)
    }
}

/// Decimal digits say the number: they are digits, they stand for it, and none
/// is there that need not be.
pub proof fn law_decimal_says_the_number(n: nat)
    ensures
        number_of(decimal(n)) == n,
        decimal(n).len() > 0,
        decimal(n).len() > 1 ==> decimal(n)[0] != '0',
        forall|i: int| 0 <= i < decimal(n).len() ==> '0' <= #[trigger] decimal(n)[i] <= '9',
    decreases n,
{
    reveal_with_fuel(number_of, 2);
    if n < 10 {
        assert(decimal(n).drop_last() == Seq::<char>::empty());
    } else {
        let front = decimal(n / 10);
        law_decimal_says_the_number(n / 10);
        assert(decimal(n).drop_last() == front);
        assert forall|i: int| 0 <= i < decimal(n).len() implies '0' <= #[trigger] decimal(n)[i]
            <= '9' by {
            if i < front.len() {
                assert(decimal(n)[i] == front[i]);
            }
        }
        assert(decimal(n)[0] == front[0]);
        if front.len() == 1 && front[0] == '0' {
            assert(front.drop_last() == Seq::<char>::empty());
            assert(number_of(front) == 0);
        }
    }
}

/// The texts of strings are those of each, in order.
pub proof fn law_texts_are_those_of_each(v: Seq<String>, i: int, s: Option<String>)
    ensures
        texts(v).len() == v.len(),
        0 <= i < v.len() ==> texts(v)[i] == v[i]@,
        opt_text(s) is Some <==> s is Some,
        s matches Some(t) ==> opt_text(s) == Some(t@),
{
}

} // verus!
