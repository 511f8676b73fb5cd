//! Digests, random bytes and their hexadecimal form.

use sha2::Digest;
use vstd::prelude::*;

verus! {

/// The SHA-256 digest of `data`.
pub uninterp spec fn sha256_digest(data: Seq<u8>) -> Seq<u8>;

/// `sha2::Sha256::digest` gives the SHA-256 digest of its argument, which has
/// 32 bytes and depends on the argument alone.
#[verifier::external_body]
pub(crate) fn sha256(data: &[u8]) -> (result: Vec<u8>)
    ensures
        result@ == sha256_digest(data@),
        result@.len() == 32,
{
    sha2::Sha256::digest(data).to_vec()
}

/// `rand::fill` overwrites a byte array with random bytes. Nothing is claimed
/// of the bytes: only that 32 come back.
#[verifier::external_body]
pub(crate) fn random_seed() -> (result: Vec<u8>)
    ensures
        result@.len() == 32,
{
    let mut seed = [0u8; 32];
    rand::fill(&mut seed);
    seed.to_vec()
}

/// The hexadecimal digit of a number below 16.
pub open spec fn hex_digit(n: int) -> char {
    if n == 0 {
        '0'
    } else if n == 1 {
        '1'
    } else if n == 2 {
        '2'
    } else if n == 3 {
        '3'
    } else if n == 4 {
        '4'
    } else if n == 5 {
        '5'
    } else if n == 6 {
        '6'
    } else if n == 7 {
        '7'
    } else if n == 8 {
        '8'
    } else if n == 9 {
        '9'
    } else if n == 10 {
        'a'
    } else if n == 11 {
        'b'
    } else if n == 12 {
        'c'
    } else if n == 13 {
        'd'
    } else if n == 14 {
        'e'
    } else {
        'f'
    }
}

/// Bytes in hexadecimal: two lower-case digits each.
pub open spec fn hex(bytes: Seq<u8>) -> Seq<char> {
    Seq::new(
        2 * bytes.len(),
        |i: int|
            if i % 2 == 0 {
                hex_digit(bytes[i / 2] as int / 16)
            } else {
                hex_digit(bytes[i / 2] as int % 16)
            },
    )
}

fn digit(n: u8) -> (result: char)
    requires
        n < 16,
    ensures
        result == hex_digit(n as int),
{
    match n {
        0 => '0',
        1 => '1',
        2 => '2',
        3 => '3',
        4 => '4',
        5 => '5',
        6 => '6',
        7 => '7',
        8 => '8',
        9 => '9',
        10 => 'a',
        11 => 'b',
        12 => 'c',
        13 => 'd',
        14 => 'e',
        _ => 'f',
    }
}

/// Bytes in hexadecimal.
pub fn to_hex(bytes: &[u8]) -> (result: String)
    ensures
        result@ == hex(bytes@),
{
    let mut out = String::new();
    let mut i: usize = 0;
    assert(hex(bytes@.take(0)) == out@);
    while i < bytes.len()
        invariant
            i <= bytes@.len(),
            out@ == hex(bytes@.take(i as int)),
        decreases bytes@.len() - i,
    {
        let ghost before = out@;
        out.push(digit(bytes[i] / 16));
        out.push(digit(bytes[i] % 16));
        i += 1;
        assert(out@ == hex(bytes@.take(i as int))) by {
            let now = hex(bytes@.take(i as int));
            assert(out@.len() == now.len());
            assert forall|k: int| 0 <= k < now.len() implies out@[k] == now[k] by {
                if k < before.len() {
                    assert(before[k] == out@[k]);
                    assert(bytes@.take(i - 1)[k / 2] == bytes@.take(i as int)[k / 2]);
                } else {
                    assert(k / 2 == i - 1);
                }
            }
        }
    }
    assert(bytes@.take(bytes@.len() as int) == bytes@);
    out
}

/// Hexadecimal tells byte strings apart.
pub proof fn law_hex_is_injective(a: Seq<u8>, b: Seq<u8>)
    requires
        hex(a) == hex(b),
    ensures
        a == b,
{
    assert(hex(a).len() == 2 * a.len());
    assert(hex(b).len() == 2 * b.len());
    assert forall|i: int| 0 <= i < a.len() implies a[i] == b[i] by {
        assert(hex(a)[2 * i] == hex_digit(a[i] as int / 16));
        assert(hex(b)[2 * i] == hex_digit(b[i] as int / 16));
        assert(hex(a)[2 * i + 1] == hex_digit(a[i] as int % 16));
        assert(hex(b)[2 * i + 1] == hex_digit(b[i] as int % 16));
    }
    assert(a =~= b);
}

/// The number that a hexadecimal digit stands for.
pub open spec fn digit_value(c: char) -> int {
    if '0' <= c <= '9' {
        c as int - '0' as int
    } else {
        c as int - 'a' as int + 10
    }
}

/// Hexadecimal says what the bytes are: two digits for each, from `0` to `9` and
/// from `a` to `f`, the higher one first.
pub proof fn law_hex_says_the_bytes(bytes: Seq<u8>, i: int)
    requires
        0 <= i < bytes.len(),
    ensures
        hex(bytes).len() == 2 * bytes.len(),
        ({
            let high = hex(bytes)[2 * i];
            let low = hex(bytes)[2 * i + 1];
            &&& '0' <= high <= '9' || 'a' <= high <= 'f'
            &&& '0' <= low <= '9' || 'a' <= low <= 'f'
            &&& bytes[i] == 16 * digit_value(high) + digit_value(low)
        }),
{
    let b = bytes[i] as int;
    assert(hex(bytes)[2 * i] == hex_digit(b / 16)) by {
        assert((2 * i) % 2 == 0 && (2 * i) / 2 == i);
    }
    assert(hex(bytes)[2 * i + 1] == hex_digit(b % 16)) by {
        assert((2 * i + 1) % 2 == 1 && (2 * i + 1) / 2 == i);
    }
    assert(0 <= b / 16 < 16 && 0 <= b % 16 < 16);
    lemma_digit_value(b / 16);
    lemma_digit_value(b % 16);
}

proof fn lemma_digit_value(n: int)
    requires
        0 <= n < 16,
    ensures
        digit_value(hex_digit(n)) == n,
        '0' <= hex_digit(n) <= '9' || 'a' <= hex_digit(n) <= 'f',
{
}

/// Whether a text is an identifier that the library makes: an underscore, then
/// 32 bytes in hexadecimal.
pub open spec fn is_new_id(id: Seq<char>) -> bool {
    exists|seed: Seq<u8>| seed.len() == 32 && id == "_"@ + #[trigger] hex(seed)
}

/// A random identifier for a message.
pub fn new_id() -> (result: String)
    ensures
        is_new_id(result@),
{
    let seed = random_seed();
    crate::text::concat("_", to_hex(seed.as_slice()).as_str())
}

/// An identifier of a message has the form that XML asks of one: it begins with
/// an underscore, and 64 hexadecimal digits follow.
pub proof fn law_new_id_is_an_xml_id(id: Seq<char>, i: int)
    requires
        is_new_id(id),
    ensures
        id.len() == 65,
        id[0] == '_',
        0 < i < 65 ==> '0' <= id[i] <= '9' || 'a' <= id[i] <= 'f',
{
    reveal_strlit("_");
    let seed = choose|seed: Seq<u8>| seed.len() == 32 && id == "_"@ + #[trigger] hex(seed);
    if 0 < i < 65 {
        let at = (i - 1) / 2;
        law_hex_says_the_bytes(seed, at);
        assert(id[i] == hex(seed)[i - 1]);
        assert(i - 1 == 2 * at || i - 1 == 2 * at + 1);
    }
}

} // verus!
