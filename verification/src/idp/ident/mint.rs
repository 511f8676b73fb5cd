//! The values of the NameIDs that the database issues.

use super::forward::{make_reverse_key, owner, reverse_key};
use super::store::{Contents, IdentityStore};
use crate::digest::{hex, random_seed, sha256, sha256_digest, to_hex};
use crate::saml::constants::NAMEID_EMAIL;
use crate::text::{concat, opt_str, same};
use vstd::prelude::*;
use vstd::string::*;
use vstd::utf8::encode_utf8;

verus! {

/// The domain of email-format NameIDs where none is configured.
pub const DEFAULT_DOMAIN: &'static str = "idp.example.org";

/// An optional text, or the empty one.
pub open spec fn or_empty(s: Option<Seq<char>>) -> Seq<char> {
    match s {
        Some(t) => t,
        None => Seq::empty(),
    }
}

/// The bytes whose digest names a new NameID: the seed, then the format and
/// the two qualifiers.
pub open spec fn id_input(
    seed: Seq<u8>,
    format: Seq<char>,
    name_qualifier: Option<Seq<char>>,
    sp_name_qualifier: Option<Seq<char>>,
) -> Seq<u8> {
    seed + encode_utf8(format) + encode_utf8(or_empty(name_qualifier)) + encode_utf8(
        or_empty(sp_name_qualifier),
    )
}

/// A NameID value with the opaque part `id`: email-format values have a domain.
pub open spec fn id_value(id: Seq<char>, format: Seq<char>, domain: Option<Seq<char>>) -> Seq<char> {
    if format == NAMEID_EMAIL@ {
        id.push('@') + match domain {
            Some(d) => d,
            None => DEFAULT_DOMAIN@,
        }
    } else {
        id
    }
}

/// `n` zeros.
pub open spec fn zeros(n: nat) -> Seq<char> {
    Seq::new(n, |i: int| '0')
}

/// The value that a seed gives: the digest in hexadecimal. Zeros follow only
/// where no draw came up with a free value.
pub open spec fn value_of_seed(
    seed: Seq<u8>,
    pad: nat,
    format: Seq<char>,
    name_qualifier: Option<Seq<char>>,
    sp_name_qualifier: Option<Seq<char>>,
    domain: Option<Seq<char>>,
) -> Seq<char> {
    id_value(
        hex(sha256_digest(id_input(seed, format, name_qualifier, sp_name_qualifier))) + zeros(pad),
        format,
        domain,
    )
}

/// Whether a value is one that a draw comes up with.
pub open spec fn is_drawn(
    value: Seq<char>,
    format: Seq<char>,
    name_qualifier: Option<Seq<char>>,
    sp_name_qualifier: Option<Seq<char>>,
    domain: Option<Seq<char>>,
) -> bool {
    exists|seed: Seq<u8>|
        seed.len() == 32 && value == #[trigger] value_of_seed(
            seed,
            0,
            format,
            name_qualifier,
            sp_name_qualifier,
            domain,
        )
}

/// Whether a value is one that the database issues: one that is drawn, and
/// followed by no more zeros than it takes for no user to own it.
pub open spec fn is_minted(
    m: Contents,
    value: Seq<char>,
    format: Seq<char>,
    name_qualifier: Option<Seq<char>>,
    sp_name_qualifier: Option<Seq<char>>,
    domain: Option<Seq<char>>,
) -> bool {
    exists|seed: Seq<u8>, pad: nat|
        {
            &&& seed.len() == 32
            &&& value == #[trigger] value_of_seed(
                seed,
                pad,
                format,
                name_qualifier,
                sp_name_qualifier,
                domain,
            )
            &&& owner(m, value) is None
            &&& forall|fewer: nat|
                fewer < pad ==> owner(
                    m,
                    #[trigger] value_of_seed(
                        seed,
                        fewer,
                        format,
                        name_qualifier,
                        sp_name_qualifier,
                        domain,
                    ),
                ) is Some
        }
}

fn push_text(bytes: &mut Vec<u8>, s: Option<&str>)
    ensures
        final(bytes)@ == old(bytes)@ + encode_utf8(or_empty(opt_str(s))),
{
    match s {
        Some(t) => {
            bytes.extend_from_slice(t.as_bytes());
        },
        None => {
            proof {
                reveal_with_fuel(encode_utf8, 1);
            }
            assert(bytes@ + encode_utf8(Seq::<char>::empty()) == bytes@);
        },
    }
}

/// The opaque part of the value that a seed gives.
pub fn id_from_seed(
    seed: &[u8],
    format: &str,
    name_qualifier: Option<&str>,
    sp_name_qualifier: Option<&str>,
) -> (result: String)
    ensures
        result@ == hex(
            sha256_digest(
                id_input(seed@, format@, opt_str(name_qualifier), opt_str(sp_name_qualifier)),
            ),
        ),
{
    let mut input: Vec<u8> = Vec::new();
    input.extend_from_slice(seed);
    assert(input@ == seed@);
    push_text(&mut input, Some(format));
    push_text(&mut input, name_qualifier);
    push_text(&mut input, sp_name_qualifier);
    to_hex(sha256(input.as_slice()).as_slice())
}

/// A NameID value with the opaque part `id`.
pub fn value_with_id(id: &str, format: &str, domain: Option<&str>) -> (result: String)
    ensures
        result@ == id_value(id@, format@, opt_str(domain)),
{
    if same(format, NAMEID_EMAIL) {
        let mut out = id.to_owned();
        out.push('@');
        concat(
            out.as_str(),
            match domain {
                Some(d) => d,
                None => DEFAULT_DOMAIN,
            },
        )
    } else {
        id.to_owned()
    }
}

/// Draw a value for a new NameID. It may already be in use.
pub fn draw_value(
    format: &str,
    name_qualifier: Option<&str>,
    sp_name_qualifier: Option<&str>,
    domain: Option<&str>,
) -> (result: String)
    ensures
        is_drawn(
            result@,
            format@,
            opt_str(name_qualifier),
            opt_str(sp_name_qualifier),
            opt_str(domain),
        ),
{
    let seed = random_seed();
    let id = id_from_seed(seed.as_slice(), format, name_qualifier, sp_name_qualifier);
    let value = value_with_id(id.as_str(), format, domain);
    assert(id@ + zeros(0) == id@);
    assert(value@ == value_of_seed(
        seed@,
        0,
        format@,
        opt_str(name_qualifier),
        opt_str(sp_name_qualifier),
        opt_str(domain),
    ));
    value
}

/// The keys of at least `n` characters.
pub open spec fn long_keys(m: Contents, n: nat) -> Set<Seq<char>> {
    m.dom().filter(|k: Seq<char>| k.len() >= n)
}

proof fn lemma_long_keys(m: Contents, key: Seq<char>)
    requires
        m.dom().finite(),
        m.contains_key(key),
    ensures
        long_keys(m, key.len()).finite(),
        long_keys(m, key.len() + 1).len() < long_keys(m, key.len()).len(),
{
    let big = long_keys(m, key.len());
    let small = long_keys(m, key.len() + 1);
    m.dom().lemma_len_filter(|k: Seq<char>| k.len() >= key.len());
    assert(big.contains(key));
    assert(small.subset_of(big.remove(key)));
    vstd::set_lib::lemma_len_subset(small, big.remove(key));
}

/// A value for a new NameID that no user owns yet.
///
/// Draws until a value comes up that is free. Where no draw does, which takes
/// more draws than any process makes, the last one is extended.
pub fn create_id<S: IdentityStore>(
    store: &S,
    format: &str,
    name_qualifier: Option<&str>,
    sp_name_qualifier: Option<&str>,
    domain: Option<&str>,
) -> (result: String)
    ensures
        owner(store.contents(), result@) is None,
        is_minted(
            store.contents(),
            result@,
            format@,
            opt_str(name_qualifier),
            opt_str(sp_name_qualifier),
            opt_str(domain),
        ),
{
    let mut left: u64 = u64::MAX;
    while left > 0
        decreases left,
    {
        let value = draw_value(format, name_qualifier, sp_name_qualifier, domain);
        if store.get(make_reverse_key(value.as_str()).as_str()).is_none() {
            return value;
        }
        left -= 1;
    }
    let seed = random_seed();
    let mut id = id_from_seed(seed.as_slice(), format, name_qualifier, sp_name_qualifier);
    let ghost base = id@;
    let ghost pad: nat = 0;
    let mut value = value_with_id(id.as_str(), format, domain);
    assert(base + zeros(0) == base);
    let mut taken = store.get(make_reverse_key(value.as_str()).as_str()).is_some();
    while taken
        invariant
            taken == (owner(store.contents(), value@) is Some),
            store.contents().dom().finite(),
            seed@.len() == 32,
            base == hex(
                sha256_digest(
                    id_input(seed@, format@, opt_str(name_qualifier), opt_str(sp_name_qualifier)),
                ),
            ),
            id@ == base + zeros(pad),
            value@ == id_value(id@, format@, opt_str(domain)),
            forall|fewer: nat|
                fewer < pad ==> owner(
                    store.contents(),
                    #[trigger] value_of_seed(
                        seed@,
                        fewer,
                        format@,
                        opt_str(name_qualifier),
                        opt_str(sp_name_qualifier),
                        opt_str(domain),
                    ),
                ) is Some,
        decreases long_keys(store.contents(), reverse_key(value@).len()).len(),
    {
        proof {
            lemma_long_keys(store.contents(), reverse_key(value@));
            assert((base + zeros(pad)).push('0') == base + zeros(pad + 1));
            pad = pad + 1;
        }
        let ghost before = reverse_key(value@);
        id.push('0');
        value = value_with_id(id.as_str(), format, domain);
        assert(reverse_key(value@).len() == before.len() + 1);
        taken = store.get(make_reverse_key(value.as_str()).as_str()).is_some();
    }
    assert(value@ == value_of_seed(
        seed@,
        pad,
        format@,
        opt_str(name_qualifier),
        opt_str(sp_name_qualifier),
        opt_str(domain),
    ));
    value
}

} // verus!
