//! The authentication methods of an identity provider, and which of them meet
//! a requested authentication context.

use crate::saml::request::{
    opt_context_ref, AuthnContextComparison, RequestedAuthnContext, RequestedAuthnContextView,
};
use crate::text::{
    as_opt_str, contains_text, decimal, decimal_text, opt_str, opt_text, same, texts, to_opt_string,
};
use vstd::prelude::*;

verus! {

/// A registered authentication method.
#[derive(Debug, PartialEq, Eq)]
pub struct AuthnMethod {
    /// The reference the broker gave it.
    pub reference: String,
    /// The authentication context class it provides.
    pub class_ref: String,
    /// How the application runs it, such as a login URL.
    pub method: String,
    /// How strong it is.
    pub level: u32,
    /// The authority that authenticates, if not this identity provider.
    pub authn_authority: Option<String>,
}

/// What an [`AuthnMethod`] says.
#[verifier::ext_equal]
pub struct AuthnMethodView {
    pub reference: Seq<char>,
    pub class_ref: Seq<char>,
    pub method: Seq<char>,
    pub level: u32,
    pub authn_authority: Option<Seq<char>>,
}

impl View for AuthnMethod {
    type V = AuthnMethodView;

    open spec fn view(&self) -> AuthnMethodView {
        AuthnMethodView {
            reference: self.reference@,
            class_ref: self.class_ref@,
            method: self.method@,
            level: self.level,
            authn_authority: opt_text(self.authn_authority),
        }
    }
}

impl Clone for AuthnMethod {
    fn clone(&self) -> (result: Self)
        ensures
            result@ == self@,
    {
        AuthnMethod {
            reference: self.reference.clone(),
            class_ref: self.class_ref.clone(),
            method: self.method.clone(),
            level: self.level,
            authn_authority: to_opt_string(as_opt_str(&self.authn_authority)),
        }
    }
}

/// What a list of methods says.
pub open spec fn method_views(v: Seq<AuthnMethod>) -> Seq<AuthnMethodView> {
    Seq::new(v.len(), |i: int| v[i]@)
}

/// The registered authentication methods.
#[derive(Debug, Clone)]
pub struct AuthnBroker {
    methods: Vec<AuthnMethod>,
    exact_level_matching: bool,
}

/// Where the first method of a class is: the number of methods if there is none.
pub open spec fn first_of_class(ms: Seq<AuthnMethodView>, class_ref: Seq<char>) -> nat
    decreases ms.len(),
{
    if ms.len() == 0 || ms[0].class_ref == class_ref {
        0
    } else {
        1 + first_of_class(ms.skip(1), class_ref)
    }
}

/// The strength of a class: that of the first method registered for it.
pub open spec fn level_of(ms: Seq<AuthnMethodView>, class_ref: Seq<char>) -> Option<u32> {
    let at = first_of_class(ms, class_ref);
    if at < ms.len() {
        Some(ms[at as int].level)
    } else {
        None
    }
}

/// Whether a method meets a requested context.
///
/// An exact comparison asks for one of the requested classes itself; where
/// matching by level is allowed, a method as strong as one of them also does.
/// The other comparisons go by the strength of the first requested class, and
/// nothing meets a class that is not registered.
pub open spec fn meets(
    ms: Seq<AuthnMethodView>,
    by_level: bool,
    requested: Option<RequestedAuthnContextView>,
    class_ref: Seq<char>,
    level: u32,
) -> bool {
    match requested {
        None => true,
        Some(c) => match c.comparison {
            AuthnContextComparison::Exact => c.class_refs.contains(class_ref) || (by_level
                && exists|i: int|
                0 <= i < c.class_refs.len() && level_of(ms, #[trigger] c.class_refs[i]) == Some(
                    level,
                )),
            AuthnContextComparison::Minimum => c.class_refs.len() > 0 && (level_of(
                ms,
                c.class_refs[0],
            ) matches Some(l) && level >= l),
            AuthnContextComparison::Maximum => c.class_refs.len() > 0 && (level_of(
                ms,
                c.class_refs[0],
            ) matches Some(l) && level <= l),
            AuthnContextComparison::Better => c.class_refs.len() > 0 && (level_of(
                ms,
                c.class_refs[0],
            ) matches Some(l) && level > l),
        },
    }
}

/// The methods that meet a requested context, in the order they were
/// registered.
pub open spec fn picked(
    ms: Seq<AuthnMethodView>,
    by_level: bool,
    requested: Option<RequestedAuthnContextView>,
) -> Seq<AuthnMethodView> {
    ms.filter(|m: AuthnMethodView| meets(ms, by_level, requested, m.class_ref, m.level))
}

/// Where a method with a reference is: the number of methods if there is none.
pub open spec fn referenced(ms: Seq<AuthnMethodView>, reference: Seq<char>) -> nat
    decreases ms.len(),
{
    if ms.len() == 0 || ms[0].reference == reference {
        0
    } else {
        1 + referenced(ms.skip(1), reference)
    }
}

impl AuthnBroker {
    /// The registered methods, in the order they were registered.
    pub closed spec fn methods(&self) -> Seq<AuthnMethodView> {
        method_views(self.methods@)
    }

    /// Whether an exact comparison also matches by level.
    pub closed spec fn by_level(&self) -> bool {
        self.exact_level_matching
    }

    /// A broker without methods, which compares exact classes literally.
    pub fn new() -> (result: Self)
        ensures
            result.methods() == Seq::<AuthnMethodView>::empty(),
            !result.by_level(),
    {
        let result = AuthnBroker { methods: Vec::new(), exact_level_matching: false };
        assert(result.methods() == Seq::<AuthnMethodView>::empty());
        result
    }

    /// Let an exact comparison also match methods as strong as a requested
    /// class.
    pub fn allow_exact_level_matching(self, allow: bool) -> (result: Self)
        ensures
            result.methods() == self.methods(),
            result.by_level() == allow,
    {
        AuthnBroker { methods: self.methods, exact_level_matching: allow }
    }

    /// Register a method. Its reference is its number, counting from one.
    pub fn add(&mut self, class_ref: &str, method: &str, level: u32, authn_authority: Option<&str>)
        ensures
            final(self).methods() == old(self).methods().push(
                (AuthnMethodView {
                    reference: decimal(old(self).methods().len() + 1),
                    class_ref: class_ref@,
                    method: method@,
                    level,
                    authn_authority: opt_str(authn_authority),
                }),
            ),
            final(self).by_level() == old(self).by_level(),
    {
        let number: u128 = self.methods.len() as u128 + 1;
        let ghost before = self.methods();
        let added = AuthnMethod {
            reference: decimal_text(number),
            class_ref: class_ref.to_owned(),
            method: method.to_owned(),
            level,
            authn_authority: to_opt_string(authn_authority),
        };
        let ghost shown = added@;
        self.methods.push(added);
        assert(self.methods() == before.push(shown));
    }

    /// The method with a reference.
    pub fn get(&self, reference: &str) -> (result: Option<&AuthnMethod>)
        ensures
            match result {
                Some(m) => referenced(self.methods(), reference@) < self.methods().len() && m@
                    == self.methods()[referenced(self.methods(), reference@) as int],
                None => referenced(self.methods(), reference@) == self.methods().len(),
            },
    {
        let ghost all = self.methods();
        let mut i: usize = 0;
        assert(all.skip(0) == all);
        while i < self.methods.len()
            invariant
                i <= all.len(),
                all == method_views(self.methods@),
                referenced(all, reference@) == i + referenced(all.skip(i as int), reference@),
            decreases all.len() - i,
        {
            assert(all.skip(i as int)[0] == self.methods@[i as int]@);
            assert(all.skip(i as int).skip(1) == all.skip(i + 1));
            if same(self.methods[i].reference.as_str(), reference) {
                return Some(&self.methods[i]);
            }
            i += 1;
        }
        None
    }

    /// The strength of a class.
    fn class_level(&self, class_ref: &str) -> (result: Option<u32>)
        ensures
            result == level_of(self.methods(), class_ref@),
    {
        let ghost all = self.methods();
        let mut i: usize = 0;
        assert(all.skip(0) == all);
        while i < self.methods.len()
            invariant
                i <= all.len(),
                all == method_views(self.methods@),
                first_of_class(all, class_ref@) == i + first_of_class(
                    all.skip(i as int),
                    class_ref@,
                ),
            decreases all.len() - i,
        {
            assert(all.skip(i as int)[0] == self.methods@[i as int]@);
            assert(all.skip(i as int).skip(1) == all.skip(i + 1));
            if same(self.methods[i].class_ref.as_str(), class_ref) {
                return Some(self.methods[i].level);
            }
            i += 1;
        }
        None
    }

    /// Whether one of some classes has a strength.
    fn any_of_level(&self, refs: &[String], level: u32) -> (result: bool)
        ensures
            result == exists|i: int|
                0 <= i < texts(refs@).len() && level_of(
                    self.methods(),
                    #[trigger] texts(refs@)[i],
                ) == Some(level),
    {
        let mut i: usize = 0;
        while i < refs.len()
            invariant
                i <= refs@.len(),
                forall|k: int|
                    0 <= k < i ==> level_of(self.methods(), #[trigger] texts(refs@)[k]) != Some(
                        level,
                    ),
            decreases refs@.len() - i,
        {
            assert(texts(refs@)[i as int] == refs@[i as int]@);
            if let Some(l) = self.class_level(refs[i].as_str()) {
                if l == level {
                    return true;
                }
            }
            i += 1;
        }
        false
    }

    /// Whether a class with a strength meets a requested context.
    pub fn meets(
        &self,
        requested: Option<&RequestedAuthnContext>,
        class_ref: &str,
        level: u32,
    ) -> (result: bool)
        ensures
            result == meets(
                self.methods(),
                self.by_level(),
                opt_context_ref(requested),
                class_ref@,
                level,
            ),
    {
        let c = match requested {
            None => {
                return true;
            },
            Some(c) => c,
        };
        let refs = c.authn_context_class_refs.as_slice();
        match c.comparison {
            AuthnContextComparison::Exact => {
                if contains_text(refs, class_ref) {
                    return true;
                }
                self.exact_level_matching && self.any_of_level(refs, level)
            },
            AuthnContextComparison::Minimum => {
                if refs.len() == 0 {
                    return false;
                }
                match self.class_level(refs[0].as_str()) {
                    Some(l) => level >= l,
                    None => false,
                }
            },
            AuthnContextComparison::Maximum => {
                if refs.len() == 0 {
                    return false;
                }
                match self.class_level(refs[0].as_str()) {
                    Some(l) => level <= l,
                    None => false,
                }
            },
            AuthnContextComparison::Better => {
                if refs.len() == 0 {
                    return false;
                }
                match self.class_level(refs[0].as_str()) {
                    Some(l) => level > l,
                    None => false,
                }
            },
        }
    }

    /// The methods that meet a requested context, in the order they were
    /// registered: all of them where nothing is requested.
    pub fn pick(&self, requested: Option<&RequestedAuthnContext>) -> (result: Vec<AuthnMethod>)
        ensures
            method_views(result@) == picked(
                self.methods(),
                self.by_level(),
                opt_context_ref(requested),
            ),
    {
        let ghost all = self.methods();
        let ghost pred = |m: AuthnMethodView|
            meets(all, self.by_level(), opt_context_ref(requested), m.class_ref, m.level);
        let mut out: Vec<AuthnMethod> = Vec::new();
        let mut i: usize = 0;
        proof {
            reveal(Seq::filter);
            assert(method_views(out@) == all.take(0).filter(pred));
        }
        while i < self.methods.len()
            invariant
                i <= all.len(),
                all == self.methods(),
                all == method_views(self.methods@),
                pred == (|m: AuthnMethodView|
                    meets(all, self.by_level(), opt_context_ref(requested), m.class_ref, m.level)),
                method_views(out@) == all.take(i as int).filter(pred),
            decreases all.len() - i,
        {
            proof {
                reveal(Seq::filter);
                assert(all.take(i + 1).drop_last() == all.take(i as int));
                assert(all.take(i + 1).last() == self.methods@[i as int]@);
            }
            let m = &self.methods[i];
            let ghost before = method_views(out@);
            if self.meets(requested, m.class_ref.as_str(), m.level) {
                out.push(m.clone());
                assert(method_views(out@) == before.push(m@));
            }
            i += 1;
        }
        assert(all.take(all.len() as int) == all);
        out
    }
}

/// How many methods at the front of a list are at least as strong as `level`.
pub open spec fn as_strong(ms: Seq<AuthnMethodView>, level: u32) -> nat
    decreases ms.len(),
{
    if ms.len() == 0 || ms[0].level < level {
        0
    } else {
        1 + as_strong(ms.skip(1), level)
    }
}

/// The methods from the strongest to the weakest; of two that are equally
/// strong, the one registered first comes first.
pub open spec fn strongest_first(ms: Seq<AuthnMethodView>) -> Seq<AuthnMethodView>
    decreases ms.len(),
{
    if ms.len() == 0 {
        ms
    } else {
        let rest = strongest_first(ms.drop_last());
        rest.insert(as_strong(rest, ms.last().level) as int, ms.last())
    }
}

proof fn lemma_as_strong(ms: Seq<AuthnMethodView>, level: u32)
    ensures
        as_strong(ms, level) <= ms.len(),
        forall|i: int| 0 <= i < as_strong(ms, level) ==> (#[trigger] ms[i]).level >= level,
        as_strong(ms, level) < ms.len() ==> ms[as_strong(ms, level) as int].level < level,
    decreases ms.len(),
{
    if ms.len() > 0 && ms[0].level >= level {
        let rest = ms.skip(1);
        lemma_as_strong(rest, level);
        assert forall|i: int| 0 <= i < as_strong(ms, level) implies (#[trigger] ms[i]).level
            >= level by {
            if i > 0 {
                assert(ms[i] == rest[i - 1]);
            }
        }
    }
}

/// From the strongest to the weakest, the levels never rise, and the methods
/// are the same.
pub proof fn law_strongest_first_is_sorted(ms: Seq<AuthnMethodView>)
    ensures
        strongest_first(ms).to_multiset() == ms.to_multiset(),
        strongest_first(ms).len() == ms.len(),
        forall|i: int, j: int|
            0 <= i < j < ms.len() ==> (#[trigger] strongest_first(ms)[i]).level >= (
            #[trigger] strongest_first(ms)[j]).level,
    decreases ms.len(),
{
    if ms.len() > 0 {
        let front = ms.drop_last();
        let x = ms.last();
        law_strongest_first_is_sorted(front);
        let rest = strongest_first(front);
        let at = as_strong(rest, x.level) as int;
        lemma_as_strong(rest, x.level);
        let out = rest.insert(at, x);
        assert forall|i: int, j: int| 0 <= i < j < out.len() implies (#[trigger] out[i]).level >= (
        #[trigger] out[j]).level by {
            if j < at {
                assert(out[i] == rest[i] && out[j] == rest[j]);
            } else if j == at {
                assert(out[i] == rest[i]);
            } else if i < at {
                assert(out[i] == rest[i] && out[j] == rest[j - 1]);
            } else if i == at {
                assert(out[j] == rest[j - 1]);
                if j - 1 > at {
                    assert(rest[at].level >= rest[j - 1].level);
                }
            } else {
                assert(out[i] == rest[i - 1] && out[j] == rest[j - 1]);
            }
        }
        vstd::seq_lib::to_multiset_insert(rest, at, x);
        assert(front.push(x) == ms);
        broadcast use vstd::seq_lib::group_to_multiset_ensures;
    }
}

/// The methods from the strongest to the weakest.
pub fn sort_strongest_first(methods: Vec<AuthnMethod>) -> (result: Vec<AuthnMethod>)
    ensures
        method_views(result@) == strongest_first(method_views(methods@)),
{
    let ghost all = method_views(methods@);
    let mut out: Vec<AuthnMethod> = Vec::new();
    let mut i: usize = 0;
    assert(method_views(out@) == strongest_first(all.take(0)));
    while i < methods.len()
        invariant
            i <= all.len(),
            all == method_views(methods@),
            method_views(out@) == strongest_first(all.take(i as int)),
        decreases all.len() - i,
    {
        let x = methods[i].clone();
        let ghost rest = method_views(out@);
        proof {
            assert(all.take(i + 1).drop_last() == all.take(i as int));
            assert(all.take(i + 1).last() == x@);
            assert(rest.skip(0) == rest);
        }
        let mut at: usize = 0;
        while at < out.len() && out[at].level >= x.level
            invariant
                at <= out@.len(),
                rest == method_views(out@),
                as_strong(rest, x.level) == at + as_strong(rest.skip(at as int), x.level),
            decreases out@.len() - at,
        {
            assert(rest.skip(at as int)[0] == out@[at as int]@);
            assert(rest.skip(at as int).skip(1) == rest.skip(at + 1));
            at += 1;
        }
        proof {
            if at < out@.len() {
                assert(rest.skip(at as int)[0] == out@[at as int]@);
            }
            assert(as_strong(rest, x.level) == at);
        }
        let ghost shown = x@;
        out.insert(at, x);
        assert(method_views(out@) == rest.insert(at as int, shown));
        i += 1;
    }
    assert(all.take(all.len() as int) == all);
    out
}

} // verus!
