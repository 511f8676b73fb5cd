//! The identity database.

use super::coding::coded;
use super::error::{outcome, IdentError, IdentErrorView};
use super::forward::{
    decode_all, entries, entries_from, entries_in, forward_key, lemma_keys, listed,
    make_forward_key, make_reverse_key, owner, reverse_key,
};
use super::mint::{create_id, is_minted};
use super::op::{
    find_persistent, opt_name_id, persistent_in, unlinking, values_of, with_entry, without_entry,
    IdentOp, Issue, IssueView, OpView,
};
use super::run::{finish, run};
use super::store::{lookup, Contents, IdentityStore, InMemoryIdentityStore};
use crate::saml::constants::{NAMEID_PERSISTENT, NAMEID_TRANSIENT};
use crate::saml::name_id::{
    name_id_views, opt_policy, NameId, NameIdPolicy, NameIdPolicyView, NameIdView, NewIdOrTerminate,
};
use crate::text::{as_opt_str, opt_str, opt_text, same, same_opt, to_opt_string};
use vstd::prelude::*;

verus! {

/// The contents with the owner of a NameID written.
pub open spec fn linked(m: Contents, user_id: Seq<char>, n: NameIdView) -> Contents {
    m.insert(reverse_key(n.value), user_id)
}

/// The contents with a NameID added to the end of the user's list.
pub open spec fn appended(m: Contents, user_id: Seq<char>, n: NameIdView) -> Contents {
    m.insert(forward_key(user_id), with_entry(lookup(m, forward_key(user_id)), coded(n)))
}

/// The contents with a NameID stored for a user: owned by the user, and listed
/// once.
pub open spec fn stored(m: Contents, user_id: Seq<char>, n: NameIdView) -> Contents {
    if entries(m, user_id).contains(coded(n)) {
        linked(m, user_id, n)
    } else {
        appended(linked(m, user_id, n), user_id, n)
    }
}

/// The contents with a NameID forgotten: not in its owner's list, and without
/// an owner.
pub open spec fn forgotten(m: Contents, n: NameIdView) -> Contents {
    match owner(m, n.value) {
        Some(user_id) => if entries(m, user_id).contains(coded(n)) {
            m.insert(
                forward_key(user_id),
                without_entry(m[forward_key(user_id)], coded(n)),
            ).remove(reverse_key(n.value))
        } else {
            m.remove(reverse_key(n.value))
        },
        None => m,
    }
}

/// The keys of the owners of some values.
pub open spec fn owner_keys(values: Seq<Seq<char>>) -> Set<Seq<char>> {
    Set::new(|k: Seq<char>| exists|i: int| 0 <= i < values.len() && k == reverse_key(#[trigger] values[i]))
}

/// The contents with every NameID of a user forgotten.
pub open spec fn cleared(m: Contents, user_id: Seq<char>) -> Contents {
    match lookup(m, forward_key(user_id)) {
        Some(seen) => m.insert(forward_key(user_id), Seq::empty()).remove_keys(
            owner_keys(values_of(entries_in(seen))),
        ),
        None => m,
    }
}

/// How a NameID is issued: with a value that no one owned, and stored.
pub open spec fn issued(
    m: Contents,
    m2: Contents,
    issue: IssueView,
    domain: Option<Seq<char>>,
    result: NameIdView,
) -> bool {
    &&& result == issue.name_id(result.value)
    &&& owner(m, result.value) is None
    &&& is_minted(
        m,
        result.value,
        issue.format,
        issue.name_qualifier,
        issue.sp_name_qualifier,
        domain,
    )
    &&& m2 == if issue.format == NAMEID_PERSISTENT@ {
        appended(linked(m, issue.user_id, result), issue.user_id, result)
    } else {
        stored(m, issue.user_id, result)
    }
}

/// How a NameID is obtained: the persistent one that is there, or a new one.
pub open spec fn obtained(
    m: Contents,
    m2: Contents,
    issue: IssueView,
    domain: Option<Seq<char>>,
    result: NameIdView,
) -> bool {
    match persistent_in(
        listed(m, issue.user_id),
        issue.sp_name_qualifier,
        issue.name_qualifier,
    ) {
        Some(existing) => if issue.format == NAMEID_PERSISTENT@ {
            result == existing && m2 == m
        } else {
            issued(m, m2, issue, domain, result)
        },
        None => issued(m, m2, issue, domain, result),
    }
}

/// The format that a request for a NameID comes to: the policy's, else the default.
pub open spec fn effective_format(
    policy: Option<NameIdPolicyView>,
    default_format: Option<Seq<char>>,
) -> Option<Seq<char>> {
    match policy {
        Some(p) => if p.format is Some {
            p.format
        } else {
            default_format
        },
        None => default_format,
    }
}

/// The service provider qualifier that a request comes to: the policy's, else
/// the service provider's entity ID.
pub open spec fn effective_qualifier(
    policy: Option<NameIdPolicyView>,
    sp_entity_id: Seq<char>,
) -> Seq<char> {
    match policy {
        Some(p) => match p.sp_name_qualifier {
            Some(q) => q,
            None => sp_entity_id,
        },
        None => sp_entity_id,
    }
}

/// How a NameID is constructed for a request.
pub open spec fn constructed(
    m: Contents,
    m2: Contents,
    idp: Seq<char>,
    domain: Option<Seq<char>>,
    user_id: Seq<char>,
    sp_entity_id: Seq<char>,
    policy: Option<NameIdPolicyView>,
    default_format: Option<Seq<char>>,
    result: Result<NameIdView, IdentErrorView>,
) -> bool {
    match effective_format(policy, default_format) {
        None => result == Err::<NameIdView, IdentErrorView>(IdentErrorView::NoFormat) && m2 == m,
        Some(format) => {
            let issue = IssueView {
                user_id,
                format,
                sp_name_qualifier: Some(effective_qualifier(policy, sp_entity_id)),
                name_qualifier: Some(idp),
            };
            if format == NAMEID_PERSISTENT@ && persistent_in(
                listed(m, user_id),
                issue.sp_name_qualifier,
                issue.name_qualifier,
            ) is None && !(policy is Some && policy->0.allow_create) {
                result == Err::<NameIdView, IdentErrorView>(IdentErrorView::CreateNotAllowed) && m2 == m
            } else {
                result is Ok && obtained(m, m2, issue, domain, result->Ok_0)
            }
        },
    }
}

/// Whether a NameID fits the format and the qualifier that a mapping asks for.
pub open spec fn fits(
    n: NameIdView,
    format: Option<Seq<char>>,
    sp_name_qualifier: Option<Seq<char>>,
) -> bool {
    &&& format is None || n.format == format
    &&& sp_name_qualifier is None || n.sp_name_qualifier == sp_name_qualifier
}

/// The first NameID that fits.
pub open spec fn fitting_in(
    ns: Seq<NameIdView>,
    format: Option<Seq<char>>,
    sp_name_qualifier: Option<Seq<char>>,
) -> Option<NameIdView>
    decreases ns.len(),
{
    if ns.len() == 0 {
        None
    } else if fits(ns[0], format, sp_name_qualifier) {
        Some(ns[0])
    } else {
        fitting_in(ns.skip(1), format, sp_name_qualifier)
    }
}

/// Why an encrypted new identifier is refused.
pub const NEW_ENCRYPTED_ID: &'static str =
    "NewEncryptedID requires decryption before calling handle_manage_name_id_request";

proof fn lemma_store_run(m: Contents, user_id: Seq<char>, n: NameIdView, drawn: Seq<char>)
    ensures
        run(OpView::StoreLink { user_id, name_id: n }, m, drawn) == (
            Some(n),
            stored(m, user_id, n),
        ),
{
    lemma_keys();
    reveal_with_fuel(run, 4);
}

proof fn lemma_issue_run(m: Contents, issue: IssueView, drawn: Seq<char>)
    requires
        owner(m, drawn) is None,
    ensures
        run(OpView::IssueDraw(issue), m, drawn) == (
            Some(issue.name_id(drawn)),
            stored(m, issue.user_id, issue.name_id(drawn)),
        ),
{
    lemma_store_run(m, issue.user_id, issue.name_id(drawn), drawn);
    reveal_with_fuel(run, 2);
}

proof fn lemma_mint_run(m: Contents, issue: IssueView, drawn: Seq<char>)
    requires
        owner(m, drawn) is None,
    ensures
        run(
            OpView::MintDraw { issue, seen: lookup(m, forward_key(issue.user_id)) },
            m,
            drawn,
        ) == (
            Some(issue.name_id(drawn)),
            appended(
                linked(m, issue.user_id, issue.name_id(drawn)),
                issue.user_id,
                issue.name_id(drawn),
            ),
        ),
{
    lemma_keys();
    reveal_with_fuel(run, 4);
}

proof fn lemma_forget_run(m: Contents, n: NameIdView, drawn: Seq<char>)
    ensures
        run(OpView::ForgetFind { name_id: n }, m, drawn) == (
            None::<NameIdView>,
            forgotten(m, n),
        ),
{
    lemma_keys();
    reveal_with_fuel(run, 5);
    if owner(m, n.value) is None {
        assert(m.remove(reverse_key(n.value)) == m);
    }
}

proof fn lemma_unlink_run(m: Contents, values: Seq<Seq<char>>, drawn: Seq<char>)
    ensures
        run(unlinking(values), m, drawn) == (
            None::<NameIdView>,
            m.remove_keys(owner_keys(values)),
        ),
    decreases values.len(),
{
    if values.len() == 0 {
        assert(m.remove_keys(owner_keys(values)) == m);
        reveal_with_fuel(run, 2);
    } else {
        let m2 = m.remove(reverse_key(values[0]));
        lemma_unlink_run(m2, values.skip(1), drawn);
        assert(owner_keys(values) == owner_keys(values.skip(1)).insert(reverse_key(values[0]))) by {
            assert forall|k: Seq<char>| owner_keys(values).contains(k) implies owner_keys(
                values.skip(1),
            ).insert(reverse_key(values[0])).contains(k) by {
                let i = choose|i: int| 0 <= i < values.len() && k == reverse_key(#[trigger] values[i]);
                if i > 0 {
                    assert(values.skip(1)[i - 1] == values[i]);
                }
            }
            assert forall|k: Seq<char>| owner_keys(values.skip(1)).contains(k) implies owner_keys(
                values,
            ).contains(k) by {
                let i = choose|i: int|
                    0 <= i < values.skip(1).len() && k == reverse_key(#[trigger] values.skip(1)[i]);
                assert(values[i + 1] == values.skip(1)[i]);
            }
        }
        assert(m2.remove_keys(owner_keys(values.skip(1))) == m.remove_keys(owner_keys(values)));
        reveal_with_fuel(run, 2);
    }
}

proof fn lemma_clear_run(m: Contents, user_id: Seq<char>, drawn: Seq<char>)
    ensures
        run(OpView::ClearRead { user_id }, m, drawn) == (
            None::<NameIdView>,
            cleared(m, user_id),
        ),
{
    reveal_with_fuel(run, 3);
    match lookup(m, forward_key(user_id)) {
        Some(seen) => {
            let m2 = m.insert(forward_key(user_id), Seq::empty());
            lemma_unlink_run(m2, values_of(entries_in(seen)), drawn);
        },
        None => {},
    }
}

/// The identity database: the NameIDs issued to each local user, and the local
/// user each NameID was issued to.
pub struct IdentDb<S: IdentityStore = InMemoryIdentityStore> {
    store: S,
    name_qualifier: String,
    domain: Option<String>,
}

impl IdentDb<InMemoryIdentityStore> {
    /// Create an in-memory identity database.
    pub fn in_memory(idp_entity_id: &str) -> (result: Self)
        ensures
            result.contents() == Map::<Seq<char>, Seq<char>>::empty(),
            result.idp() == idp_entity_id@,
            result.email_domain() == None::<Seq<char>>,
    {
        IdentDb::new(InMemoryIdentityStore::new(), idp_entity_id)
    }
}

impl<S: IdentityStore> IdentDb<S> {
    /// What the store holds.
    pub closed spec fn contents(&self) -> Contents {
        self.store.contents()
    }

    /// The IdP entity ID, used as the default NameQualifier.
    pub closed spec fn idp(&self) -> Seq<char> {
        self.name_qualifier@
    }

    /// The domain of generated email-format NameIDs.
    pub closed spec fn email_domain(&self) -> Option<Seq<char>> {
        opt_text(self.domain)
    }

    /// Whether two databases are configured alike.
    pub open spec fn same_settings(&self, other: &Self) -> bool {
        self.idp() == other.idp() && self.email_domain() == other.email_domain()
    }

    /// Create an identity database over a custom store.
    pub fn new(store: S, idp_entity_id: &str) -> (result: Self)
        ensures
            result.contents() == store.contents(),
            result.idp() == idp_entity_id@,
            result.email_domain() == None::<Seq<char>>,
    {
        IdentDb { store, name_qualifier: idp_entity_id.to_owned(), domain: None }
    }

    /// Set the domain used for email-format NameIDs.
    pub fn with_domain(self, domain: &str) -> (result: Self)
        ensures
            result.contents() == self.contents(),
            result.idp() == self.idp(),
            result.email_domain() == Some(domain@),
    {
        IdentDb {
            store: self.store,
            name_qualifier: self.name_qualifier,
            domain: Some(domain.to_owned()),
        }
    }

    /// All NameIDs stored for a local user, in the order they were stored.
    pub fn name_ids_for(&self, user_id: &str) -> (result: Vec<NameId>)
        ensures
            name_id_views(result@) == listed(self.contents(), user_id@),
    {
        let seen = self.store.get(make_forward_key(user_id).as_str());
        decode_all(entries_from(&seen).as_slice())
    }

    /// Associate a NameID with a local user: the user owns its value, and it
    /// is in the user's list, once.
    pub fn store(&mut self, user_id: &str, name_id: &NameId)
        ensures
            final(self).contents() == stored(old(self).contents(), user_id@, name_id@),
            final(self).same_settings(old(self)),
    {
        let op = IdentOp::StoreLink { user_id: user_id.to_owned(), name_id: name_id.clone() };
        proof {
            lemma_store_run(self.store.contents(), user_id@, name_id@, ""@);
        }
        finish(op, &mut self.store, "");
    }

    /// The local user a NameID was issued to.
    pub fn find_local_id(&self, name_id: &NameId) -> (result: Option<String>)
        ensures
            opt_text(result) == owner(self.contents(), name_id@.value),
    {
        self.store.get(make_reverse_key(name_id.value.as_str()).as_str())
    }

    /// The persistent NameID for a user, a service provider and an identity
    /// provider, if there is one. A NameID of another format does not count.
    pub fn match_local_id(
        &self,
        user_id: &str,
        sp_name_qualifier: Option<&str>,
        name_qualifier: Option<&str>,
    ) -> (result: Option<NameId>)
        ensures
            opt_name_id(result) == persistent_in(
                listed(self.contents(), user_id@),
                opt_str(sp_name_qualifier),
                opt_str(name_qualifier),
            ),
    {
        let ns = self.name_ids_for(user_id);
        find_persistent(ns.as_slice(), sp_name_qualifier, name_qualifier)
    }

    /// Create and store a new NameID of the given format; the persistent
    /// format reuses an existing association where there is one.
    pub fn get_nameid(
        &mut self,
        user_id: &str,
        format: &str,
        sp_name_qualifier: Option<&str>,
        name_qualifier: Option<&str>,
    ) -> (result: NameId)
        ensures
            obtained(
                old(self).contents(),
                final(self).contents(),
                (IssueView {
                    user_id: user_id@,
                    format: format@,
                    sp_name_qualifier: opt_str(sp_name_qualifier),
                    name_qualifier: opt_str(name_qualifier),
                }),
                old(self).email_domain(),
                result@,
            ),
            final(self).same_settings(old(self)),
    {
        let issue = Issue {
            user_id: user_id.to_owned(),
            format: format.to_owned(),
            sp_name_qualifier: to_opt_string(sp_name_qualifier),
            name_qualifier: to_opt_string(name_qualifier),
        };
        let ghost wanted = issue@;
        let ghost m = self.store.contents();
        let op = if same(format, NAMEID_PERSISTENT) {
            match (IdentOp::MintRead { issue, candidate: None }).step(&mut self.store, "") {
                IdentOp::Done { result: Some(existing) } => {
                    return existing;
                },
                op => op,
            }
        } else {
            IdentOp::IssueDraw(issue)
        };
        let drawn = create_id(
            &self.store,
            format,
            name_qualifier,
            sp_name_qualifier,
            as_opt_str(&self.domain),
        );
        proof {
            lemma_issue_run(m, wanted, drawn@);
            lemma_mint_run(m, wanted, drawn@);
        }
        finish(op, &mut self.store, drawn.as_str()).unwrap()
    }

    /// Generate a transient NameID.
    pub fn transient_nameid(&mut self, user_id: &str, sp_name_qualifier: Option<&str>) -> (result:
        NameId)
        ensures
            obtained(
                old(self).contents(),
                final(self).contents(),
                (IssueView {
                    user_id: user_id@,
                    format: NAMEID_TRANSIENT@,
                    sp_name_qualifier: opt_str(sp_name_qualifier),
                    name_qualifier: Some(old(self).idp()),
                }),
                old(self).email_domain(),
                result@,
            ),
            final(self).same_settings(old(self)),
    {
        let idp = self.name_qualifier.clone();
        self.get_nameid(user_id, NAMEID_TRANSIENT, sp_name_qualifier, Some(idp.as_str()))
    }

    /// Get or create a persistent NameID.
    pub fn persistent_nameid(&mut self, user_id: &str, sp_name_qualifier: Option<&str>) -> (result:
        NameId)
        ensures
            obtained(
                old(self).contents(),
                final(self).contents(),
                (IssueView {
                    user_id: user_id@,
                    format: NAMEID_PERSISTENT@,
                    sp_name_qualifier: opt_str(sp_name_qualifier),
                    name_qualifier: Some(old(self).idp()),
                }),
                old(self).email_domain(),
                result@,
            ),
            final(self).same_settings(old(self)),
    {
        let idp = self.name_qualifier.clone();
        self.get_nameid(user_id, NAMEID_PERSISTENT, sp_name_qualifier, Some(idp.as_str()))
    }

    /// Construct a NameID for `user_id` honoring the request's `NameIDPolicy`.
    ///
    /// - Format: `NameIDPolicy/@Format`, else `default_format`.
    /// - SPNameQualifier: `NameIDPolicy/@SPNameQualifier`, else the SP entity ID.
    /// - NameQualifier: this IdP's entity ID.
    /// - AllowCreate (E14): when false, only an existing identifier may be
    ///   returned for the persistent format. The other formats are not bound
    ///   by it.
    pub fn construct_nameid(
        &mut self,
        user_id: &str,
        sp_entity_id: &str,
        name_id_policy: Option<&NameIdPolicy>,
        default_format: Option<&str>,
    ) -> (result: Result<NameId, IdentError>)
        ensures
            constructed(
                old(self).contents(),
                final(self).contents(),
                old(self).idp(),
                old(self).email_domain(),
                user_id@,
                sp_entity_id@,
                opt_policy(name_id_policy),
                opt_str(default_format),
                outcome(result),
            ),
            final(self).same_settings(old(self)),
    {
        let requested = match name_id_policy {
            Some(p) => as_opt_str(&p.format),
            None => None,
        };
        let format = match requested {
            Some(f) => f,
            None => match default_format {
                Some(f) => f,
                None => {
                    return Err(IdentError::NoFormat);
                },
            },
        };
        let qualifier = match name_id_policy {
            Some(p) => match as_opt_str(&p.sp_name_qualifier) {
                Some(q) => q,
                None => sp_entity_id,
            },
            None => sp_entity_id,
        };
        let idp = self.name_qualifier.clone();
        if same(format, NAMEID_PERSISTENT) {
            let allow_create = match name_id_policy {
                Some(p) => p.allow_create,
                None => false,
            };
            match self.match_local_id(user_id, Some(qualifier), Some(idp.as_str())) {
                Some(existing) => {
                    return Ok(existing);
                },
                None => {
                    if !allow_create {
                        return Err(IdentError::CreateNotAllowed);
                    }
                },
            }
        }
        Ok(self.get_nameid(user_id, format, Some(qualifier), Some(idp.as_str())))
    }

    /// Forget a NameID.
    pub fn remove_remote(&mut self, name_id: &NameId)
        ensures
            final(self).contents() == forgotten(old(self).contents(), name_id@),
            final(self).same_settings(old(self)),
    {
        let op = IdentOp::ForgetFind { name_id: name_id.clone() };
        proof {
            lemma_forget_run(self.store.contents(), name_id@, ""@);
        }
        finish(op, &mut self.store, "");
    }

    /// Forget every NameID of a local user.
    pub fn remove_local(&mut self, user_id: &str)
        ensures
            final(self).contents() == cleared(old(self).contents(), user_id@),
            final(self).same_settings(old(self)),
    {
        let op = IdentOp::ClearRead { user_id: user_id.to_owned() };
        proof {
            lemma_clear_run(self.store.contents(), user_id@, ""@);
        }
        finish(op, &mut self.store, "");
    }

    /// Apply a ManageNameIDRequest to the database; returns the updated NameID.
    ///
    /// - `NewID`: record the SP-provided identifier (`SPProvidedID`).
    /// - `Terminate`: drop the SP-provided identifier and terminate the
    ///   association for federation purposes.
    pub fn handle_manage_name_id_request(
        &mut self,
        name_id: &NameId,
        operation: &NewIdOrTerminate,
    ) -> (result: Result<NameId, IdentError>)
        ensures
            managed(
                old(self).contents(),
                final(self).contents(),
                name_id@,
                *operation,
                outcome(result),
            ),
            final(self).same_settings(old(self)),
    {
        let user_id = match self.find_local_id(name_id) {
            Some(user_id) => user_id,
            None => {
                return Err(IdentError::UnknownNameId(name_id.value.clone()));
            },
        };
        let mut updated = name_id.clone();
        match operation {
            NewIdOrTerminate::NewId(new_id) => {
                updated.sp_provided_id = Some(new_id.clone());
                self.remove_remote(name_id);
                self.store(user_id.as_str(), &updated);
                Ok(updated)
            },
            NewIdOrTerminate::NewEncryptedId(_) => Err(IdentError::Unsupported(NEW_ENCRYPTED_ID)),
            NewIdOrTerminate::Terminate => {
                updated.sp_provided_id = None;
                self.remove_remote(name_id);
                Ok(updated)
            },
        }
    }

    /// Resolve a NameIDMappingRequest against the database: an existing NameID
    /// that fits the requested policy, or a new one where `AllowCreate`
    /// permits.
    pub fn handle_name_id_mapping_request(
        &mut self,
        name_id: &NameId,
        name_id_policy: &NameIdPolicy,
    ) -> (result: Result<NameId, IdentError>)
        ensures
            mapped(
                old(self).contents(),
                final(self).contents(),
                old(self).idp(),
                old(self).email_domain(),
                name_id@,
                name_id_policy@,
                outcome(result),
            ),
            final(self).same_settings(old(self)),
    {
        let user_id = match self.find_local_id(name_id) {
            Some(user_id) => user_id,
            None => {
                return Err(IdentError::UnknownNameId(name_id.value.clone()));
            },
        };
        let wanted_format = as_opt_str(&name_id_policy.format);
        let wanted_spq = as_opt_str(&name_id_policy.sp_name_qualifier);
        let ns = self.name_ids_for(user_id.as_str());
        if let Some(existing) = find_fitting(ns.as_slice(), wanted_format, wanted_spq) {
            return Ok(existing);
        }
        if !name_id_policy.allow_create {
            return Err(IdentError::CreateNotAllowed);
        }
        let format = match wanted_format {
            Some(f) => f,
            None => NAMEID_PERSISTENT,
        };
        let idp = self.name_qualifier.clone();
        Ok(self.get_nameid(user_id.as_str(), format, wanted_spq, Some(idp.as_str())))
    }
}

/// How a ManageNameIDRequest is answered.
pub open spec fn managed(
    m: Contents,
    m2: Contents,
    n: NameIdView,
    operation: NewIdOrTerminate,
    result: Result<NameIdView, IdentErrorView>,
) -> bool {
    match owner(m, n.value) {
        None => result == Err::<NameIdView, IdentErrorView>(IdentErrorView::UnknownNameId(n.value))
            && m2 == m,
        Some(user_id) => match operation {
            NewIdOrTerminate::NewId(new_id) => {
                let updated = NameIdView { sp_provided_id: Some(new_id@), ..n };
                result == Ok::<NameIdView, IdentErrorView>(updated) && m2 == stored(
                    forgotten(m, n),
                    user_id,
                    updated,
                )
            },
            NewIdOrTerminate::NewEncryptedId(_) => result == Err::<NameIdView, IdentErrorView>(
                IdentErrorView::Unsupported(NEW_ENCRYPTED_ID@),
            ) && m2 == m,
            NewIdOrTerminate::Terminate => {
                let updated = NameIdView { sp_provided_id: None, ..n };
                result == Ok::<NameIdView, IdentErrorView>(updated) && m2 == forgotten(m, n)
            },
        },
    }
}

/// How a NameIDMappingRequest is answered.
pub open spec fn mapped(
    m: Contents,
    m2: Contents,
    idp: Seq<char>,
    domain: Option<Seq<char>>,
    n: NameIdView,
    policy: NameIdPolicyView,
    result: Result<NameIdView, IdentErrorView>,
) -> bool {
    match owner(m, n.value) {
        None => result == Err::<NameIdView, IdentErrorView>(IdentErrorView::UnknownNameId(n.value))
            && m2 == m,
        Some(user_id) => match fitting_in(
            listed(m, user_id),
            policy.format,
            policy.sp_name_qualifier,
        ) {
            Some(existing) => result == Ok::<NameIdView, IdentErrorView>(existing) && m2 == m,
            None => if policy.allow_create {
                let issue = IssueView {
                    user_id,
                    format: match policy.format {
                        Some(f) => f,
                        None => NAMEID_PERSISTENT@,
                    },
                    sp_name_qualifier: policy.sp_name_qualifier,
                    name_qualifier: Some(idp),
                };
                result is Ok && obtained(m, m2, issue, domain, result->Ok_0)
            } else {
                result == Err::<NameIdView, IdentErrorView>(IdentErrorView::CreateNotAllowed) && m2 == m
            },
        },
    }
}

/// The first NameID that fits the format and the qualifier, where they are given.
pub fn find_fitting(
    ns: &[NameId],
    format: Option<&str>,
    sp_name_qualifier: Option<&str>,
) -> (result: Option<NameId>)
    ensures
        opt_name_id(result) == fitting_in(
            name_id_views(ns@),
            opt_str(format),
            opt_str(sp_name_qualifier),
        ),
{
    let mut i: usize = 0;
    let ghost all = name_id_views(ns@);
    assert(all.skip(0) == all);
    while i < ns.len()
        invariant
            i <= ns@.len(),
            all == name_id_views(ns@),
            fitting_in(all, opt_str(format), opt_str(sp_name_qualifier)) == fitting_in(
                all.skip(i as int),
                opt_str(format),
                opt_str(sp_name_qualifier),
            ),
        decreases ns@.len() - i,
    {
        assert(all.skip(i as int)[0] == ns@[i as int]@);
        assert(all.skip(i as int).skip(1) == all.skip(i + 1));
        if (format.is_none() || same_opt(as_opt_str(&ns[i].format), format)) && (
        sp_name_qualifier.is_none() || same_opt(
            as_opt_str(&ns[i].sp_name_qualifier),
            sp_name_qualifier,
        )) {
            return Some(ns[i].clone());
        }
        i += 1;
    }
    None
}

/// What constructing NameIDs rests on: what is stored, and how the identity
/// provider is set up to name its users.
#[verifier::ext_equal]
pub struct NamingState {
    pub contents: Contents,
    pub idp: Seq<char>,
    pub email_domain: Option<Seq<char>>,
}

/// Something that can construct a NameID for a request.
///
/// [`IdentDb`] is one over any store. A caller that only needs NameIDs to be
/// constructed can hold `dyn NameIdConstructor`, and need not name the store.
pub trait NameIdConstructor: Send + Sync {
    /// What constructing NameIDs rests on. An implementation that does not say
    /// has nothing stored.
    open spec fn state(&self) -> NamingState {
        NamingState { contents: Map::empty(), idp: Seq::empty(), email_domain: None }
    }

    /// Whether `result` and the state `after` may come of constructing a NameID
    /// once. An implementation that does not say promises nothing.
    open spec fn may_construct(
        &self,
        user_id: Seq<char>,
        sp_entity_id: Seq<char>,
        policy: Option<NameIdPolicyView>,
        default_format: Option<Seq<char>>,
        result: Result<NameIdView, IdentErrorView>,
        after: NamingState,
    ) -> bool {
        true
    }

    /// Construct a NameID for `user_id` honoring the request's `NameIDPolicy`.
    fn construct_nameid(
        &mut self,
        user_id: &str,
        sp_entity_id: &str,
        name_id_policy: Option<&NameIdPolicy>,
        default_format: Option<&str>,
    ) -> (result: Result<NameId, IdentError>)
        ensures
            old(self).may_construct(
                user_id@,
                sp_entity_id@,
                opt_policy(name_id_policy),
                opt_str(default_format),
                outcome(result),
                final(self).state(),
            ),
    ;
}

impl<S: IdentityStore> NameIdConstructor for IdentDb<S> {
    open spec fn state(&self) -> NamingState {
        NamingState {
            contents: self.contents(),
            idp: self.idp(),
            email_domain: self.email_domain(),
        }
    }

    open spec fn may_construct(
        &self,
        user_id: Seq<char>,
        sp_entity_id: Seq<char>,
        policy: Option<NameIdPolicyView>,
        default_format: Option<Seq<char>>,
        result: Result<NameIdView, IdentErrorView>,
        after: NamingState,
    ) -> bool {
        &&& after.idp == self.idp()
        &&& after.email_domain == self.email_domain()
        &&& constructed(
            self.contents(),
            after.contents,
            self.idp(),
            self.email_domain(),
            user_id,
            sp_entity_id,
            policy,
            default_format,
            result,
        )
    }

    fn construct_nameid(
        &mut self,
        user_id: &str,
        sp_entity_id: &str,
        name_id_policy: Option<&NameIdPolicy>,
        default_format: Option<&str>,
    ) -> (result: Result<NameId, IdentError>)
        ensures
            constructed(
                old(self).contents(),
                final(self).contents(),
                old(self).idp(),
                old(self).email_domain(),
                user_id@,
                sp_entity_id@,
                opt_policy(name_id_policy),
                opt_str(default_format),
                outcome(result),
            ),
    {
        IdentDb::construct_nameid(self, user_id, sp_entity_id, name_id_policy, default_format)
    }
}

} // verus!
