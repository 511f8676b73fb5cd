//! Single logout: who may end which sessions.

use super::config::IdpConfig;
use super::error::{refuse, refuse_naming, refused, SamlActixError, SamlActixErrorView};
use super::signature::{
    authentication, opt_redirect, verify_sp_request_signatures, RedirectSignature, XmlSignatures,
};
use crate::saml::metadata::SpSsoDescriptor;
use crate::saml::name_id::NameId;
use crate::text::{concat, debug_text, quoted, same};
use vstd::prelude::*;
use vstd::string::StringExecFns;

verus! {

/// A NameID, or one that is encrypted.
#[derive(Debug, Clone)]
pub enum NameIdOrEncryptedId {
    /// A NameID.
    NameId(NameId),
    /// An encrypted one, as the text of its element.
    EncryptedId(String),
}

/// A `<samlp:LogoutRequest>`.
#[derive(Debug, Clone)]
pub struct LogoutRequest {
    /// The `ID`.
    pub id: String,
    /// The `Destination`.
    pub destination: Option<String>,
    /// The issuer.
    pub issuer: Option<String>,
    /// Whether the message has an XML signature.
    pub has_signature: bool,
    /// Whose sessions are to end.
    pub name_id: NameIdOrEncryptedId,
    /// Which sessions are to end; all where there is none.
    pub session_indexes: Vec<String>,
}

/// Proof that a logout message was authenticated. Only
/// [`authorize_slo_request`] makes one.
#[derive(Clone, Copy, Debug)]
#[must_use]
pub struct SloAuthorization {
    authenticated: bool,
}

impl SloAuthorization {
    #[verifier::type_invariant]
    spec fn is_authenticated(self) -> bool {
        self.authenticated
    }

    /// Whether the message was authenticated: it was.
    pub fn message_authenticated(self) -> (result: bool)
        ensures
            result,
    {
        proof {
            use_type_invariant(self);
        }
        self.authenticated
    }
}

/// Why a logout request is refused, if it is. It must name an issuer that is
/// trusted, be addressed to this endpoint if it is addressed, and be signed.
pub open spec fn slo_fault(
    slo_url: Seq<char>,
    request: LogoutRequest,
    redirect: Option<RedirectSignature>,
    xml: XmlSignatures,
    trusted: bool,
) -> Option<SamlActixErrorView> {
    match request.issuer {
        None => Some(refused("LogoutRequest has no Issuer; refusing to destroy sessions"@)),
        Some(issuer) => if !trusted {
            Some(
                refused(
                    "LogoutRequest issuer "@ + debug_text(issuer@)
                        + " is not a trusted SP; refusing to destroy sessions"@,
                ),
            )
        } else if request.destination is Some && slo_url.len() > 0 && request.destination->0@
            != slo_url {
            Some(
                refused(
                    "LogoutRequest Destination "@ + debug_text(request.destination->0@)
                        + " does not match this IdP's SLO endpoint"@,
                ),
            )
        } else {
            match authentication(
                redirect,
                xml,
                request.id@,
                request.has_signature,
                "LogoutRequest"@,
            ) {
                Err(e) => Some(e),
                Ok(true) => None,
                Ok(false) => Some(refused("LogoutRequest must be signed by its trusted SP"@)),
            }
        },
    }
}

/// Authorize a logout request before it may end any session. `sp` is the
/// metadata that is trusted for its issuer.
pub fn authorize_slo_request(
    config: &IdpConfig,
    request: &LogoutRequest,
    redirect: Option<&RedirectSignature>,
    xml: &XmlSignatures,
    sp: Option<&SpSsoDescriptor>,
) -> (result: Result<SloAuthorization, SamlActixError>)
    ensures
        match result {
            Ok(_) => slo_fault(
                config.slo_url@,
                *request,
                opt_redirect(redirect),
                *xml,
                sp is Some,
            ) is None,
            Err(e) => slo_fault(
                config.slo_url@,
                *request,
                opt_redirect(redirect),
                *xml,
                sp is Some,
            ) == Some(e@),
        },
{
    let issuer = match &request.issuer {
        Some(i) => i.as_str(),
        None => {
            return Err(
                refuse("LogoutRequest has no Issuer; refusing to destroy sessions".to_owned()),
            );
        },
    };
    if sp.is_none() {
        return Err(
            refuse_naming(
                "LogoutRequest issuer ",
                quoted(issuer).as_str(),
                " is not a trusted SP; refusing to destroy sessions",
            ),
        );
    }
    if let Some(destination) = &request.destination {
        if !config.slo_url.as_str().is_empty() && !same(
            destination.as_str(),
            config.slo_url.as_str(),
        ) {
            return Err(
                refuse_naming(
                    "LogoutRequest Destination ",
                    quoted(destination.as_str()).as_str(),
                    " does not match this IdP's SLO endpoint",
                ),
            );
        }
    }
    match verify_sp_request_signatures(
        redirect,
        xml,
        request.id.as_str(),
        request.has_signature,
        "LogoutRequest",
    ) {
        Err(e) => Err(e),
        Ok(authenticated) => {
            if authenticated {
                Ok(SloAuthorization { authenticated })
            } else {
                Err(refuse("LogoutRequest must be signed by its trusted SP".to_owned()))
            }
        },
    }
}

/// Sessions are only ended for a trusted service provider that signed the
/// request, every signature of which passes.
pub proof fn law_logout_is_authenticated(
    slo_url: Seq<char>,
    request: LogoutRequest,
    redirect: Option<RedirectSignature>,
    xml: XmlSignatures,
    trusted: bool,
)
    requires
        slo_fault(slo_url, request, redirect, xml, trusted) is None,
    ensures
        request.issuer is Some,
        trusted,
        request.destination is Some && slo_url.len() > 0 ==> request.destination->0@ == slo_url,
        authentication(redirect, xml, request.id@, request.has_signature, "LogoutRequest"@) == Ok::<
            bool,
            SamlActixErrorView,
        >(true),
{
}

/// The NameID of a logout request. An encrypted one cannot be matched here.
pub fn ready_idp_logout_name_id(request: &LogoutRequest) -> (result: Result<
    &NameId,
    SamlActixError,
>)
    ensures
        match result {
            Ok(n) => request.name_id == NameIdOrEncryptedId::NameId(*n),
            Err(e) => request.name_id is EncryptedId && e@ == refused(
                "ready IdP SLO cannot correlate an encrypted NameID; decrypt it in a custom handler"@,
            ),
        },
{
    match &request.name_id {
        NameIdOrEncryptedId::NameId(n) => Ok(n),
        NameIdOrEncryptedId::EncryptedId(_) => Err(
            refuse(
                "ready IdP SLO cannot correlate an encrypted NameID; decrypt it in a custom handler".to_owned(),
            ),
        ),
    }
}

/// Whether a logout request is let through to the session store, and why not.
/// Its sender is authenticated before its NameID is looked at.
pub open spec fn logout_admission(
    slo_url: Seq<char>,
    request: LogoutRequest,
    redirect: Option<RedirectSignature>,
    xml: XmlSignatures,
    trusted: bool,
) -> Result<(Seq<char>, NameId), SamlActixErrorView> {
    match slo_fault(slo_url, request, redirect, xml, trusted) {
        Some(e) => Err(e),
        None => match request.name_id {
            NameIdOrEncryptedId::NameId(n) => Ok((request.issuer->0@, n)),
            NameIdOrEncryptedId::EncryptedId(_) => Err(
                refused(
                    "ready IdP SLO cannot correlate an encrypted NameID; decrypt it in a custom handler"@,
                ),
            ),
        },
    }
}

/// A logout request that is let through: who asks, and whose sessions are to
/// end.
#[derive(Debug)]
pub struct AdmittedLogout<'a> {
    /// The entity ID of the service provider that asks.
    pub requester: &'a str,
    /// The subject.
    pub name_id: &'a NameId,
    /// Proof that the message was authenticated.
    pub authorization: SloAuthorization,
}

/// Let a logout request through to the session store, or refuse it.
pub fn admit_logout<'a>(
    config: &IdpConfig,
    request: &'a LogoutRequest,
    redirect: Option<&RedirectSignature>,
    xml: &XmlSignatures,
    sp: Option<&SpSsoDescriptor>,
) -> (result: Result<AdmittedLogout<'a>, SamlActixError>)
    ensures
        (match result {
            Ok(a) => Ok::<(Seq<char>, NameId), SamlActixErrorView>((a.requester@, *a.name_id)),
            Err(e) => Err(e@),
        }) == logout_admission(
            config.slo_url@,
            *request,
            opt_redirect(redirect),
            *xml,
            sp is Some,
        ),
{
    let authorization = match authorize_slo_request(config, request, redirect, xml, sp) {
        Ok(a) => a,
        Err(e) => {
            return Err(e);
        },
    };
    let name_id = match ready_idp_logout_name_id(request) {
        Ok(n) => n,
        Err(e) => {
            return Err(e);
        },
    };
    match &request.issuer {
        Some(i) => {
            let requester = i.as_str();
            Ok(AdmittedLogout { requester, name_id, authorization })
        },
        None => Err(
            refuse("LogoutRequest has no Issuer; refusing to destroy sessions".to_owned()),
        ),
    }
}

/// Which message came to the logout endpoint.
#[derive(Debug, PartialEq, Eq)]
pub enum SloMessage {
    /// A logout request.
    Request,
    /// A response to a logout request of this identity provider.
    Response,
}

/// Which message an element is, by its local name.
pub fn slo_message(local_name: &str) -> (result: Result<SloMessage, SamlActixError>)
    ensures
        match result {
            Ok(SloMessage::Request) => local_name@ == "LogoutRequest"@,
            Ok(SloMessage::Response) => local_name@ == "LogoutResponse"@ && local_name@
                != "LogoutRequest"@,
            Err(e) => local_name@ != "LogoutRequest"@ && local_name@ != "LogoutResponse"@ && e@
                == SamlActixErrorView::UnsupportedBinding(
                "unexpected SAML element in SLO: "@ + local_name@,
            ),
        },
{
    if same(local_name, "LogoutRequest") {
        Ok(SloMessage::Request)
    } else if same(local_name, "LogoutResponse") {
        Ok(SloMessage::Response)
    } else {
        Err(
            SamlActixError::UnsupportedBinding(
                concat("unexpected SAML element in SLO: ", local_name),
            ),
        )
    }
}

/// A session participant: a service provider that has a part in a session.
#[derive(Debug)]
pub struct SessionParticipant {
    /// The entity ID of the service provider.
    pub entity_id: String,
    /// The NameID it knows the subject by.
    pub name_id: NameId,
    /// The session index it knows.
    pub session_index: Option<String>,
}

/// The participants that the logout has to be passed on to: all but the one
/// that asked for it.
pub open spec fn to_notify(participants: Seq<SessionParticipant>, requester: Seq<char>) -> Seq<
    SessionParticipant,
> {
    participants.filter(|p: SessionParticipant| p.entity_id@ != requester)
}

/// The participants that a logout has to be passed on to.
pub fn propagation_targets(participants: Vec<SessionParticipant>, requester: &str) -> (result: Vec<
    SessionParticipant,
>)
    ensures
        result@ == to_notify(participants@, requester@),
{
    let ghost all = participants@;
    let ghost pred = |p: SessionParticipant| p.entity_id@ != requester@;
    let mut left = participants;
    let mut back: Vec<SessionParticipant> = Vec::new();
    let ghost mut n: int = 0;
    proof {
        reveal(Seq::filter);
        assert(all.take(0).filter(pred) == back@);
    }
    while left.len() > 0
        invariant
            0 <= n <= all.len(),
            left@ == all.skip(n),
            pred == (|p: SessionParticipant| p.entity_id@ != requester@),
            back@ == all.take(n).filter(pred),
        decreases left@.len(),
    {
        proof {
            reveal(Seq::filter);
            assert(all.take(n + 1).drop_last() == all.take(n));
            assert(all.take(n + 1).last() == all[n]);
            assert(left@[0] == all[n]);
        }
        let p = left.remove(0);
        assert(left@ == all.skip(n + 1));
        if !same(p.entity_id.as_str(), requester) {
            back.push(p);
        }
        proof {
            n = n + 1;
        }
    }
    assert(all.take(n) == all);
    back
}

} // verus!
