//! The identity database, one call after another.

use gamlastan::idp::ident::mint::id_from_seed;
use gamlastan::idp::ident::{
    code_name_id, decode_name_id, IdentDb, IdentError, NameIdConstructor,
};
use gamlastan::saml::constants;
use gamlastan::saml::name_id::{NameId, NameIdPolicy, NewIdOrTerminate};

const IDP: &str = "https://idp.example.com";
const SP: &str = "https://sp.example.com";

fn db() -> IdentDb {
    IdentDb::in_memory(IDP)
}

#[test]
fn test_code_decode_roundtrip() {
    let nid = NameId {
        value: "abc %25,=%123".to_string(),
        format: Some(constants::NAMEID_PERSISTENT.to_string()),
        name_qualifier: Some(IDP.to_string()),
        sp_name_qualifier: Some(SP.to_string()),
        sp_provided_id: Some("sp alias %25".to_string()),
    };
    let coded = code_name_id(&nid);
    assert!(!coded.contains(' '));
    let back = decode_name_id(&coded);
    assert_eq!(back, nid);
}

#[test]
fn test_store_roundtrip_with_space_in_name_id_fields() {
    let mut db = db();
    let nid = NameId {
        value: "Alice Smith %25".to_string(),
        format: Some(constants::NAMEID_PERSISTENT.to_string()),
        name_qualifier: Some(IDP.to_string()),
        sp_name_qualifier: Some(SP.to_string()),
        sp_provided_id: Some("sp alias".to_string()),
    };

    db.store("alice", &nid);

    assert_eq!(db.name_ids_for("alice"), vec![nid.clone()]);
    assert_eq!(db.find_local_id(&nid).as_deref(), Some("alice"));
}

#[test]
fn test_transient_unique_each_time() {
    let mut db = db();
    let a = db.transient_nameid("alice", Some(SP));
    let b = db.transient_nameid("alice", Some(SP));
    assert_ne!(a.value, b.value);
    assert_eq!(a.format.as_deref(), Some(constants::NAMEID_TRANSIENT));
    assert_eq!(db.find_local_id(&a).as_deref(), Some("alice"));
    assert_eq!(db.find_local_id(&b).as_deref(), Some("alice"));
}

#[test]
fn test_persistent_is_stable() {
    let mut db = db();
    let a = db.persistent_nameid("alice", Some(SP));
    let b = db.persistent_nameid("alice", Some(SP));
    assert_eq!(a.value, b.value);
    // different SP gets a different persistent id
    let c = db.persistent_nameid("alice", Some("https://other.example.com"));
    assert_ne!(a.value, c.value);
}

#[test]
fn test_construct_nameid_honors_policy_format() {
    let mut db = db();
    let policy = NameIdPolicy {
        format: Some(constants::NAMEID_TRANSIENT.to_string()),
        sp_name_qualifier: None,
        allow_create: true,
    };
    let nid = db
        .construct_nameid("alice", SP, Some(&policy), None)
        .unwrap();
    assert_eq!(nid.format.as_deref(), Some(constants::NAMEID_TRANSIENT));
    assert_eq!(nid.sp_name_qualifier.as_deref(), Some(SP));
    assert_eq!(nid.name_qualifier.as_deref(), Some(IDP));
}

#[test]
fn test_construct_nameid_default_format() {
    let mut db = db();
    let nid = db
        .construct_nameid("alice", SP, None, Some(constants::NAMEID_PERSISTENT))
        .unwrap_err();
    // persistent + no policy => allow_create false => no new id
    assert!(matches!(nid, IdentError::CreateNotAllowed));
}

#[test]
fn test_persistent_lookup_is_format_aware() {
    let mut db = db();
    let email = db.get_nameid("alice", constants::NAMEID_EMAIL, Some(SP), Some(IDP));
    assert_eq!(email.format.as_deref(), Some(constants::NAMEID_EMAIL));

    let create = NameIdPolicy {
        format: Some(constants::NAMEID_PERSISTENT.to_string()),
        sp_name_qualifier: None,
        allow_create: true,
    };
    let persistent = db
        .construct_nameid("alice", SP, Some(&create), None)
        .expect("allow_create=true mints a fresh persistent id");
    assert_eq!(
        persistent.format.as_deref(),
        Some(constants::NAMEID_PERSISTENT),
        "a persistent request must not come back labeled with an earlier, \
         unrelated format"
    );
    assert_ne!(
        persistent.value, email.value,
        "a persistent request must not reuse the email-format identifier's value"
    );

    // And it's genuinely stable: asking again returns the same persistent
    // identifier, not a fresh one each time.
    let again = db
        .construct_nameid("alice", SP, Some(&create), None)
        .unwrap();
    assert_eq!(persistent.value, again.value);
}

#[test]
fn test_allow_create_false_does_not_block_non_persistent_formats() {
    let mut db = db();
    let policy = NameIdPolicy {
        format: Some(constants::NAMEID_EMAIL.to_string()),
        sp_name_qualifier: None,
        allow_create: false,
    };
    let nid = db
        .construct_nameid("alice", SP, Some(&policy), None)
        .expect("AllowCreate=false must not block a non-persistent format");
    assert_eq!(nid.format.as_deref(), Some(constants::NAMEID_EMAIL));
}

#[test]
fn test_construct_persistent_allow_create_e14() {
    let mut db = db();
    let no_create = NameIdPolicy {
        format: Some(constants::NAMEID_PERSISTENT.to_string()),
        sp_name_qualifier: None,
        allow_create: false,
    };
    assert!(matches!(
        db.construct_nameid("alice", SP, Some(&no_create), None),
        Err(IdentError::CreateNotAllowed)
    ));

    let create = NameIdPolicy {
        allow_create: true,
        ..no_create.clone()
    };
    let nid = db
        .construct_nameid("alice", SP, Some(&create), None)
        .unwrap();

    // E14: with AllowCreate=false an *existing* identifier may be used
    let again = db
        .construct_nameid("alice", SP, Some(&no_create), None)
        .unwrap();
    assert_eq!(nid.value, again.value);
}

#[test]
fn test_no_format_error() {
    let mut db = db();
    assert!(matches!(
        db.construct_nameid("alice", SP, None, None),
        Err(IdentError::NoFormat)
    ));
}

#[test]
fn test_remove_remote_and_local() {
    let mut db = db();
    let nid = db.persistent_nameid("alice", Some(SP));
    db.remove_remote(&nid);
    assert!(db.find_local_id(&nid).is_none());
    assert!(db.name_ids_for("alice").is_empty());

    let n1 = db.persistent_nameid("alice", Some(SP));
    let n2 = db.transient_nameid("alice", Some(SP));
    db.remove_local("alice");
    assert!(db.find_local_id(&n1).is_none());
    assert!(db.find_local_id(&n2).is_none());
}

#[test]
fn test_manage_name_id_new_id_and_terminate() {
    let mut db = db();
    let nid = db.persistent_nameid("alice", Some(SP));

    let updated = db
        .handle_manage_name_id_request(&nid, &NewIdOrTerminate::NewId("sp-alias".to_string()))
        .unwrap();
    assert_eq!(updated.sp_provided_id.as_deref(), Some("sp-alias"));
    assert_eq!(db.find_local_id(&updated).as_deref(), Some("alice"));
    let stored = db.match_local_id("alice", Some(SP), Some(IDP)).unwrap();
    assert_eq!(stored.sp_provided_id.as_deref(), Some("sp-alias"));

    db.handle_manage_name_id_request(&updated, &NewIdOrTerminate::Terminate)
        .unwrap();
    assert!(db.find_local_id(&updated).is_none());
}

#[test]
fn test_manage_name_id_unknown() {
    let mut db = db();
    let stranger = NameId {
        value: "nobody".to_string(),
        format: None,
        name_qualifier: None,
        sp_name_qualifier: None,
        sp_provided_id: None,
    };
    assert!(matches!(
        db.handle_manage_name_id_request(&stranger, &NewIdOrTerminate::Terminate),
        Err(IdentError::UnknownNameId(_))
    ));
}

#[test]
fn test_name_id_mapping() {
    let mut db = db();
    let nid = db.persistent_nameid("alice", Some(SP));

    // Map to another SP, creation allowed
    let policy = NameIdPolicy {
        format: Some(constants::NAMEID_PERSISTENT.to_string()),
        sp_name_qualifier: Some("https://other.example.com".to_string()),
        allow_create: true,
    };
    let mapped = db.handle_name_id_mapping_request(&nid, &policy).unwrap();
    assert_eq!(
        mapped.sp_name_qualifier.as_deref(),
        Some("https://other.example.com")
    );
    assert_ne!(mapped.value, nid.value);

    // Second request returns the same mapping
    let mapped2 = db.handle_name_id_mapping_request(&nid, &policy).unwrap();
    assert_eq!(mapped.value, mapped2.value);

    // Creation forbidden for a third SP
    let strict = NameIdPolicy {
        sp_name_qualifier: Some("https://third.example.com".to_string()),
        allow_create: false,
        format: Some(constants::NAMEID_PERSISTENT.to_string()),
    };
    assert!(matches!(
        db.handle_name_id_mapping_request(&nid, &strict),
        Err(IdentError::CreateNotAllowed)
    ));
}

#[test]
fn test_email_format_uses_domain() {
    let mut db = IdentDb::in_memory(IDP).with_domain("example.org");
    let nid = db.get_nameid("alice", constants::NAMEID_EMAIL, Some(SP), Some(IDP));
    assert!(nid.value.ends_with("@example.org"));
}

#[test]
fn test_email_format_reverse_mapping_uses_full_value() {
    // The collision check and the reverse index must both key on the
    // final `local-part@domain` value, so the issued email NameID resolves
    // back to its local principal.
    let mut db = IdentDb::in_memory(IDP).with_domain("example.org");
    let nid = db.get_nameid("alice", constants::NAMEID_EMAIL, Some(SP), Some(IDP));
    assert!(nid.value.contains('@'));
    assert_eq!(db.find_local_id(&nid).as_deref(), Some("alice"));
}

fn plain(value: &str) -> NameId {
    NameId {
        value: value.to_string(),
        format: None,
        name_qualifier: None,
        sp_name_qualifier: None,
        sp_provided_id: None,
    }
}

#[test]
fn coding_has_the_fixed_field_order() {
    let nid = NameId {
        value: "v,1".to_string(),
        format: Some("f".to_string()),
        name_qualifier: Some("n=q".to_string()),
        sp_name_qualifier: Some(String::new()),
        sp_provided_id: Some("p d".to_string()),
    };
    assert_eq!(code_name_id(&nid), "0=n%3Dq,2=f,3=p%20d,4=v%2C1");
}

#[test]
fn decoding_passes_over_what_names_no_field() {
    let nid = decode_name_id("x,9=a,+2=f,02=g,4=a%2cb%2,=q,5=z,4x=1");
    assert_eq!(nid.format.as_deref(), Some("g"));
    assert_eq!(nid.value, "a,b%2");
    assert_eq!(nid.name_qualifier, None);
    assert_eq!(decode_name_id("").value, "");
    assert_eq!(decode_name_id("4=%zz%").value, "%zz%");
}

#[test]
fn minted_values_are_digests_in_hexadecimal() {
    let mut db = db();
    let nid = db.transient_nameid("alice", Some(SP));
    assert_eq!(nid.value.len(), 64);
    assert!(nid.value.chars().all(|c| "0123456789abcdef".contains(c)));
    assert_eq!(nid.sp_provided_id, None);
    let mut plain_email = IdentDb::in_memory(IDP);
    let email = plain_email.get_nameid("alice", constants::NAMEID_EMAIL, None, None);
    assert!(email.value.ends_with("@idp.example.org"));
    assert_eq!(email.value.len(), 64 + 16);
}

#[test]
fn a_value_is_the_digest_of_seed_format_and_qualifiers() {
    // the digest of no bytes at all
    assert_eq!(
        id_from_seed(&[], "", None, None),
        "e3b0c44298fc1c149afbf4c8996fb92427ae41e4649b934ca495991b7852b855"
    );
    // the digest of the three letters, however they are spread
    let abc = "ba7816bf8f01cfea414140de5dae2223b00361a396177a9cb410ff61f20015ad";
    assert_eq!(id_from_seed(b"a", "b", Some("c"), None), abc);
    assert_eq!(id_from_seed(&[], "a", Some("b"), Some("c")), abc);
}

#[test]
fn storing_twice_lists_once() {
    let mut db = db();
    db.store("alice", &plain("n1"));
    db.store("alice", &plain("n1"));
    db.store("alice", &plain("n2"));
    assert_eq!(db.name_ids_for("alice"), vec![plain("n1"), plain("n2")]);
    assert!(db.name_ids_for("bob").is_empty());
}

#[test]
fn storing_for_another_user_moves_the_owner_only() {
    let mut db = db();
    db.store("alice", &plain("n1"));
    db.store("bob", &plain("n1"));
    assert_eq!(db.find_local_id(&plain("n1")).as_deref(), Some("bob"));
    assert_eq!(db.name_ids_for("alice").len(), 1);
    assert_eq!(db.name_ids_for("bob").len(), 1);
}

#[test]
fn removing_one_name_id_keeps_the_others() {
    let mut db = db();
    db.store("alice", &plain("n1"));
    db.store("alice", &plain("n2"));
    db.store("bob", &plain("n3"));
    db.remove_remote(&plain("n1"));
    assert_eq!(db.name_ids_for("alice"), vec![plain("n2")]);
    db.remove_local("alice");
    assert!(db.name_ids_for("alice").is_empty());
    assert_eq!(db.find_local_id(&plain("n3")).as_deref(), Some("bob"));
    db.remove_remote(&plain("nobody"));
    db.remove_local("nobody");
    assert_eq!(db.name_ids_for("bob"), vec![plain("n3")]);
}

#[test]
fn encrypted_new_ids_are_unsupported() {
    let mut db = db();
    let nid = db.persistent_nameid("alice", Some(SP));
    let result = db.handle_manage_name_id_request(
        &nid,
        &NewIdOrTerminate::NewEncryptedId("<saml:EncryptedID/>".to_string()),
    );
    assert!(matches!(result, Err(IdentError::Unsupported(_))));
    assert_eq!(db.name_ids_for("alice"), vec![nid]);
}

#[test]
fn errors_say_what_is_wrong() {
    assert_eq!(
        IdentError::UnknownNameId("x".to_string()).message(),
        "unknown NameID: no local principal for 'x'"
    );
    assert_eq!(
        IdentError::CreateNotAllowed.message(),
        "NameIDPolicy does not allow creating a new identifier"
    );
    assert_eq!(
        IdentError::NoFormat.message(),
        "no NameID format requested and no default configured"
    );
    assert_eq!(
        IdentError::Unsupported("this").message(),
        "unsupported operation: this"
    );
}

#[test]
fn a_constructor_can_be_held_without_its_store() {
    fn make(c: &mut dyn NameIdConstructor) -> NameId {
        c.construct_nameid("alice", SP, None, Some(constants::NAMEID_TRANSIENT))
            .unwrap()
    }
    let mut db = db();
    let nid = make(&mut db);
    assert_eq!(db.find_local_id(&nid).as_deref(), Some("alice"));
}

#[test]
fn an_empty_qualifier_is_not_told_from_none() {
    let mut db = db();
    let a = db.get_nameid("alice", constants::NAMEID_PERSISTENT, Some(""), Some(IDP));
    let b = db.get_nameid("alice", constants::NAMEID_PERSISTENT, Some(""), Some(IDP));
    assert_ne!(a.value, b.value);
    let c = db.get_nameid("alice", constants::NAMEID_PERSISTENT, None, Some(IDP));
    assert_eq!(a.value, c.value);
}

#[test]
fn forgetting_keeps_the_order_of_the_rest() {
    let mut db = db();
    let all: Vec<NameId> = (0..4).map(|_| db.transient_nameid("alice", Some(SP))).collect();
    db.remove_remote(&all[1]);
    let left: Vec<String> = db.name_ids_for("alice").into_iter().map(|n| n.value).collect();
    assert_eq!(
        left,
        vec![all[0].value.clone(), all[2].value.clone(), all[3].value.clone()]
    );
}

#[test]
fn a_default_format_may_be_used_without_leave_to_create() {
    let mut db = db();
    let mut policy = NameIdPolicy {
        format: None,
        sp_name_qualifier: None,
        allow_create: true,
    };
    let default = Some(constants::NAMEID_PERSISTENT);
    let first = db.construct_nameid("alice", SP, Some(&policy), default).unwrap();
    policy.allow_create = false;
    let again = db.construct_nameid("alice", SP, Some(&policy), default).unwrap();
    assert_eq!(again.value, first.value);
}
