use indy_credx_issuer::error::{Error, ErrorKind};
use indy_credx_issuer::helpers::{attr_common_view, decimal_text, values_lack_nul};
use indy_credx_issuer::identifiers::{DidValue, SchemaId};
use indy_credx_issuer::issuer::{
    create_schema, credential_definition_id, make_credential_definition_id, schema_of_did,
};
use indy_credx_issuer::names::{holds_common_names, holds_name, holds_names};
use indy_credx_issuer::qualified::get_method;
use indy_credx_issuer::types::{
    AttributeNames, AttributeValues, CredentialValues, IssuanceType, RegistryType, Schema,
    SignatureType,
};

const DID: &str = "NcYxiDXkpYi6ov5FcYDi1e";
const QUALIFIED_DID: &str = "did:sov:NcYxiDXkpYi6ov5FcYDi1e";

fn did(text: &str) -> DidValue {
    DidValue(text.to_string())
}

fn names(list: &[&str]) -> AttributeNames {
    let mut names = AttributeNames::new();
    for name in list {
        names.insert(name.to_string());
    }
    names
}

fn strings(list: &[&str]) -> Vec<String> {
    list.iter().map(|name| name.to_string()).collect()
}

fn refused_with(err: Error) -> &'static str {
    match err {
        Error::Failure { kind: ErrorKind::Input, message: Some(message), cause: None } => message,
        other => panic!("{:?}", other),
    }
}

fn cred_def_id(did_text: &str, schema_id: &str, seq_no: Option<u32>, tag: &str) -> String {
    let schema_id = SchemaId(schema_id.to_string());
    let id =
        make_credential_definition_id(&did(did_text), &schema_id, seq_no, tag, SignatureType::CL);
    id.unwrap().0
}

#[test]
fn schema_of_a_plain_did() {
    let Schema::SchemaV1(schema) =
        create_schema(&did(DID), "gvt", "1.0", names(&["name", "age"]), Some(15)).unwrap();
    assert_eq!(schema.id.0, "NcYxiDXkpYi6ov5FcYDi1e:2:gvt:1.0");
    assert_eq!(schema.name, "gvt");
    assert_eq!(schema.version, "1.0");
    assert_eq!(schema.attr_names.names(), &strings(&["name", "age"]));
    assert_eq!(schema.seq_no, Some(15));
}

#[test]
fn schema_of_a_qualified_did() {
    let Schema::SchemaV1(schema) =
        create_schema(&did(QUALIFIED_DID), "gvt", "1.0", names(&["name"]), None).unwrap();
    assert_eq!(schema.id.0, "schema:sov:did:sov:NcYxiDXkpYi6ov5FcYDi1e:2:gvt:1.0");
    assert_eq!(schema.seq_no, None);
    assert_eq!(schema.id.get_method(), Some("sov"));
}

#[test]
fn schema_of_a_did_of_32_bytes() {
    let key = "GJ1SzoWzavQYfNL9XkaJdrQejfztN4XqdsiV4ct3LXKL";
    assert!(create_schema(&did(key), "gvt", "1.0", names(&["name"]), None).is_ok());
}

#[test]
fn schema_of_an_invalid_did_is_refused() {
    for text in ["invalid", "", "0IOl", "NcYxiDXkpYi6"] {
        match create_schema(&did(text), "gvt", "1.0", names(&["name"]), None) {
            Err(Error::Validation(_)) => {}
            other => panic!("{:?}", other),
        }
    }
}

#[test]
fn schema_of_any_did() {
    let Schema::SchemaV1(schema) =
        schema_of_did(&did("invalid"), "gvt", "1.0", names(&["name"]), Some(2));
    assert_eq!(schema.id.0, "invalid:2:gvt:1.0");
    assert_eq!(schema.seq_no, Some(2));
}

#[test]
fn qualified_did_is_valid_whatever_follows() {
    assert!(create_schema(&did("did:sov:x"), "gvt", "1.0", names(&["name"]), None).is_ok());
}

#[test]
fn definition_id_of_a_plain_did_and_schema() {
    assert_eq!(
        cred_def_id(DID, "NcYxiDXkpYi6ov5FcYDi1e:2:gvt:1.0", None, "tag"),
        "NcYxiDXkpYi6ov5FcYDi1e:3:CL:NcYxiDXkpYi6ov5FcYDi1e:2:gvt:1.0:tag",
    );
}

#[test]
fn definition_id_has_the_sequence_number() {
    assert_eq!(
        cred_def_id(DID, "NcYxiDXkpYi6ov5FcYDi1e:2:gvt:1.0", Some(4294967295), "tag"),
        "NcYxiDXkpYi6ov5FcYDi1e:3:CL:4294967295:tag",
    );
}

#[test]
fn definition_id_without_a_tag() {
    assert_eq!(cred_def_id(DID, "any", Some(0), ""), "NcYxiDXkpYi6ov5FcYDi1e:3:CL:0");
}

#[test]
fn definition_id_of_a_qualified_did_qualifies_the_schema() {
    assert_eq!(
        cred_def_id(QUALIFIED_DID, "NcYxiDXkpYi6ov5FcYDi1e:2:gvt:1.0", None, "tag"),
        "creddef:sov:did:sov:NcYxiDXkpYi6ov5FcYDi1e:3:CL:\
         schema:sov:did:sov:NcYxiDXkpYi6ov5FcYDi1e:2:gvt:1.0:tag",
    );
}

#[test]
fn definition_id_keeps_a_qualified_schema() {
    assert_eq!(
        cred_def_id(QUALIFIED_DID, "schema:other:did:other:abc:2:gvt:1.0", None, "tag"),
        "creddef:sov:did:sov:NcYxiDXkpYi6ov5FcYDi1e:3:CL:\
         schema:other:did:other:abc:2:gvt:1.0:tag",
    );
}

#[test]
fn definition_id_keeps_a_schema_without_parts() {
    assert_eq!(
        cred_def_id(QUALIFIED_DID, "1234", None, "tag"),
        "creddef:sov:did:sov:NcYxiDXkpYi6ov5FcYDi1e:3:CL:1234:tag",
    );
}

#[test]
fn definition_id_of_a_qualified_did_and_other_schema_ids() {
    for (schema_id, named) in [
        ("a:b:c", "a:b:c"),
        ("a:2:gvt:", "a:2:gvt:"),
        ("", ""),
        ("x:9:gvt:1.0", "schema:sov:did:sov:x:2:gvt:1.0"),
        ("x:2:gvt:1.0:", "schema:sov:did:sov:x:2:gvt:1.0"),
        ("x:2::1.0", "schema:sov:did:sov:x:2::1.0"),
        ("a:b:did:sov:x:2:gvt:1.0", "schema:sov:did:sov:x:2:gvt:1.0"),
        ("schema:SOV:did:SOV:x:2:gvt:1.0", "schema:sov:did:sov:did:SOV:x:2:gvt:1.0"),
    ] {
        assert_eq!(
            cred_def_id(QUALIFIED_DID, schema_id, None, "tag"),
            format!("creddef:sov:did:sov:NcYxiDXkpYi6ov5FcYDi1e:3:CL:{}:tag", named),
        );
    }
}

#[test]
fn plain_did_with_a_qualified_schema_is_refused() {
    let schema_id = SchemaId("schema:sov:did:sov:abc:2:gvt:1.0".to_string());
    for seq_no in [None, Some(7)] {
        let res = make_credential_definition_id(
            &did(DID),
            &schema_id,
            seq_no,
            "tag",
            SignatureType::CL,
        );
        assert_eq!(
            refused_with(res.unwrap_err()),
            "Cannot use an unqualified Origin DID with fully qualified Schema ID",
        );
    }
}

#[test]
fn own_schema_is_accepted() {
    for text in [DID, QUALIFIED_DID] {
        let Schema::SchemaV1(schema) =
            create_schema(&did(text), "gvt", "1.0", names(&["name"]), None).unwrap();
        let id = make_credential_definition_id(
            &did(text),
            &schema.id,
            None,
            "tag",
            SignatureType::CL,
        )
        .unwrap();
        assert_eq!(id.get_method(), did(text).get_method());
    }
}

#[test]
fn did_that_reads_as_a_prefix_makes_a_definition_id_qualified() {
    assert_eq!(cred_def_id("creddef", "1", None, "t"), "creddef:3:CL:1:t");
    assert_eq!(get_method("creddef", "creddef:3:CL:1:t"), Some("3"));
}

#[test]
fn line_break_in_a_tag_takes_the_method_away() {
    let id = cred_def_id(QUALIFIED_DID, "1", None, "a\nb");
    assert_eq!(get_method("creddef", &id), None);
}

#[test]
fn sequence_number_names_the_schema() {
    assert_eq!(cred_def_id(DID, "one", Some(12), "t"), cred_def_id(DID, "two", Some(12), "t"));
    assert_ne!(cred_def_id(DID, "one", Some(12), "t"), cred_def_id(DID, "one", Some(13), "t"));
    assert_ne!(cred_def_id(DID, "one", Some(12), "t"), cred_def_id(DID, "one", Some(12), "u"));
    assert_ne!(cred_def_id(DID, "one", Some(1), "2"), cred_def_id(DID, "one", Some(12), ""));
}

#[test]
fn definition_id_from_a_given_schema_id() {
    let id = credential_definition_id(
        &did(DID),
        SchemaId("abc".to_string()),
        None,
        "tag",
        SignatureType::CL,
    );
    assert_eq!(id.0, "NcYxiDXkpYi6ov5FcYDi1e:3:CL:abc:tag");
}

#[test]
fn methods_of_identifiers() {
    assert_eq!(get_method("did", "did:sov:abc"), Some("sov"));
    assert_eq!(get_method("did", "did:sov:"), Some("sov"));
    assert_eq!(get_method("did", "did:sov"), None);
    assert_eq!(get_method("did", "did:SOV:abc"), None);
    assert_eq!(get_method("did", "did::abc"), None);
    assert_eq!(get_method("schema", "did:sov:abc"), None);
    assert_eq!(get_method("did", "did:sov:a\nb"), None);
}

#[test]
fn numbers_in_decimal() {
    assert_eq!(decimal_text(0), "0");
    assert_eq!(decimal_text(9), "9");
    assert_eq!(decimal_text(10), "10");
    assert_eq!(decimal_text(100203), "100203");
    assert_eq!(decimal_text(u32::MAX), "4294967295");
}

#[test]
fn texts_of_types() {
    assert_eq!(SignatureType::CL.to_str(), "CL");
    assert_eq!(RegistryType::CL_ACCUM.to_str(), "CL_ACCUM");
    assert!(IssuanceType::ISSUANCE_BY_DEFAULT.to_bool());
    assert!(!IssuanceType::ISSUANCE_ON_DEMAND.to_bool());
}

#[test]
fn common_view_of_names() {
    assert_eq!(attr_common_view("First Name"), "firstname");
    assert_eq!(attr_common_view(" a B c "), "abc");
    assert_eq!(attr_common_view("tab\tstays"), "tab\tstays");
    assert_eq!(attr_common_view(""), "");
}

#[test]
fn attribute_names_hold_no_name_twice() {
    let mut names = AttributeNames::new();
    assert!(names.insert("name".to_string()));
    assert!(names.insert("age".to_string()));
    assert!(!names.insert("name".to_string()));
    assert_eq!(names.names(), &strings(&["name", "age"]));
}

#[test]
fn credential_values_hold_one_value_for_a_name() {
    let value = |text: &str| AttributeValues { raw: text.to_string(), encoded: text.to_string() };
    let mut values = CredentialValues::new();
    values.insert("name".to_string(), value("1"));
    values.insert("age".to_string(), value("2"));
    values.insert("name".to_string(), value("3"));
    let entries: Vec<(&str, &str)> =
        values.entries().iter().map(|entry| (entry.0.as_str(), entry.1.encoded.as_str())).collect();
    assert_eq!(entries, vec![("name", "3"), ("age", "2")]);
}

#[test]
fn values_with_a_nul_are_found() {
    let value = |text: &str| AttributeValues { raw: text.to_string(), encoded: text.to_string() };
    let mut values = CredentialValues::new();
    assert!(values_lack_nul(&values));
    values.insert("name".to_string(), value("12"));
    assert!(values_lack_nul(&values));
    values.insert("age".to_string(), value("1\u{0}2"));
    assert!(!values_lack_nul(&values));
}

#[test]
fn names_in_lists() {
    let list = strings(&["a", "b"]);
    assert!(holds_name(&list, &"b".to_string()));
    assert!(!holds_name(&list, &"c".to_string()));
    assert!(holds_names(&list, &strings(&["b", "a", "b"])));
    assert!(!holds_names(&list, &strings(&["a", "c"])));
    assert!(holds_names(&list, &strings(&[])));
    assert!(holds_common_names(&list, &strings(&["a", "c"]), &strings(&["a"])));
    assert!(!holds_common_names(&list, &strings(&["a", "c"]), &strings(&["c"])));
}
