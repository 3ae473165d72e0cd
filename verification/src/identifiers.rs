//! The identifiers of DIDs, schemas, credential definitions and revocation registries.
use vstd::prelude::*;

use indy_utils::{Qualifiable, Validatable, ValidationError};

use crate::qualified;

verus! {

/// A DID, which may be qualified by a method.
#[derive(Debug, PartialEq, Eq)]
pub struct DidValue(pub String);

/// The identifier of a schema.
#[derive(Debug, PartialEq, Eq)]
pub struct SchemaId(pub String);

/// The identifier of a credential definition.
#[derive(Debug, PartialEq, Eq)]
pub struct CredentialDefinitionId(pub String);

/// The identifier of a revocation registry.
#[derive(Debug, PartialEq, Eq)]
pub struct RevocationRegistryId(pub String);

impl View for DidValue {
    type V = Seq<char>;

    open spec fn view(&self) -> Seq<char> {
        self.0@
    }
}

impl View for SchemaId {
    type V = Seq<char>;

    open spec fn view(&self) -> Seq<char> {
        self.0@
    }
}

impl View for CredentialDefinitionId {
    type V = Seq<char>;

    open spec fn view(&self) -> Seq<char> {
        self.0@
    }
}

impl View for RevocationRegistryId {
    type V = Seq<char>;

    open spec fn view(&self) -> Seq<char> {
        self.0@
    }
}

impl Clone for SchemaId {
    fn clone(&self) -> (res: Self)
        ensures
            res == *self,
    {
        SchemaId(self.0.clone())
    }
}

impl Clone for CredentialDefinitionId {
    fn clone(&self) -> (res: Self)
        ensures
            res == *self,
    {
        CredentialDefinitionId(self.0.clone())
    }
}

impl Clone for RevocationRegistryId {
    fn clone(&self) -> (res: Self)
        ensures
            res == *self,
    {
        RevocationRegistryId(self.0.clone())
    }
}

// ---- DIDs ----

/// The method of a DID, where it is qualified.
pub open spec fn did_method(did: Seq<char>) -> Option<Seq<char>> {
    qualified::method_of("did"@, did)
}

/// The bytes that `base58::decode` reads from a text, `None` where it refuses it.
pub uninterp spec fn base58_bytes(text: Seq<char>) -> Option<Seq<u8>>;

/// The bytes are as many as a DID or a verification key has.
pub open spec fn is_did_bytes(bytes: Option<Seq<u8>>) -> bool {
    match bytes {
        Some(bytes) => bytes.len() == 16 || bytes.len() == 32,
        None => false,
    }
}

/// A DID is valid where it is qualified, or else stands for 16 or 32 bytes in base 58.
pub open spec fn did_is_valid(did: Seq<char>) -> bool {
    did_method(did) is Some || is_did_bytes(base58_bytes(did))
}

impl DidValue {
    /// The method by which the DID is qualified.
    pub fn get_method(&self) -> (res: Option<&str>)
        ensures
            qualified::text_of(res) == did_method(self@),
    {
        qualified::get_method("did", self.0.as_str())
    }

    /// `Validatable::validate` of an `indy_utils` DID accepts it where it is qualified, and
    /// otherwise where it is the base 58 form of 16 or 32 bytes.
    #[verifier::external_body]
    pub(crate) fn validate(&self) -> (res: Result<(), ValidationError>)
        ensures
            res is Ok <==> (did_method(self@) is Some || is_did_bytes(base58_bytes(self@))),
    {
        indy_utils::did::DidValue(self.0.clone()).validate()
    }
}

// ---- schema identifiers ----

/// The identifier of a schema of the given name and version that a DID publishes.
pub open spec fn schema_id_text(did: Seq<char>, name: Seq<char>, version: Seq<char>) -> Seq<char> {
    qualified::qualify(
        "schema"@,
        did_method(did),
        did + seq![':', '2', ':'] + name + seq![':'] + version,
    )
}

/// A DID with a method, where it has none of its own.
pub open spec fn did_with_method(did: Seq<char>, method: Option<Seq<char>>) -> Seq<char> {
    if did_method(did) is Some {
        did
    } else {
        qualified::qualify("did"@, method, did)
    }
}

/// A schema identifier with a method, where it has none of its own. One of four parts is made
/// anew of its DID, name and version, and so is one of eight parts, of which three make up the
/// DID. Any other stays as it is.
pub open spec fn schema_id_with_method(id: Seq<char>, method: Option<Seq<char>>) -> Seq<char> {
    let parts = qualified::parts(id);
    if qualified::method_of("schema"@, id) is Some {
        id
    } else if parts.len() == 4 {
        schema_id_text(did_with_method(parts[0], method), parts[2], parts[3])
    } else if parts.len() == 8 {
        let did = parts[2] + seq![':'] + parts[3] + seq![':'] + parts[4];
        schema_id_text(did_with_method(did, method), parts[6], parts[7])
    } else {
        id
    }
}

impl SchemaId {
    /// The method by which the identifier is qualified.
    pub fn get_method(&self) -> (res: Option<&str>)
        ensures
            qualified::text_of(res) == qualified::method_of("schema"@, self@),
    {
        qualified::get_method("schema", self.0.as_str())
    }

    /// `SchemaId::new` of `indy_data_types` joins the DID, the marker `2`, the name and the
    /// version by colons, and qualifies the result where the DID is qualified.
    #[verifier::external_body]
    pub(crate) fn new(did: &DidValue, name: &str, version: &str) -> (res: SchemaId)
        ensures
            res@ == schema_id_text(did@, name@, version@),
    {
        let did = indy_utils::did::DidValue(did.0.clone());
        SchemaId(indy_data_types::SchemaId::new(&did, name, version).0)
    }

    /// `Qualifiable::default_method` of an `indy_data_types` schema identifier leaves it as it
    /// is where it is qualified already. Otherwise it takes it apart at the colons, and makes
    /// it anew where there are four or eight parts, with the DID qualified by the method.
    #[verifier::external_body]
    pub(crate) fn default_method(&self, method: Option<&str>) -> (res: SchemaId)
        ensures
            res@ == schema_id_with_method(self@, qualified::text_of(method)),
    {
        SchemaId(indy_data_types::SchemaId(self.0.clone()).default_method(method).0)
    }
}

// ---- credential definition identifiers ----

/// The identifier of the credential definition that a DID publishes for a schema, a
/// signature type and a tag, which may be empty.
pub open spec fn cred_def_id_text(
    did: Seq<char>,
    schema_id: Seq<char>,
    signature_type: Seq<char>,
    tag: Seq<char>,
) -> Seq<char> {
    let tag_part = if tag.len() == 0 {
        seq![]
    } else {
        seq![':'] + tag
    };
    qualified::qualify(
        "creddef"@,
        did_method(did),
        did + seq![':', '3', ':'] + signature_type + seq![':'] + schema_id + tag_part,
    )
}

impl CredentialDefinitionId {
    /// The method by which the identifier is qualified.
    pub fn get_method(&self) -> (res: Option<&str>)
        ensures
            qualified::text_of(res) == qualified::method_of("creddef"@, self@),
    {
        qualified::get_method("creddef", self.0.as_str())
    }

    /// `CredentialDefinitionId::new` of `indy_data_types` joins the DID, the marker `3`, the
    /// signature type, the schema and, unless it is empty, the tag by colons, and qualifies
    /// the result where the DID is qualified.
    #[verifier::external_body]
    pub(crate) fn new(
        did: &DidValue,
        schema_id: &SchemaId,
        signature_type: &str,
        tag: &str,
    ) -> (res: CredentialDefinitionId)
        ensures
            res@ == cred_def_id_text(did@, schema_id@, signature_type@, tag@),
    {
        let did = indy_utils::did::DidValue(did.0.clone());
        let schema_id = indy_data_types::SchemaId(schema_id.0.clone());
        CredentialDefinitionId(
            indy_data_types::CredentialDefinitionId::new(&did, &schema_id, signature_type, tag).0,
        )
    }
}

// ---- revocation registry identifiers ----

/// The identifier of the revocation registry that a DID publishes for a credential
/// definition, a registry type and a tag.
pub open spec fn rev_reg_id_text(
    did: Seq<char>,
    cred_def_id: Seq<char>,
    rev_reg_type: Seq<char>,
    tag: Seq<char>,
) -> Seq<char> {
    qualified::qualify(
        "revreg"@,
        did_method(did),
        did + seq![':', '4', ':'] + cred_def_id + seq![':'] + rev_reg_type + seq![':'] + tag,
    )
}

/// What `Qualifiable::to_unqualified` makes of a revocation registry identifier.
pub uninterp spec fn rev_reg_id_unqualified(id: Seq<char>) -> Seq<char>;

impl RevocationRegistryId {
    /// `RevocationRegistryId::new` of `indy_data_types` joins the DID, the marker `4`, the
    /// credential definition, the registry type and the tag by colons, and qualifies the
    /// result where the DID is qualified.
    #[verifier::external_body]
    pub(crate) fn new(
        did: &DidValue,
        cred_def_id: &CredentialDefinitionId,
        rev_reg_type: &str,
        tag: &str,
    ) -> (res: RevocationRegistryId)
        ensures
            res@ == rev_reg_id_text(did@, cred_def_id@, rev_reg_type@, tag@),
    {
        let did = indy_utils::did::DidValue(did.0.clone());
        let cred_def_id = indy_data_types::CredentialDefinitionId(cred_def_id.0.clone());
        let id = indy_data_types::RevocationRegistryId::new(&did, &cred_def_id, rev_reg_type, tag);
        RevocationRegistryId(id.0)
    }

    /// `Qualifiable::to_unqualified` of an `indy_data_types` registry identifier takes the
    /// method off the identifier and off each identifier within it. Its result is a function
    /// of the text; how the text is taken apart is not said here.
    #[verifier::external_body]
    pub(crate) fn to_unqualified(&self) -> (res: RevocationRegistryId)
        ensures
            res@ == rev_reg_id_unqualified(self@),
    {
        let id = indy_data_types::RevocationRegistryId(self.0.clone());
        RevocationRegistryId(id.to_unqualified().0)
    }
}

} // verus!
