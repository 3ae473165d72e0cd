//! What an issuer does: publish schemas, credential definitions and revocation
//! registries, offer and sign credentials, and revoke them.
use vstd::prelude::*;

use std::collections::BTreeSet;

use crate::cl;
use crate::error::{Cause, Error, ErrorKind};
use crate::helpers;
use crate::identifiers;
use crate::identifiers::{CredentialDefinitionId, DidValue, RevocationRegistryId, SchemaId};
use crate::names;
use crate::numbers;
use crate::points;
use crate::qualified;
use crate::tails::TailsWriter;
use crate::types::{
    AttributeNames, Credential, CredentialDefinition, CredentialDefinitionConfig,
    CredentialDefinitionData, CredentialDefinitionPrivate, CredentialDefinitionV1,
    CredentialKeyCorrectnessProof, CredentialOffer, CredentialRequest, CredentialRevocationConfig,
    CredentialValues, IssuanceType, RegistryType, RevocationRegistry, RevocationRegistryDefinition,
    RevocationRegistryDefinitionPrivate, RevocationRegistryDefinitionV1,
    RevocationRegistryDefinitionValue, RevocationRegistryDefinitionValuePublicKeys,
    RevocationRegistryDelta, RevocationRegistryDeltaV1, RevocationRegistryV1, Schema, SchemaV1,
    SignatureType,
};

verus! {

// ---- schemas ----

/// What a schema tells that a DID publishes.
pub open spec fn publishes(
    schema: Schema,
    did: Seq<char>,
    name: Seq<char>,
    version: Seq<char>,
    attr_names: AttributeNames,
    seq_no: Option<u32>,
) -> bool {
    &&& schema.v1().id@ == identifiers::schema_id_text(did, name, version)
    &&& schema.v1().name@ == name
    &&& schema.v1().version@ == version
    &&& schema.v1().attr_names == attr_names
    &&& schema.v1().seq_no == seq_no
}

/// The schema that a DID publishes, whether or not the DID is valid.
pub fn schema_of_did(
    origin_did: &DidValue,
    schema_name: &str,
    schema_version: &str,
    attr_names: AttributeNames,
    seq_no: Option<u32>,
) -> (res: Schema)
    ensures
        publishes(res, origin_did@, schema_name@, schema_version@, attr_names, seq_no),
{
    Schema::SchemaV1(
        SchemaV1 {
            id: SchemaId::new(origin_did, schema_name, schema_version),
            name: schema_name.to_owned(),
            version: schema_version.to_owned(),
            attr_names,
            seq_no,
        },
    )
}

/// Makes a schema that a DID publishes. A DID that is not valid is refused.
pub fn create_schema(
    origin_did: &DidValue,
    schema_name: &str,
    schema_version: &str,
    attr_names: AttributeNames,
    seq_no: Option<u32>,
) -> (res: Result<Schema, Error>)
    ensures
        res is Ok <==> identifiers::did_is_valid(origin_did@),
        res matches Err(err) ==> err is Validation,
        res matches Ok(schema) ==> publishes(
            schema,
            origin_did@,
            schema_name@,
            schema_version@,
            attr_names,
            seq_no,
        ),
{
    match origin_did.validate() {
        Ok(()) => Ok(schema_of_did(origin_did, schema_name, schema_version, attr_names, seq_no)),
        Err(err) => Err(Error::Validation(err)),
    }
}

// ---- credential definitions ----

/// A DID without a method goes with a schema identifier that has one.
pub open spec fn schema_is_foreign(did: Seq<char>, schema_id: Seq<char>) -> bool {
    identifiers::did_method(did) is None && qualified::method_of("schema"@, schema_id) is Some
}

/// How a schema is named within the identifier of a credential definition: by its
/// sequence number where it has one, and otherwise by an identifier.
pub open spec fn schema_part(seq_no: Option<u32>, id: Seq<char>) -> Seq<char> {
    match seq_no {
        Some(n) => helpers::decimal(n as nat),
        None => id,
    }
}

/// The identifier of a credential definition, given that of the schema as it is to
/// appear where the schema has no sequence number.
pub fn credential_definition_id(
    origin_did: &DidValue,
    schema_id: SchemaId,
    schema_seq_no: Option<u32>,
    tag: &str,
    signature_type: SignatureType,
) -> (res: CredentialDefinitionId)
    ensures
        res@ == identifiers::cred_def_id_text(
            origin_did@,
            schema_part(schema_seq_no, schema_id@),
            signature_type.text(),
            tag@,
        ),
{
    let schema_infix_id = match schema_seq_no {
        Some(n) => SchemaId(helpers::decimal_text(n)),
        None => schema_id,
    };
    CredentialDefinitionId::new(origin_did, &schema_infix_id, signature_type.to_str(), tag)
}

/// Makes the identifier of a credential definition. The schema's identifier takes on the
/// DID's method where it has none; one that has a method is refused where the DID has
/// none.
pub fn make_credential_definition_id(
    origin_did: &DidValue,
    schema_id: &SchemaId,
    schema_seq_no: Option<u32>,
    tag: &str,
    signature_type: SignatureType,
) -> (res: Result<CredentialDefinitionId, Error>)
    ensures
        res is Err <==> schema_is_foreign(origin_did@, schema_id@),
        res matches Err(err) ==> err.refuses(
            "Cannot use an unqualified Origin DID with fully qualified Schema ID"@,
        ),
        res matches Ok(id) ==> id@ == identifiers::cred_def_id_text(
            origin_did@,
            schema_part(
                schema_seq_no,
                identifiers::schema_id_with_method(
                    schema_id@,
                    identifiers::did_method(origin_did@),
                ),
            ),
            signature_type.text(),
            tag@,
        ),
{
    let method = origin_did.get_method();
    if method.is_none() && schema_id.get_method().is_some() {
        return Err(
            Error::input("Cannot use an unqualified Origin DID with fully qualified Schema ID"),
        );
    }
    let schema_id = schema_id.default_method(method);
    Ok(credential_definition_id(origin_did, schema_id, schema_seq_no, tag, signature_type))
}

/// What a credential definition tells besides its keys.
pub open spec fn defines(
    cred_def: CredentialDefinition,
    did: Seq<char>,
    schema: Schema,
    tag: Seq<char>,
    signature_type: SignatureType,
) -> bool {
    let method = identifiers::did_method(did);
    &&& cred_def.v1().id@ == identifiers::cred_def_id_text(
        did,
        schema_part(
            schema.v1().seq_no,
            identifiers::schema_id_with_method(schema.v1().id@, method),
        ),
        signature_type.text(),
        tag,
    )
    &&& cred_def.v1().schema_id@ == schema_part(schema.v1().seq_no, schema.v1().id@)
    &&& cred_def.v1().signature_type == signature_type
    &&& cred_def.v1().tag@ == tag
}

/// The credential definition of a schema with the keys that are given, under an
/// identifier.
pub fn credential_definition_from_keys(
    id: CredentialDefinitionId,
    schema: &Schema,
    tag: &str,
    signature_type: SignatureType,
    primary: cl::CredentialPrimaryPublicKey,
    revocation: Option<cl::CredentialRevocationPublicKey>,
    private_key: cl::CredentialPrivateKey,
    correctness_proof: cl::ClKeyCorrectnessProof,
) -> (res: (CredentialDefinition, CredentialDefinitionPrivate, CredentialKeyCorrectnessProof))
    ensures
        res.0.v1().id == id,
        res.0.v1().schema_id@ == schema_part(schema.v1().seq_no, schema.v1().id@),
        res.0.v1().signature_type == signature_type,
        res.0.v1().tag@ == tag@,
        res.0.v1().value == (CredentialDefinitionData { primary, revocation }),
        res.1.value == private_key,
        res.2.value == correctness_proof,
{
    let Schema::SchemaV1(schema) = schema;
    let schema_id = match schema.seq_no {
        Some(n) => SchemaId(helpers::decimal_text(n)),
        None => schema.id.clone(),
    };
    let cred_def = CredentialDefinition::CredentialDefinitionV1(
        CredentialDefinitionV1 {
            id,
            schema_id,
            signature_type,
            tag: tag.to_owned(),
            value: CredentialDefinitionData { primary, revocation },
        },
    );
    let private = CredentialDefinitionPrivate { value: private_key };
    let key_proof = CredentialKeyCorrectnessProof { value: correctness_proof };
    (cred_def, private, key_proof)
}

/// The keys are fresh ones for the attributes of a schema and the link secret, with the
/// revocation support that was asked for.
pub open spec fn keys_are_fresh(
    names: Seq<String>,
    support_revocation: bool,
    data: CredentialDefinitionData,
    private: cl::CredentialPrivateKey,
    key_proof: cl::ClKeyCorrectnessProof,
) -> bool {
    exists|
        schema: cl::CredentialSchema,
        non_schema: cl::NonCredentialSchema,
        key: cl::CredentialPublicKey,
    |
        {
            &&& cl::schema_attrs(schema) == helpers::common_names(names)
            &&& cl::non_schema_attrs(non_schema) == helpers::link_secret_names()
            &&& #[trigger] cl::generated_keys(
                schema,
                non_schema,
                support_revocation,
                key,
                private,
                key_proof,
            )
            &&& data.primary == cl::primary_key(key)
            &&& data.revocation == cl::revocation_key(key)
        }
}

/// The error of keys that could not be drawn for the attributes of a schema and the link secret
/// with the revocation support that was asked for, or of a primary key, drawn for these, that
/// could not be copied.
pub open spec fn keys_not_made(err: Error, names: Seq<String>, support_revocation: bool) -> bool {
    err matches Error::Signature(source) && exists|
        schema: cl::CredentialSchema,
        non_schema: cl::NonCredentialSchema,
    |
        {
            &&& #[trigger] cl::schema_attrs(schema) == helpers::common_names(names)
            &&& #[trigger] cl::non_schema_attrs(non_schema) == helpers::link_secret_names()
            &&& ({
                ||| call_ensures(
                    cl::Issuer::new_credential_def,
                    (&schema, &non_schema, support_revocation),
                    Err(source),
                )
                ||| exists|
                    key: cl::CredentialPublicKey,
                    private: cl::CredentialPrivateKey,
                    key_proof: cl::ClKeyCorrectnessProof,
                |
                    #[trigger] cl::generated_keys(
                        schema,
                        non_schema,
                        support_revocation,
                        key,
                        private,
                        key_proof,
                    ) && call_ensures(
                        cl::CredentialPrimaryPublicKey::try_clone,
                        (&cl::primary_key(key),),
                        Err(source),
                    )
            })
        }
}

/// Makes a credential definition for a schema, with fresh keys. A schema that has a
/// method is refused where the DID has none, and so is one without attributes. Otherwise
/// it fails only where the signature scheme cannot draw the keys, or copy one.
pub fn create_credential_definition(
    origin_did: &DidValue,
    schema: &Schema,
    tag: &str,
    signature_type: SignatureType,
    config: CredentialDefinitionConfig,
) -> (res: Result<
    (CredentialDefinition, CredentialDefinitionPrivate, CredentialKeyCorrectnessProof),
    Error,
>)
    ensures
        schema_is_foreign(origin_did@, schema.v1().id@) ==> (res matches Err(err) && err.refuses(
            "Cannot use an unqualified Origin DID with fully qualified Schema ID"@,
        )),
        schema.v1().attr_names@.len() == 0 ==> res is Err,
        res matches Err(err) ==> schema_is_foreign(origin_did@, schema.v1().id@) || keys_not_made(
            err,
            schema.v1().attr_names@,
            config.support_revocation,
        ),
        res matches Ok((cred_def, private, key_proof)) ==> {
            let data = cred_def.v1().value;
            &&& defines(cred_def, origin_did@, *schema, tag@, signature_type)
            &&& keys_are_fresh(
                schema.v1().attr_names@,
                config.support_revocation,
                data,
                private.value,
                key_proof.value,
            )
            &&& cl::key_attrs(data.primary) == helpers::common_names(
                schema.v1().attr_names@,
            ).union(helpers::link_secret_names())
            &&& data.revocation is Some <==> config.support_revocation
            &&& cred_def.is_bounded()
            &&& cl::index_secrets(private.value) is Some <==> config.support_revocation
            &&& cl::index_secrets_are_sound(private.value)
        },
{
    let Schema::SchemaV1(v1) = schema;
    let cred_def_id = make_credential_definition_id(
        origin_did,
        &v1.id,
        v1.seq_no,
        tag,
        signature_type,
    )?;
    let credential_schema = helpers::build_credential_schema(&v1.attr_names)?;
    let non_credential_schema = helpers::build_non_credential_schema()?;
    proof {
        if v1.attr_names@.len() == 0 {
            assert(helpers::common_names(v1.attr_names@) =~= Set::<Seq<char>>::empty());
        }
    }
    let keys = cl::Issuer::new_credential_def(
        &credential_schema,
        &non_credential_schema,
        config.support_revocation,
    );
    let (public_key, private_key, correctness_proof) = match keys {
        Ok(keys) => keys,
        Err(err) => return Err(Error::Signature(err)),
    };
    let primary = match public_key.get_primary_key().try_clone() {
        Ok(primary) => primary,
        Err(err) => return Err(Error::Signature(err)),
    };
    let revocation = match public_key.get_revocation_key() {
        Some(part) => Some(part.clone()),
        None => None,
    };
    Ok(
        credential_definition_from_keys(
            cred_def_id,
            schema,
            tag,
            signature_type,
            primary,
            revocation,
            private_key,
            correctness_proof,
        ),
    )
}

// ---- revocation registries ----

/// One of a DID and a credential definition's identifier has a method, the other none.
pub open spec fn methods_differ(did: Seq<char>, cred_def_id: Seq<char>) -> bool {
    let of_did = identifiers::did_method(did);
    let of_cred_def = qualified::method_of("creddef"@, cred_def_id);
    (of_did is Some) != (of_cred_def is Some)
}

/// The error that refuses a DID and a credential definition's identifier of which only one
/// has a method.
pub open spec fn refuses_methods(err: Error, did: Seq<char>) -> bool {
    err.refuses(
        if identifiers::did_method(did) is None {
            "Cannot use an unqualified Origin DID with a fully qualified Credential Definition ID"@
        } else {
            "Cannot use a fully qualified Origin DID with an unqualified Credential Definition ID"@
        },
    )
}

/// Makes the identifier of a revocation registry. The DID and the credential definition's
/// identifier have to be qualified both, or neither.
pub fn make_revocation_registry_id(
    origin_did: &DidValue,
    cred_def: &CredentialDefinition,
    tag: &str,
    rev_reg_type: RegistryType,
) -> (res: Result<RevocationRegistryId, Error>)
    ensures
        res is Err <==> methods_differ(origin_did@, cred_def.v1().id@),
        res matches Err(err) ==> refuses_methods(err, origin_did@),
        res matches Ok(id) ==> id@ == identifiers::rev_reg_id_text(
            origin_did@,
            cred_def.v1().id@,
            rev_reg_type.text(),
            tag@,
        ),
{
    let CredentialDefinition::CredentialDefinitionV1(cred_def) = cred_def;
    match (origin_did.get_method(), cred_def.id.get_method()) {
        (None, Some(_)) => Err(
            Error::input(
                "Cannot use an unqualified Origin DID with a fully qualified Credential Definition ID",
            ),
        ),
        (Some(_), None) => Err(
            Error::input(
                "Cannot use a fully qualified Origin DID with an unqualified Credential Definition ID",
            ),
        ),
        _ => Ok(
            RevocationRegistryId::new(origin_did, &cred_def.id, rev_reg_type.to_str(), tag),
        ),
    }
}

/// What the definition of a registry tells besides its key and its tails.
pub open spec fn describes_registry(
    definition: RevocationRegistryDefinition,
    id: RevocationRegistryId,
    cred_def: CredentialDefinitionV1,
    tag: Seq<char>,
    rev_reg_type: RegistryType,
    issuance_type: IssuanceType,
    max_cred_num: u32,
) -> bool {
    let def = definition.v1();
    &&& def.id == id
    &&& def.revoc_def_type == rev_reg_type
    &&& def.tag@ == tag
    &&& def.cred_def_id == cred_def.id
    &&& def.value.max_cred_num == max_cred_num
    &&& def.value.issuance_type == issuance_type
}

/// The public key of a new registry goes with its private key, its accumulator is the first
/// one, and the delta leads there from no state at all; the key is sound and the points are
/// bounded.
pub open spec fn starts_registry(
    definition: RevocationRegistryDefinition,
    private: RevocationRegistryDefinitionPrivate,
    registry: RevocationRegistry,
    delta: RevocationRegistryDelta,
    key: cl::CredentialPublicKey,
) -> bool {
    let value = definition.v1().value;
    &&& value.public_keys.accum_key == cl::registry_public_key(
        key,
        private.value,
        value.max_cred_num,
    )
    &&& registry.accum() == cl::initial_accum(
        key,
        private.value,
        value.max_cred_num,
        value.issuance_type.by_default(),
    )
    &&& cl::delta_is(delta.value(), None, registry.accum(), set![], set![])
    &&& cl::registry_key_is_sound(private.value)
    &&& registry.is_bounded()
    &&& delta.is_bounded()
}

/// A new registry of the keys and the state that are given, whose tails are kept.
pub fn revocation_registry_from_keys(
    rev_reg_id: RevocationRegistryId,
    cred_def: &CredentialDefinitionV1,
    tag: &str,
    rev_reg_type: RegistryType,
    issuance_type: IssuanceType,
    max_cred_num: u32,
    accum_key: cl::RevocationKeyPublic,
    private_key: cl::RevocationKeyPrivate,
    registry: cl::ClRevocationRegistry,
    tails_location: String,
    tails_hash: String,
) -> (res: (
    RevocationRegistryDefinition,
    RevocationRegistryDefinitionPrivate,
    RevocationRegistry,
    RevocationRegistryDelta,
))
    ensures
        describes_registry(
            res.0,
            rev_reg_id,
            *cred_def,
            tag@,
            rev_reg_type,
            issuance_type,
            max_cred_num,
        ),
        res.0.v1().value.public_keys.accum_key == accum_key,
        res.0.v1().value.tails_location == tails_location,
        res.0.v1().value.tails_hash == tails_hash,
        res.1.value == private_key,
        res.2.value() == registry,
        cl::delta_is(res.3.value(), None, cl::registry_accum(registry), set![], set![]),
        cl::delta_prev_point(res.3.value()) is None,
        cl::delta_point(res.3.value()) == cl::registry_point(registry),
{
    let value = RevocationRegistryDefinitionValue {
        max_cred_num,
        issuance_type,
        public_keys: RevocationRegistryDefinitionValuePublicKeys { accum_key },
        tails_location,
        tails_hash,
    };
    let definition = RevocationRegistryDefinition::RevocationRegistryDefinitionV1(
        RevocationRegistryDefinitionV1 {
            id: rev_reg_id,
            revoc_def_type: rev_reg_type,
            tag: tag.to_owned(),
            cred_def_id: cred_def.id.clone(),
            value,
        },
    );
    let registry = RevocationRegistry::RevocationRegistryV1(
        RevocationRegistryV1 { value: registry },
    );
    let delta = registry.initial_delta();
    proof {
        assert(cl::delta_issued(delta.value()) =~= set![]);
        assert(cl::delta_revoked(delta.value()) =~= set![]);
    }
    let private = RevocationRegistryDefinitionPrivate { value: private_key };
    (definition, private, registry, delta)
}

/// The tails of a registry with fresh keys could not be kept.
pub open spec fn tails_not_kept<TW: TailsWriter>(
    before: TW,
    after: TW,
    key: cl::CredentialPublicKey,
    max_cred_num: u32,
    err: Error,
) -> bool {
    exists|private: cl::RevocationKeyPrivate|
        TW::wrote(
            before,
            #[trigger] cl::tails_generator(key, private, max_cred_num),
            after,
            Err(err),
        )
}

/// The tails of a registry were kept, where its definition says.
pub open spec fn tails_kept<TW: TailsWriter>(
    before: TW,
    after: TW,
    key: cl::CredentialPublicKey,
    definition: RevocationRegistryDefinition,
    private: RevocationRegistryDefinitionPrivate,
) -> bool {
    let value = definition.v1().value;
    TW::wrote(
        before,
        cl::tails_generator(key, private.value, value.max_cred_num),
        after,
        Ok((value.tails_location, value.tails_hash)),
    )
}

/// The error of the keys of a registry that could not be made with a public key.
pub open spec fn registry_keys_not_made(
    err: Error,
    key: cl::CredentialPublicKey,
    max_cred_num: u32,
    issuance_type: IssuanceType,
) -> bool {
    err matches Error::Signature(source) && call_ensures(
        cl::Issuer::new_revocation_registry_def,
        (&key, max_cred_num, issuance_type.by_default()),
        Err(source),
    )
}

/// Makes a revocation registry for a credential definition with the public key that is
/// given. It fails where the key has no part for revocation, and otherwise only where the
/// tails cannot be kept.
pub fn create_revocation_registry_with_key<TW>(
    rev_reg_id: RevocationRegistryId,
    cred_def: &CredentialDefinitionV1,
    tag: &str,
    rev_reg_type: RegistryType,
    issuance_type: IssuanceType,
    max_cred_num: u32,
    public_key: &cl::CredentialPublicKey,
    tails_writer: &mut TW,
) -> (res: Result<
    (
        RevocationRegistryDefinition,
        RevocationRegistryDefinitionPrivate,
        RevocationRegistry,
        RevocationRegistryDelta,
    ),
    Error,
>) where TW: TailsWriter
    requires
        cl::revocation_key(*public_key) matches Some(part) ==> 2 * max_cred_num + 1 <= u32::MAX
            && cl::part_is_bounded(part),
    ensures
        cl::revocation_key(*public_key) is None ==> (res matches Err(err) && registry_keys_not_made(
            err,
            *public_key,
            max_cred_num,
            issuance_type,
        ) && *final(tails_writer) == *old(tails_writer)),
        cl::revocation_key(*public_key) is Some ==> (res matches Err(err) ==> tails_not_kept(
            *old(tails_writer),
            *final(tails_writer),
            *public_key,
            max_cred_num,
            err,
        )),
        res matches Ok(made) ==> {
            &&& describes_registry(
                made.0,
                rev_reg_id,
                *cred_def,
                tag@,
                rev_reg_type,
                issuance_type,
                max_cred_num,
            )
            &&& starts_registry(made.0, made.1, made.2, made.3, *public_key)
            &&& tails_kept(
                *old(tails_writer),
                *final(tails_writer),
                *public_key,
                made.0,
                made.1,
            )
        },
{
    let made = cl::Issuer::new_revocation_registry_def(
        public_key,
        max_cred_num,
        issuance_type.to_bool(),
    );
    let (accum_key, private_key, registry, mut generator) = match made {
        Ok(parts) => parts,
        Err(err) => return Err(Error::Signature(err)),
    };
    assert(generator == cl::tails_generator(*public_key, private_key, max_cred_num));
    let (tails_location, tails_hash) = match tails_writer.write(&mut generator) {
        Ok(kept) => kept,
        Err(err) => return Err(err),
    };
    Ok(
        revocation_registry_from_keys(
            rev_reg_id,
            cred_def,
            tag,
            rev_reg_type,
            issuance_type,
            max_cred_num,
            accum_key,
            private_key,
            registry,
            tails_location,
            tails_hash,
        ),
    )
}

/// The error of a public key that could not be put together from the parts of a credential
/// definition; the failure to do so lies behind it.
pub open spec fn key_not_fetched(err: Error, data: CredentialDefinitionData) -> bool {
    &&& err.reports_signature(
        ErrorKind::Unexpected,
        "Error fetching public key from credential definition"@,
    )
    &&& err matches Error::Failure { cause: Some(Cause::Signature(source)), .. }
        && data.key_came_of_parts(Err(source))
}

/// The public key of a credential definition. It fails only where a number of the key
/// cannot be copied.
fn fetch_public_key(cred_def: &CredentialDefinition) -> (res: Result<
    cl::CredentialPublicKey,
    Error,
>)
    ensures
        res matches Ok(key) ==> key == cred_def.v1().value.key()
            && cred_def.v1().value.key_has_parts(),
        res matches Err(err) ==> key_not_fetched(err, cred_def.v1().value),
{
    let CredentialDefinition::CredentialDefinitionV1(cred_def) = cred_def;
    match cred_def.get_public_key() {
        Ok(key) => Ok(key),
        Err(err) => Err(
            Error::caused(
                ErrorKind::Unexpected,
                "Error fetching public key from credential definition",
                Cause::Signature(err),
            ),
        ),
    }
}

/// A registry can be made: where the identifier is not refused and the definition supports
/// revocation, the tails can be counted and the points of the definition's key are bounded.
pub open spec fn can_make_registry(
    did: Seq<char>,
    cred_def: CredentialDefinition,
    max_cred_num: u32,
) -> bool {
    !methods_differ(did, cred_def.v1().id@) && cred_def.v1().value.revocation is Some ==> {
        &&& 2 * max_cred_num + 1 <= u32::MAX
        &&& cred_def.is_bounded()
    }
}

/// What comes of an attempt to make a registry, and of the writer that is to keep its tails.
pub open spec fn makes_registry<TW: TailsWriter>(
    res: Result<
        (
            RevocationRegistryDefinition,
            RevocationRegistryDefinitionPrivate,
            RevocationRegistry,
            RevocationRegistryDelta,
        ),
        Error,
    >,
    before: TW,
    after: TW,
    did: Seq<char>,
    cred_def: CredentialDefinition,
    tag: Seq<char>,
    rev_reg_type: RegistryType,
    issuance_type: IssuanceType,
    max_cred_num: u32,
) -> bool {
    let data = cred_def.v1().value;
    if methods_differ(did, cred_def.v1().id@) {
        res matches Err(err) && refuses_methods(err, did) && after == before
    } else {
        match res {
            Err(err) => {
                ||| key_not_fetched(err, data) && after == before
                ||| data.revocation is None && after == before && registry_keys_not_made(
                    err,
                    data.key(),
                    max_cred_num,
                    issuance_type,
                )
                ||| data.revocation is Some && tails_not_kept(
                    before,
                    after,
                    data.key(),
                    max_cred_num,
                    err,
                )
            },
            Ok(made) => {
                &&& data.revocation is Some
                &&& data.key_has_parts()
                &&& made.0.v1().id@ == identifiers::rev_reg_id_text(
                    did,
                    cred_def.v1().id@,
                    rev_reg_type.text(),
                    tag,
                )
                &&& describes_registry(
                    made.0,
                    made.0.v1().id,
                    cred_def.v1(),
                    tag,
                    rev_reg_type,
                    issuance_type,
                    max_cred_num,
                )
                &&& starts_registry(made.0, made.1, made.2, made.3, data.key())
                &&& tails_kept(before, after, data.key(), made.0, made.1)
            },
        }
    }
}

/// Makes a revocation registry for a credential definition: draws its keys, and has its
/// tails kept. It fails where the identifier is refused, where the credential definition
/// does not support revocation, and where the tails cannot be kept; and where the public
/// key cannot be fetched, which rests on the copying of numbers.
pub fn create_revocation_registry<TW>(
    origin_did: &DidValue,
    cred_def: &CredentialDefinition,
    tag: &str,
    rev_reg_type: RegistryType,
    issuance_type: IssuanceType,
    max_cred_num: u32,
    tails_writer: &mut TW,
) -> (res: Result<
    (
        RevocationRegistryDefinition,
        RevocationRegistryDefinitionPrivate,
        RevocationRegistry,
        RevocationRegistryDelta,
    ),
    Error,
>) where TW: TailsWriter
    requires
        can_make_registry(origin_did@, *cred_def, max_cred_num),
    ensures
        makes_registry(
            res,
            *old(tails_writer),
            *final(tails_writer),
            origin_did@,
            *cred_def,
            tag@,
            rev_reg_type,
            issuance_type,
            max_cred_num,
        ),
{
    let rev_reg_id = make_revocation_registry_id(origin_did, cred_def, tag, rev_reg_type)?;
    let public_key = fetch_public_key(cred_def)?;
    let CredentialDefinition::CredentialDefinitionV1(cred_def) = cred_def;
    create_revocation_registry_with_key(
        rev_reg_id,
        cred_def,
        tag,
        rev_reg_type,
        issuance_type,
        max_cred_num,
        &public_key,
        tails_writer,
    )
}

/// Makes a revocation registry where it can be made; `None`, with the writer unchanged, where
/// it cannot. The points of the definition's key have to be such that they can be written.
pub fn create_revocation_registry_checked<TW>(
    origin_did: &DidValue,
    cred_def: &CredentialDefinition,
    tag: &str,
    rev_reg_type: RegistryType,
    issuance_type: IssuanceType,
    max_cred_num: u32,
    tails_writer: &mut TW,
) -> (res: Option<
    Result<
        (
            RevocationRegistryDefinition,
            RevocationRegistryDefinitionPrivate,
            RevocationRegistry,
            RevocationRegistryDelta,
        ),
        Error,
    >,
>) where TW: TailsWriter
    requires
        !methods_differ(origin_did@, cred_def.v1().id@) ==> cred_def.fits(),
    ensures
        res is Some <==> can_make_registry(origin_did@, *cred_def, max_cred_num),
        res is None ==> *final(tails_writer) == *old(tails_writer),
        res matches Some(outcome) ==> makes_registry(
            outcome,
            *old(tails_writer),
            *final(tails_writer),
            origin_did@,
            *cred_def,
            tag@,
            rev_reg_type,
            issuance_type,
            max_cred_num,
        ),
{
    let CredentialDefinition::CredentialDefinitionV1(v1) = cred_def;
    let refused = origin_did.get_method().is_some() != v1.id.get_method().is_some();
    if !refused && v1.value.revocation.is_some() && (max_cred_num > (u32::MAX - 1) / 2
        || !cred_def.check_bounds()) {
        return None;
    }
    Some(
        create_revocation_registry(
            origin_did,
            cred_def,
            tag,
            rev_reg_type,
            issuance_type,
            max_cred_num,
            tails_writer,
        ),
    )
}

// ---- issuing and revoking indexes ----

/// Each index that is to be issued or revoked has a tail.
pub open spec fn indexes_have_tails(
    max_cred_num: u32,
    issued: Set<u32>,
    revoked: Set<u32>,
) -> bool {
    forall|index: u32|
        issued.contains(index) || revoked.contains(index) ==> #[trigger] cl::has_tail(
            max_cred_num,
            index,
        )
}

/// Indexes can be issued and revoked with a revocation part: where there is one, each index has
/// a tail and, where any index moves, the points are bounded and the private key is sound.
pub open spec fn can_move(
    part: Option<cl::CredentialRevocationPublicKey>,
    rev_reg_def: RevocationRegistryDefinition,
    private: RevocationRegistryDefinitionPrivate,
    before: RevocationRegistry,
    issued: Set<u32>,
    revoked: Set<u32>,
) -> bool {
    part matches Some(part) ==> {
        &&& indexes_have_tails(rev_reg_def.v1().value.max_cred_num, issued, revoked)
        &&& !issued.is_empty() || !revoked.is_empty() ==> cl::can_step(
            part,
            before.value(),
            private.value,
        )
    }
}

/// What moving indexes is tested by can be read: where there is a revocation part and any index
/// moves, the points and the number of the private key can be written.
pub open spec fn move_can_be_read(
    part: Option<cl::CredentialRevocationPublicKey>,
    private: RevocationRegistryDefinitionPrivate,
    before: RevocationRegistry,
    issued: Set<u32>,
    revoked: Set<u32>,
) -> bool {
    part is Some && (!issued.is_empty() || !revoked.is_empty()) ==> {
        &&& cl::part_fits(part->0)
        &&& before.fits()
        &&& numbers::fits(cl::registry_secret(private.value))
    }
}

/// A registry and a delta show the step from another state in which indexes are issued and
/// revoked. With a revocation part that was drawn, the opposite step leads back. Points that
/// are bounded stay so.
pub open spec fn steps_from(
    res: (RevocationRegistry, RevocationRegistryDelta),
    before: RevocationRegistry,
    max_cred_num: u32,
    issued: Set<u32>,
    revoked: Set<u32>,
    key: cl::CredentialPublicKey,
    private: RevocationRegistryDefinitionPrivate,
) -> bool {
    &&& res.0.accum() == cl::updated_accum(
        before.accum(),
        max_cred_num,
        issued,
        revoked,
        key,
        private.value,
    )
    &&& cl::delta_is(res.1.value(), Some(before.accum()), res.0.accum(), issued, revoked)
    &&& cl::part_is_drawn(cl::revocation_key(key)) ==> cl::updated_accum(
        res.0.accum(),
        max_cred_num,
        revoked,
        issued,
        key,
        private.value,
    ) == before.accum()
    &&& before.is_bounded() ==> res.0.is_bounded() && res.1.is_bounded()
}

/// What comes of an attempt to issue and revoke indexes with a public key: it fails exactly
/// where the key has no part for revocation, and with no index at all the accumulator stays.
pub open spec fn moves_with_key(
    res: Result<(RevocationRegistry, RevocationRegistryDelta), Error>,
    key: cl::CredentialPublicKey,
    rev_reg_def: RevocationRegistryDefinition,
    private: RevocationRegistryDefinitionPrivate,
    before: RevocationRegistry,
    issued: Set<u32>,
    revoked: Set<u32>,
) -> bool {
    match res {
        Ok(step) => {
            &&& cl::revocation_key(key) is Some
            &&& steps_from(
                step,
                before,
                rev_reg_def.v1().value.max_cred_num,
                issued,
                revoked,
                key,
                private,
            )
            &&& issued.is_empty() && revoked.is_empty() ==> step.0.accum() == before.accum()
        },
        Err(err) => cl::revocation_key(key) is None && err is Signature,
    }
}

/// What comes of an attempt to issue and revoke indexes for a credential definition: the public
/// key cannot be fetched, or the attempt is made with the key of the definition.
pub open spec fn moves(
    res: Result<(RevocationRegistry, RevocationRegistryDelta), Error>,
    cred_def: CredentialDefinition,
    rev_reg_def: RevocationRegistryDefinition,
    private: RevocationRegistryDefinitionPrivate,
    before: RevocationRegistry,
    issued: Set<u32>,
    revoked: Set<u32>,
) -> bool {
    let data = cred_def.v1().value;
    ||| res matches Err(err) && key_not_fetched(err, data)
    ||| moves_with_key(res, data.key(), rev_reg_def, private, before, issued, revoked)
        && data.key_has_parts()
}

/// The error of an update that the signature scheme refused, handed on.
pub open spec fn update_refused(
    err: Error,
    key: cl::CredentialPublicKey,
    max_cred_num: u32,
    private: cl::RevocationKeyPrivate,
    before: cl::ClRevocationRegistry,
    issued: BTreeSet<u32>,
    revoked: BTreeSet<u32>,
) -> bool {
    exists|
        registry: &mut cl::ClRevocationRegistry,
        outcome: Result<cl::ClRevocationRegistryDelta, cl::ClError>,
    |
        {
            &&& *registry == before
            &&& outcome matches Err(source) && err == Error::Signature(source)
            &&& #[trigger] call_ensures(
                cl::Issuer::update_revocation_registry,
                (registry, max_cred_num, issued, revoked, &key, &private),
                outcome,
            )
        }
}

/// The error of a revocation that the signature scheme refused, handed on.
pub open spec fn revocation_refused(
    err: Error,
    key: cl::CredentialPublicKey,
    max_cred_num: u32,
    private: cl::RevocationKeyPrivate,
    before: cl::ClRevocationRegistry,
    index: u32,
) -> bool {
    exists|
        registry: &mut cl::ClRevocationRegistry,
        outcome: Result<cl::ClRevocationRegistryDelta, cl::ClError>,
    |
        {
            &&& *registry == before
            &&& outcome matches Err(source) && err == Error::Signature(source)
            &&& #[trigger] call_ensures(
                cl::Issuer::revoke_credential,
                (registry, max_cred_num, index, &key, &private),
                outcome,
            )
        }
}

/// The error of an undoing of a revocation that the signature scheme refused, handed on.
pub open spec fn undoing_refused(
    err: Error,
    key: cl::CredentialPublicKey,
    max_cred_num: u32,
    private: cl::RevocationKeyPrivate,
    before: cl::ClRevocationRegistry,
    index: u32,
) -> bool {
    exists|
        registry: &mut cl::ClRevocationRegistry,
        outcome: Result<cl::ClRevocationRegistryDelta, cl::ClError>,
    |
        {
            &&& *registry == before
            &&& outcome matches Err(source) && err == Error::Signature(source)
            &&& #[trigger] call_ensures(
                cl::Issuer::unrevoke_credential,
                (registry, max_cred_num, index, &key, &private),
                outcome,
            )
        }
}

/// The library's form of a registry and a delta.
fn registry_and_delta(
    registry: cl::ClRevocationRegistry,
    delta: cl::ClRevocationRegistryDelta,
) -> (res: (RevocationRegistry, RevocationRegistryDelta))
    ensures
        res.0.value() == registry,
        res.1.value() == delta,
{
    (
        RevocationRegistry::RevocationRegistryV1(RevocationRegistryV1 { value: registry }),
        RevocationRegistryDelta::RevocationRegistryDeltaV1(
            RevocationRegistryDeltaV1 { value: delta },
        ),
    )
}

/// Whether indexes can be issued and revoked: each of them has a tail, and the points and the
/// private key allow it.
pub fn check_move(
    cred_def: &CredentialDefinition,
    rev_reg_def: &RevocationRegistryDefinition,
    rev_reg_priv: &RevocationRegistryDefinitionPrivate,
    rev_reg: &RevocationRegistry,
    issued: &BTreeSet<u32>,
    revoked: &BTreeSet<u32>,
) -> (res: bool)
    requires
        move_can_be_read(
            cred_def.v1().value.revocation,
            *rev_reg_priv,
            *rev_reg,
            issued@,
            revoked@,
        ),
    ensures
        res == can_move(
            cred_def.v1().value.revocation,
            *rev_reg_def,
            *rev_reg_priv,
            *rev_reg,
            issued@,
            revoked@,
        ),
{
    let CredentialDefinition::CredentialDefinitionV1(v1) = cred_def;
    let RevocationRegistryDefinition::RevocationRegistryDefinitionV1(def) = rev_reg_def;
    if v1.value.revocation.is_none() {
        return true;
    }
    if !have_tails(issued, def.value.max_cred_num) || !have_tails(revoked, def.value.max_cred_num) {
        return false;
    }
    (issued.is_empty() && revoked.is_empty()) || (cred_def.check_bounds() && rev_reg.check_bounds()
        && rev_reg_priv.check_number())
}

/// Whether each index of a set has a tail.
fn have_tails(indexes: &BTreeSet<u32>, max_cred_num: u32) -> (res: bool)
    ensures
        res == (forall|index: u32|
            indexes@.contains(index) ==> #[trigger] cl::has_tail(max_cred_num, index)),
{
    broadcast use vstd::std_specs::btree::group_btree_axioms;

    for index in iter: indexes.iter()
        invariant
            iter.seq().unref().to_set() == indexes@,
            forall|i: int|
                0 <= i < iter.index() ==> cl::has_tail(max_cred_num, *#[trigger] iter.seq()[i]),
    {
        if max_cred_num == u32::MAX || *index > max_cred_num + 1 {
            proof {
                assert(iter.seq().unref()[iter.index() as int] == *index);
                assert(iter.seq().unref().contains(*index));
                assert(indexes@.contains(*index));
                assert(!cl::has_tail(max_cred_num, *index));
            }
            return false;
        }
    }
    assert forall|index: u32| indexes@.contains(index) implies #[trigger] cl::has_tail(
        max_cred_num,
        index,
    ) by {
    }
    true
}

/// Issues and revokes indexes of a registry, with the public key that is given. It fails
/// exactly where the key has no part for revocation.
pub fn update_revocation_registry_with_key(
    public_key: &cl::CredentialPublicKey,
    rev_reg_def: &RevocationRegistryDefinition,
    rev_reg_priv: &RevocationRegistryDefinitionPrivate,
    rev_reg: &RevocationRegistry,
    issued: BTreeSet<u32>,
    revoked: BTreeSet<u32>,
) -> (res: Result<(RevocationRegistry, RevocationRegistryDelta), Error>)
    requires
        can_move(
            cl::revocation_key(*public_key),
            *rev_reg_def,
            *rev_reg_priv,
            *rev_reg,
            issued@,
            revoked@,
        ),
    ensures
        moves_with_key(
            res,
            *public_key,
            *rev_reg_def,
            *rev_reg_priv,
            *rev_reg,
            issued@,
            revoked@,
        ),
        res matches Err(err) ==> update_refused(
            err,
            *public_key,
            rev_reg_def.v1().value.max_cred_num,
            rev_reg_priv.value,
            rev_reg.value(),
            issued,
            revoked,
        ),
{
    let RevocationRegistryDefinition::RevocationRegistryDefinitionV1(rev_reg_def) = rev_reg_def;
    let RevocationRegistry::RevocationRegistryV1(v1) = rev_reg;
    let mut registry = v1.value.clone();
    let outcome = cl::Issuer::update_revocation_registry(
        &mut registry,
        rev_reg_def.value.max_cred_num,
        issued,
        revoked,
        public_key,
        &rev_reg_priv.value,
    );
    match outcome {
        Ok(delta) => Ok(registry_and_delta(registry, delta)),
        Err(err) => Err(Error::Signature(err)),
    }
}

/// Issues and revokes indexes of a registry. It fails where the credential definition does
/// not support revocation, and where its public key cannot be fetched, which rests on the
/// copying of numbers.
pub fn update_revocation_registry(
    cred_def: &CredentialDefinition,
    rev_reg_def: &RevocationRegistryDefinition,
    rev_reg_priv: &RevocationRegistryDefinitionPrivate,
    rev_reg: &RevocationRegistry,
    issued: BTreeSet<u32>,
    revoked: BTreeSet<u32>,
) -> (res: Result<(RevocationRegistry, RevocationRegistryDelta), Error>)
    requires
        can_move(
            cred_def.v1().value.revocation,
            *rev_reg_def,
            *rev_reg_priv,
            *rev_reg,
            issued@,
            revoked@,
        ),
    ensures
        moves(res, *cred_def, *rev_reg_def, *rev_reg_priv, *rev_reg, issued@, revoked@),
        res matches Err(err) ==> key_not_fetched(err, cred_def.v1().value) || update_refused(
            err,
            cred_def.v1().value.key(),
            rev_reg_def.v1().value.max_cred_num,
            rev_reg_priv.value,
            rev_reg.value(),
            issued,
            revoked,
        ),
{
    let public_key = fetch_public_key(cred_def)?;
    update_revocation_registry_with_key(
        &public_key,
        rev_reg_def,
        rev_reg_priv,
        rev_reg,
        issued,
        revoked,
    )
}

/// Issues and revokes indexes of a registry where that can be done; `None` where it cannot.
pub fn update_revocation_registry_checked(
    cred_def: &CredentialDefinition,
    rev_reg_def: &RevocationRegistryDefinition,
    rev_reg_priv: &RevocationRegistryDefinitionPrivate,
    rev_reg: &RevocationRegistry,
    issued: BTreeSet<u32>,
    revoked: BTreeSet<u32>,
) -> (res: Option<Result<(RevocationRegistry, RevocationRegistryDelta), Error>>)
    requires
        move_can_be_read(
            cred_def.v1().value.revocation,
            *rev_reg_priv,
            *rev_reg,
            issued@,
            revoked@,
        ),
    ensures
        res is Some <==> can_move(
            cred_def.v1().value.revocation,
            *rev_reg_def,
            *rev_reg_priv,
            *rev_reg,
            issued@,
            revoked@,
        ),
        res matches Some(outcome) ==> moves(
            outcome,
            *cred_def,
            *rev_reg_def,
            *rev_reg_priv,
            *rev_reg,
            issued@,
            revoked@,
        ),
{
    if check_move(cred_def, rev_reg_def, rev_reg_priv, rev_reg, &issued, &revoked) {
        Some(
            update_revocation_registry(
                cred_def,
                rev_reg_def,
                rev_reg_priv,
                rev_reg,
                issued,
                revoked,
            ),
        )
    } else {
        None
    }
}

/// Revokes one index of a registry, with the public key that is given. It fails exactly
/// where the key has no part for revocation.
pub fn revoke_credential_with_key(
    public_key: &cl::CredentialPublicKey,
    rev_reg_def: &RevocationRegistryDefinition,
    rev_reg_def_private: &RevocationRegistryDefinitionPrivate,
    rev_reg: &RevocationRegistry,
    cred_rev_idx: u32,
) -> (res: Result<(RevocationRegistry, RevocationRegistryDelta), Error>)
    requires
        can_move(
            cl::revocation_key(*public_key),
            *rev_reg_def,
            *rev_reg_def_private,
            *rev_reg,
            set![],
            set![cred_rev_idx],
        ),
    ensures
        moves_with_key(
            res,
            *public_key,
            *rev_reg_def,
            *rev_reg_def_private,
            *rev_reg,
            set![],
            set![cred_rev_idx],
        ),
        res matches Err(err) ==> revocation_refused(
            err,
            *public_key,
            rev_reg_def.v1().value.max_cred_num,
            rev_reg_def_private.value,
            rev_reg.value(),
            cred_rev_idx,
        ),
{
    proof {
        assert(set![cred_rev_idx].contains(cred_rev_idx));
    }
    let RevocationRegistryDefinition::RevocationRegistryDefinitionV1(rev_reg_def) = rev_reg_def;
    let RevocationRegistry::RevocationRegistryV1(v1) = rev_reg;
    let mut registry = v1.value.clone();
    let outcome = cl::Issuer::revoke_credential(
        &mut registry,
        rev_reg_def.value.max_cred_num,
        cred_rev_idx,
        public_key,
        &rev_reg_def_private.value,
    );
    match outcome {
        Ok(delta) => Ok(registry_and_delta(registry, delta)),
        Err(err) => Err(Error::Signature(err)),
    }
}

/// Revokes one index of a registry. It fails where the credential definition does not
/// support revocation, and where its public key cannot be fetched, which rests on the
/// copying of numbers.
pub fn revoke_credential(
    cred_def: &CredentialDefinition,
    rev_reg_def: &RevocationRegistryDefinition,
    rev_reg_def_private: &RevocationRegistryDefinitionPrivate,
    rev_reg: &RevocationRegistry,
    cred_rev_idx: u32,
) -> (res: Result<(RevocationRegistry, RevocationRegistryDelta), Error>)
    requires
        can_move(
            cred_def.v1().value.revocation,
            *rev_reg_def,
            *rev_reg_def_private,
            *rev_reg,
            set![],
            set![cred_rev_idx],
        ),
    ensures
        moves(
            res,
            *cred_def,
            *rev_reg_def,
            *rev_reg_def_private,
            *rev_reg,
            set![],
            set![cred_rev_idx],
        ),
        res matches Err(err) ==> key_not_fetched(err, cred_def.v1().value) || revocation_refused(
            err,
            cred_def.v1().value.key(),
            rev_reg_def.v1().value.max_cred_num,
            rev_reg_def_private.value,
            rev_reg.value(),
            cred_rev_idx,
        ),
{
    let public_key = fetch_public_key(cred_def)?;
    revoke_credential_with_key(&public_key, rev_reg_def, rev_reg_def_private, rev_reg, cred_rev_idx)
}

/// Revokes one index of a registry where that can be done; `None` where it cannot.
pub fn revoke_credential_checked(
    cred_def: &CredentialDefinition,
    rev_reg_def: &RevocationRegistryDefinition,
    rev_reg_def_private: &RevocationRegistryDefinitionPrivate,
    rev_reg: &RevocationRegistry,
    cred_rev_idx: u32,
) -> (res: Option<Result<(RevocationRegistry, RevocationRegistryDelta), Error>>)
    requires
        move_can_be_read(
            cred_def.v1().value.revocation,
            *rev_reg_def_private,
            *rev_reg,
            set![],
            set![cred_rev_idx],
        ),
    ensures
        res is Some <==> can_move(
            cred_def.v1().value.revocation,
            *rev_reg_def,
            *rev_reg_def_private,
            *rev_reg,
            set![],
            set![cred_rev_idx],
        ),
        res matches Some(outcome) ==> moves(
            outcome,
            *cred_def,
            *rev_reg_def,
            *rev_reg_def_private,
            *rev_reg,
            set![],
            set![cred_rev_idx],
        ),
{
    broadcast use vstd::std_specs::btree::group_btree_axioms;

    let mut index: BTreeSet<u32> = BTreeSet::new();
    index.insert(cred_rev_idx);
    let none: BTreeSet<u32> = BTreeSet::new();
    proof {
        assert(index@ =~= set![cred_rev_idx]);
        assert(none@ =~= set![]);
    }
    if check_move(cred_def, rev_reg_def, rev_reg_def_private, rev_reg, &none, &index) {
        Some(revoke_credential(cred_def, rev_reg_def, rev_reg_def_private, rev_reg, cred_rev_idx))
    } else {
        None
    }
}

/// Issues again one index of a registry, with the public key that is given. It fails exactly
/// where the key has no part for revocation.
pub fn unrevoke_credential_with_key(
    public_key: &cl::CredentialPublicKey,
    rev_reg_def: &RevocationRegistryDefinition,
    rev_reg_priv: &RevocationRegistryDefinitionPrivate,
    rev_reg: &RevocationRegistry,
    cred_rev_idx: u32,
) -> (res: Result<(RevocationRegistry, RevocationRegistryDelta), Error>)
    requires
        can_move(
            cl::revocation_key(*public_key),
            *rev_reg_def,
            *rev_reg_priv,
            *rev_reg,
            set![cred_rev_idx],
            set![],
        ),
    ensures
        moves_with_key(
            res,
            *public_key,
            *rev_reg_def,
            *rev_reg_priv,
            *rev_reg,
            set![cred_rev_idx],
            set![],
        ),
        res matches Err(err) ==> undoing_refused(
            err,
            *public_key,
            rev_reg_def.v1().value.max_cred_num,
            rev_reg_priv.value,
            rev_reg.value(),
            cred_rev_idx,
        ),
{
    proof {
        assert(set![cred_rev_idx].contains(cred_rev_idx));
    }
    let RevocationRegistryDefinition::RevocationRegistryDefinitionV1(rev_reg_def) = rev_reg_def;
    let RevocationRegistry::RevocationRegistryV1(v1) = rev_reg;
    let mut registry = v1.value.clone();
    let outcome = cl::Issuer::unrevoke_credential(
        &mut registry,
        rev_reg_def.value.max_cred_num,
        cred_rev_idx,
        public_key,
        &rev_reg_priv.value,
    );
    match outcome {
        Ok(delta) => Ok(registry_and_delta(registry, delta)),
        Err(err) => Err(Error::Signature(err)),
    }
}

/// Issues again one index of a registry. It fails where the credential definition does not
/// support revocation, and where its public key cannot be fetched, which rests on the
/// copying of numbers.
pub fn unrevoke_credential(
    cred_def: &CredentialDefinition,
    rev_reg_def: &RevocationRegistryDefinition,
    rev_reg_priv: &RevocationRegistryDefinitionPrivate,
    rev_reg: &RevocationRegistry,
    cred_rev_idx: u32,
) -> (res: Result<(RevocationRegistry, RevocationRegistryDelta), Error>)
    requires
        can_move(
            cred_def.v1().value.revocation,
            *rev_reg_def,
            *rev_reg_priv,
            *rev_reg,
            set![cred_rev_idx],
            set![],
        ),
    ensures
        moves(
            res,
            *cred_def,
            *rev_reg_def,
            *rev_reg_priv,
            *rev_reg,
            set![cred_rev_idx],
            set![],
        ),
        res matches Err(err) ==> key_not_fetched(err, cred_def.v1().value) || undoing_refused(
            err,
            cred_def.v1().value.key(),
            rev_reg_def.v1().value.max_cred_num,
            rev_reg_priv.value,
            rev_reg.value(),
            cred_rev_idx,
        ),
{
    let public_key = fetch_public_key(cred_def)?;
    unrevoke_credential_with_key(&public_key, rev_reg_def, rev_reg_priv, rev_reg, cred_rev_idx)
}

/// Issues again one index of a registry where that can be done; `None` where it cannot.
pub fn unrevoke_credential_checked(
    cred_def: &CredentialDefinition,
    rev_reg_def: &RevocationRegistryDefinition,
    rev_reg_priv: &RevocationRegistryDefinitionPrivate,
    rev_reg: &RevocationRegistry,
    cred_rev_idx: u32,
) -> (res: Option<Result<(RevocationRegistry, RevocationRegistryDelta), Error>>)
    requires
        move_can_be_read(
            cred_def.v1().value.revocation,
            *rev_reg_priv,
            *rev_reg,
            set![cred_rev_idx],
            set![],
        ),
    ensures
        res is Some <==> can_move(
            cred_def.v1().value.revocation,
            *rev_reg_def,
            *rev_reg_priv,
            *rev_reg,
            set![cred_rev_idx],
            set![],
        ),
        res matches Some(outcome) ==> moves(
            outcome,
            *cred_def,
            *rev_reg_def,
            *rev_reg_priv,
            *rev_reg,
            set![cred_rev_idx],
            set![],
        ),
{
    broadcast use vstd::std_specs::btree::group_btree_axioms;

    let mut index: BTreeSet<u32> = BTreeSet::new();
    index.insert(cred_rev_idx);
    let none: BTreeSet<u32> = BTreeSet::new();
    proof {
        assert(index@ =~= set![cred_rev_idx]);
        assert(none@ =~= set![]);
    }
    if check_move(cred_def, rev_reg_def, rev_reg_priv, rev_reg, &index, &none) {
        Some(unrevoke_credential(cred_def, rev_reg_def, rev_reg_priv, rev_reg, cred_rev_idx))
    } else {
        None
    }
}

/// The second delta starts from an accumulator that equals the one that the first leads to.
pub open spec fn joins(first: RevocationRegistryDelta, second: RevocationRegistryDelta) -> bool {
    cl::delta_prev_accum(second.value()) matches Some(prev) && cl::accums_equal(
        cl::delta_accum(first.value()),
        prev,
    )
}

/// The second delta starts from the very state that the first leads to.
pub open spec fn follows(first: RevocationRegistryDelta, second: RevocationRegistryDelta) -> bool {
    cl::delta_prev_accum(second.value()) == Some(cl::delta_accum(first.value()))
}

/// A delta covers the steps of two others, one after the other.
pub open spec fn spans(
    merged: RevocationRegistryDelta,
    first: RevocationRegistryDelta,
    second: RevocationRegistryDelta,
) -> bool {
    cl::delta_is(
        merged.value(),
        cl::delta_prev_accum(first.value()),
        cl::delta_accum(second.value()),
        cl::merged_issued(first.value(), second.value()),
        cl::merged_revoked(first.value(), second.value()),
    )
}

/// Deltas can be merged: where there are accumulators to compare, their points are bounded.
pub open spec fn can_merge(
    first: RevocationRegistryDelta,
    second: RevocationRegistryDelta,
) -> bool {
    cl::delta_prev_point(second.value()) matches Some(prev) ==> points::is_bounded(prev)
        && points::is_bounded(cl::delta_point(first.value()))
}

/// What comes of an attempt to merge two deltas: it succeeds exactly where they join, and so
/// where the second follows the first. Points that are bounded stay so.
pub open spec fn merges(
    res: Result<RevocationRegistryDelta, Error>,
    first: RevocationRegistryDelta,
    second: RevocationRegistryDelta,
) -> bool {
    &&& res is Ok <==> joins(first, second)
    &&& follows(first, second) ==> res is Ok
    &&& res matches Err(err) ==> err is Signature
    &&& res matches Ok(merged) ==> {
        &&& spans(merged, first, second)
        &&& first.is_bounded() && second.is_bounded() ==> merged.is_bounded()
    }
}

/// The error of a merging that the signature scheme refused, handed on.
pub open spec fn merging_refused(
    err: Error,
    first: cl::ClRevocationRegistryDelta,
    second: cl::ClRevocationRegistryDelta,
) -> bool {
    exists|delta: &mut cl::ClRevocationRegistryDelta, outcome: Result<(), cl::ClError>|
        {
            &&& *delta == first
            &&& outcome matches Err(source) && err == Error::Signature(source)
            &&& #[trigger] call_ensures(
                cl::ClRevocationRegistryDelta::merge,
                (delta, &second),
                outcome,
            )
        }
}

/// Merges two deltas into the one that covers both steps. It fails exactly where the other
/// delta does not start from an accumulator that equals the one that the first leads to.
pub fn merge_revocation_registry_deltas(
    rev_reg_delta: &RevocationRegistryDelta,
    other_delta: &RevocationRegistryDelta,
) -> (res: Result<RevocationRegistryDelta, Error>)
    requires
        can_merge(*rev_reg_delta, *other_delta),
    ensures
        merges(res, *rev_reg_delta, *other_delta),
        res matches Err(err) ==> merging_refused(err, rev_reg_delta.value(), other_delta.value()),
{
    let RevocationRegistryDelta::RevocationRegistryDeltaV1(v1) = rev_reg_delta;
    let RevocationRegistryDelta::RevocationRegistryDeltaV1(other) = other_delta;
    let mut merged = v1.value.clone();
    let outcome = merged.merge(&other.value);
    match outcome {
        Ok(()) => Ok(
            RevocationRegistryDelta::RevocationRegistryDeltaV1(
                RevocationRegistryDeltaV1 { value: merged },
            ),
        ),
        Err(err) => Err(Error::Signature(err)),
    }
}

/// Merges two deltas where that can be done; `None` where it cannot.
pub fn merge_revocation_registry_deltas_checked(
    rev_reg_delta: &RevocationRegistryDelta,
    other_delta: &RevocationRegistryDelta,
) -> (res: Option<Result<RevocationRegistryDelta, Error>>)
    requires
        rev_reg_delta.fits(),
        other_delta.fits(),
    ensures
        res is Some <==> can_merge(*rev_reg_delta, *other_delta),
        res matches Some(outcome) ==> merges(outcome, *rev_reg_delta, *other_delta),
{
    let RevocationRegistryDelta::RevocationRegistryDeltaV1(v1) = rev_reg_delta;
    let RevocationRegistryDelta::RevocationRegistryDeltaV1(other) = other_delta;
    let can = match (cl::delta_texts(&v1.value), cl::delta_texts(&other.value)) {
        (Some((_, text)), Some((Some(prev), _))) => points::text_is_bounded(text.as_str())
            && points::text_is_bounded(prev.as_str()),
        (_, other_texts) => other_texts.is_some(),
    };
    if can {
        Some(merge_revocation_registry_deltas(rev_reg_delta, other_delta))
    } else {
        None
    }
}

// ---- offers ----

/// An offer with the correctness proof and the nonce that are given.
pub fn credential_offer_from_parts(
    schema_id: &SchemaId,
    cred_def: &CredentialDefinition,
    key_correctness_proof: cl::ClKeyCorrectnessProof,
    nonce: cl::Nonce,
) -> (res: CredentialOffer)
    ensures
        offers(res, *schema_id, *cred_def, key_correctness_proof),
        res.nonce == nonce,
{
    let CredentialDefinition::CredentialDefinitionV1(cred_def) = cred_def;
    CredentialOffer {
        schema_id: schema_id.clone(),
        cred_def_id: cred_def.id.clone(),
        key_correctness_proof,
        nonce,
        method_name: None,
    }
}

/// The error of a nonce that could not be drawn.
pub open spec fn nonce_not_drawn(err: Error) -> bool {
    &&& err.reports(ErrorKind::Unexpected, "Error creating nonce"@)
    &&& err matches Error::Failure { cause: Some(Cause::Conversion(source)), .. } && call_ensures(
        cl::Nonce::new,
        (),
        Err(source),
    )
}

/// The error of a correctness proof that could not be copied; the failure to do so lies behind
/// it.
pub open spec fn proof_not_copied(err: Error, key_proof: cl::ClKeyCorrectnessProof) -> bool {
    err matches Error::Failure {
        kind: ErrorKind::Unexpected,
        message: None,
        cause: Some(Cause::Signature(source)),
    } && call_ensures(cl::ClKeyCorrectnessProof::try_clone, (&key_proof,), Err(source))
}

/// The offer is of a credential of the given schema and definition.
pub open spec fn offers(
    offer: CredentialOffer,
    schema_id: SchemaId,
    cred_def: CredentialDefinition,
    correctness_proof: cl::ClKeyCorrectnessProof,
) -> bool {
    &&& offer.schema_id == schema_id
    &&& offer.cred_def_id == cred_def.v1().id
    &&& offer.key_correctness_proof == correctness_proof
    &&& offer.method_name is None
}

/// Offers a credential, with a fresh nonce. It fails only where no nonce can be drawn or a
/// number of the proof cannot be copied.
pub fn create_credential_offer(
    schema_id: &SchemaId,
    cred_def: &CredentialDefinition,
    correctness_proof: &CredentialKeyCorrectnessProof,
) -> (res: Result<CredentialOffer, Error>)
    ensures
        res matches Err(err) ==> nonce_not_drawn(err) || proof_not_copied(
            err,
            correctness_proof.value,
        ),
        res matches Ok(offer) ==> {
            &&& offers(offer, *schema_id, *cred_def, correctness_proof.value)
            &&& cl::nonce_is_drawn(offer.nonce)
            &&& call_ensures(cl::Nonce::new, (), Ok(offer.nonce))
        },
{
    let nonce = match cl::Nonce::new() {
        Ok(nonce) => nonce,
        Err(err) => return Err(
            Error::caused(
                ErrorKind::Unexpected,
                "Error creating nonce",
                Cause::Conversion(err),
            ),
        ),
    };
    match correctness_proof.value.try_clone() {
        Ok(copy) => Ok(credential_offer_from_parts(schema_id, cred_def, copy, nonce)),
        Err(err) => Err(
            Error::Failure {
                kind: ErrorKind::Unexpected,
                message: None,
                cause: Some(Cause::Signature(err)),
            },
        ),
    }
}

// ---- credentials ----

/// Signing does not run into what the signature scheme cannot take: an encoded value with
/// a NUL character; and, where the values are numbers, a request whose proof does not
/// answer for its secrets, or an index that cannot be signed for.
pub open spec fn can_be_signed(
    data: CredentialDefinitionData,
    private: CredentialDefinitionPrivate,
    request: CredentialRequest,
    values: CredentialValues,
    revocation: Option<CredentialRevocationConfig>,
) -> bool {
    &&& helpers::entries_lack_nul(values@)
    &&& helpers::entries_are_numbers(values@) ==> {
        &&& cl::proof_answers(
            request.blinded_ms,
            request.blinded_ms_correctness_proof,
            data.primary,
        )
        &&& revocation matches Some(config) ==> index_can_be_signed(data, private, request, config)
    }
}

/// The index of a registry can be signed for: where signing comes that far, the points are
/// bounded, the keys are sound, and the place of the index among the tails can be computed.
pub open spec fn index_can_be_signed(
    data: CredentialDefinitionData,
    private: CredentialDefinitionPrivate,
    request: CredentialRequest,
    config: CredentialRevocationConfig,
) -> bool {
    cl::can_sign_index(
        request.blinded_ms,
        data.revocation,
        private.value,
        config.reg_def.v1().value.max_cred_num,
        config.registry_idx,
        config.registry.value(),
        config.reg_def_private.value,
    )
}

/// What a credential tells besides its signature: what was offered, with the values that
/// are given.
pub open spec fn fulfils(
    credential: Credential,
    offer: CredentialOffer,
    values: CredentialValues,
) -> bool {
    &&& credential.schema_id == offer.schema_id
    &&& credential.cred_def_id == offer.cred_def_id
    &&& credential.values == values
}

/// The identifier by which a credential names its registry: without methods where the offer
/// names a method, and otherwise as it is.
pub open spec fn registry_named(offer: CredentialOffer, id: RevocationRegistryId) -> Seq<char> {
    if offer.method_name is Some {
        identifiers::rev_reg_id_unqualified(id@)
    } else {
        id@
    }
}

/// The credential, the registry and the delta that come of issuing with no registry.
pub open spec fn issued_plainly(
    res: (Credential, Option<RevocationRegistry>, Option<RevocationRegistryDelta>),
) -> bool {
    &&& res.0.rev_reg_id is None
    &&& res.0.rev_reg is None
    &&& res.0.witness is None
    &&& cl::signature_index(res.0.signature) is None
    &&& res.1 is None
    &&& res.2 is None
}

/// The credential, the registry and the delta that come of issuing an index of a registry.
/// Where indexes count as issued from the start, the registry stays as it is and there is no
/// delta.
pub open spec fn issued_for_index(
    res: (Credential, Option<RevocationRegistry>, Option<RevocationRegistryDelta>),
    offer: CredentialOffer,
    config: CredentialRevocationConfig,
    key: cl::CredentialPublicKey,
) -> bool {
    let def = config.reg_def.v1();
    let by_default = def.value.issuance_type.by_default();
    &&& 1 <= config.registry_idx <= def.value.max_cred_num
    &&& cl::signature_index(res.0.signature) == Some(config.registry_idx)
    &&& res.0.rev_reg_id matches Some(id) && id@ == registry_named(offer, def.id)
    &&& res.0.witness == Some(
        cl::issued_witness(
            config.registry.value(),
            config.registry_idx,
            def.value.max_cred_num,
            by_default,
            key,
            config.reg_def_private.value,
        ),
    )
    &&& res.1 matches Some(registry) && res.0.rev_reg == Some(registry.value()) && {
        &&& by_default ==> registry.value() == config.registry.value() && res.2 is None
        &&& !by_default ==> (res.2 matches Some(delta) && steps_from(
            (registry, delta),
            *config.registry,
            def.value.max_cred_num,
            set![config.registry_idx],
            set![],
            key,
            *config.reg_def_private,
        ))
    }
}

/// What comes of a signature that is for no registry, or of the failure to make it.
pub open spec fn hands_out(
    res: Result<(Credential, Option<RevocationRegistry>, Option<RevocationRegistryDelta>), Error>,
    offer: CredentialOffer,
    values: CredentialValues,
    signed: Result<(cl::CredentialSignature, cl::SignatureCorrectnessProof), cl::ClError>,
) -> bool {
    match signed {
        Err(source) => res matches Err(err) && err == Error::Signature(source),
        Ok((signature, signature_proof)) => res matches Ok(issued) && {
            &&& fulfils(issued.0, offer, values)
            &&& issued.0.signature == signature
            &&& issued.0.signature_correctness_proof == signature_proof
            &&& issued.0.rev_reg_id is None
            &&& issued.0.rev_reg is None
            &&& issued.0.witness is None
            &&& issued.1 is None
            &&& issued.2 is None
        },
    }
}

/// What comes of a signature that is for an index of a registry, or of the failure to make it,
/// with the state of the registry after that.
pub open spec fn hands_out_for_index(
    res: Result<(Credential, Option<RevocationRegistry>, Option<RevocationRegistryDelta>), Error>,
    offer: CredentialOffer,
    values: CredentialValues,
    reg_def: RevocationRegistryDefinition,
    registry: cl::ClRevocationRegistry,
    signed: Result<
        (
            cl::CredentialSignature,
            cl::SignatureCorrectnessProof,
            cl::Witness,
            Option<cl::ClRevocationRegistryDelta>,
        ),
        cl::ClError,
    >,
) -> bool {
    match signed {
        Err(source) => res matches Err(err) && err == Error::Signature(source),
        Ok((signature, signature_proof, witness, delta)) => res matches Ok(issued) && {
            &&& fulfils(issued.0, offer, values)
            &&& issued.0.signature == signature
            &&& issued.0.signature_correctness_proof == signature_proof
            &&& issued.0.rev_reg_id matches Some(id) && id@ == registry_named(
                offer,
                reg_def.v1().id,
            )
            &&& issued.0.rev_reg == Some(registry)
            &&& issued.0.witness == Some(witness)
            &&& issued.1 matches Some(after) && after.value() == registry
            &&& issued.2 is Some <==> delta is Some
            &&& issued.2 matches Some(step) ==> delta == Some(step.value())
        },
    }
}

/// A credential, or an error, that comes of one attempt to sign, with a definition's keys, the
/// values that are given and the secrets of the request, under the nonces of the offer and of
/// the request.
pub open spec fn comes_of_signing(
    res: Result<(Credential, Option<RevocationRegistry>, Option<RevocationRegistryDelta>), Error>,
    key: cl::CredentialPublicKey,
    private: CredentialDefinitionPrivate,
    offer: CredentialOffer,
    request: CredentialRequest,
    values: CredentialValues,
    built: cl::ClCredentialValues,
    signed: Result<(cl::CredentialSignature, cl::SignatureCorrectnessProof), cl::ClError>,
) -> bool {
    &&& cl::value_entries(built) == helpers::encoded_entries(values@)
    &&& cl::signed(
        request.prover_did@,
        request.blinded_ms,
        request.blinded_ms_correctness_proof,
        cl::nonce_number(offer.nonce),
        cl::nonce_number(request.nonce),
        built,
        key,
        private.value,
        signed,
    )
    &&& hands_out(res, offer, values, signed)
}

/// A credential, or an error, that comes of one attempt to sign as before, and for an index of
/// a registry, which leaves the registry in the state that is given.
pub open spec fn comes_of_signing_for_index(
    res: Result<(Credential, Option<RevocationRegistry>, Option<RevocationRegistryDelta>), Error>,
    key: cl::CredentialPublicKey,
    private: CredentialDefinitionPrivate,
    offer: CredentialOffer,
    request: CredentialRequest,
    values: CredentialValues,
    config: CredentialRevocationConfig,
    built: cl::ClCredentialValues,
    after: cl::ClRevocationRegistry,
    signed: Result<
        (
            cl::CredentialSignature,
            cl::SignatureCorrectnessProof,
            cl::Witness,
            Option<cl::ClRevocationRegistryDelta>,
        ),
        cl::ClError,
    >,
) -> bool {
    let value = config.reg_def.v1().value;
    &&& cl::value_entries(built) == helpers::encoded_entries(values@)
    &&& cl::signed_with_index(
        request.prover_did@,
        request.blinded_ms,
        request.blinded_ms_correctness_proof,
        cl::nonce_number(offer.nonce),
        cl::nonce_number(request.nonce),
        built,
        key,
        private.value,
        config.registry_idx,
        value.max_cred_num,
        value.issuance_type.by_default(),
        config.registry.value(),
        config.reg_def_private.value,
        after,
        signed,
    )
    &&& hands_out_for_index(res, offer, values, *config.reg_def, after, signed)
}

/// The credential of a signature that is for no registry, or the error of the failure to make
/// it.
pub fn credential_from_signing(
    cred_offer: &CredentialOffer,
    cred_values: CredentialValues,
    signed: Result<(cl::CredentialSignature, cl::SignatureCorrectnessProof), cl::ClError>,
) -> (res: Result<(Credential, Option<RevocationRegistry>, Option<RevocationRegistryDelta>), Error>)
    ensures
        hands_out(res, *cred_offer, cred_values, signed),
{
    match signed {
        Ok((signature, signature_correctness_proof)) => {
            let credential = Credential {
                schema_id: cred_offer.schema_id.clone(),
                cred_def_id: cred_offer.cred_def_id.clone(),
                rev_reg_id: None,
                values: cred_values,
                signature,
                signature_correctness_proof,
                rev_reg: None,
                witness: None,
            };
            Ok((credential, None, None))
        },
        Err(err) => Err(Error::Signature(err)),
    }
}

/// The credential of a signature that is for an index of a registry, with the state of the
/// registry after that, and the delta that leads there; or the error of the failure to make it.
pub fn revocable_credential_from_signing(
    cred_offer: &CredentialOffer,
    cred_values: CredentialValues,
    reg_def: &RevocationRegistryDefinition,
    registry: cl::ClRevocationRegistry,
    signed: Result<
        (
            cl::CredentialSignature,
            cl::SignatureCorrectnessProof,
            cl::Witness,
            Option<cl::ClRevocationRegistryDelta>,
        ),
        cl::ClError,
    >,
) -> (res: Result<(Credential, Option<RevocationRegistry>, Option<RevocationRegistryDelta>), Error>)
    ensures
        hands_out_for_index(res, *cred_offer, cred_values, *reg_def, registry, signed),
{
    let (signature, signature_correctness_proof, witness, delta) = match signed {
        Ok(parts) => parts,
        Err(err) => return Err(Error::Signature(err)),
    };
    let RevocationRegistryDefinition::RevocationRegistryDefinitionV1(v1) = reg_def;
    let rev_reg_id = match &cred_offer.method_name {
        Some(_) => v1.id.to_unqualified(),
        None => v1.id.clone(),
    };
    let credential = Credential {
        schema_id: cred_offer.schema_id.clone(),
        cred_def_id: cred_offer.cred_def_id.clone(),
        rev_reg_id: Some(rev_reg_id),
        values: cred_values,
        signature,
        signature_correctness_proof,
        rev_reg: Some(registry.clone()),
        witness: Some(witness),
    };
    let after = RevocationRegistry::RevocationRegistryV1(RevocationRegistryV1 { value: registry });
    let step = match delta {
        Some(delta) => Some(
            RevocationRegistryDelta::RevocationRegistryDeltaV1(
                RevocationRegistryDeltaV1 { value: delta },
            ),
        ),
        None => None,
    };
    Ok((credential, Some(after), step))
}

/// What comes of an attempt to issue a credential with a public key. Values that are not
/// numbers are refused; otherwise it is what comes of an attempt to sign. Where it succeeds, the
/// attributes of the values agree with the key.
pub open spec fn issues(
    res: Result<(Credential, Option<RevocationRegistry>, Option<RevocationRegistryDelta>), Error>,
    key: cl::CredentialPublicKey,
    private: CredentialDefinitionPrivate,
    offer: CredentialOffer,
    request: CredentialRequest,
    values: CredentialValues,
    revocation: Option<CredentialRevocationConfig>,
) -> bool {
    &&& res matches Err(err) ==> err is Signature
    &&& if !helpers::entries_are_numbers(values@) {
        res matches Err(err) && helpers::value_not_read(err, values@)
    } else {
        match revocation {
            None => exists|
                built: cl::ClCredentialValues,
                signed: Result<
                    (cl::CredentialSignature, cl::SignatureCorrectnessProof),
                    cl::ClError,
                >,
            | #[trigger]
                comes_of_signing(res, key, private, offer, request, values, built, signed),
            Some(config) => exists|
                built: cl::ClCredentialValues,
                after: cl::ClRevocationRegistry,
                signed: Result<
                    (
                        cl::CredentialSignature,
                        cl::SignatureCorrectnessProof,
                        cl::Witness,
                        Option<cl::ClRevocationRegistryDelta>,
                    ),
                    cl::ClError,
                >,
            | #[trigger]
                comes_of_signing_for_index(
                    res,
                    key,
                    private,
                    offer,
                    request,
                    values,
                    config,
                    built,
                    after,
                    signed,
                ),
        }
    }
    &&& res matches Ok(issued) ==> {
        &&& cl::attributes_agree(
            request.blinded_ms,
            helpers::encoded_entries(values@),
            cl::primary_key(key),
        )
        &&& fulfils(issued.0, offer, values)
        &&& match revocation {
            None => issued_plainly(issued),
            Some(config) => cl::revocation_key(key) is Some && issued_for_index(
                issued,
                offer,
                config,
                key,
            ),
        }
    }
}

/// Issues a credential with the public key that is given.
pub fn create_credential_with_key(
    public_key: &cl::CredentialPublicKey,
    cred_def_private: &CredentialDefinitionPrivate,
    cred_offer: &CredentialOffer,
    cred_request: &CredentialRequest,
    cred_values: CredentialValues,
    revocation_config: Option<CredentialRevocationConfig>,
) -> (res: Result<(Credential, Option<RevocationRegistry>, Option<RevocationRegistryDelta>), Error>)
    requires
        can_be_signed(
            CredentialDefinitionData {
                primary: cl::primary_key(*public_key),
                revocation: cl::revocation_key(*public_key),
            },
            *cred_def_private,
            *cred_request,
            cred_values,
            revocation_config,
        ),
    ensures
        issues(
            res,
            *public_key,
            *cred_def_private,
            *cred_offer,
            *cred_request,
            cred_values,
            revocation_config,
        ),
{
    let built = helpers::build_credential_values(&cred_values)?;
    assert(cred_request.prover_did@ == cred_request.prover_did.0@);
    match revocation_config {
        Some(config) => {
            let RevocationRegistryDefinition::RevocationRegistryDefinitionV1(def) = config.reg_def;
            let RevocationRegistry::RevocationRegistryV1(v1) = config.registry;
            let mut registry = v1.value.clone();
            let signed = cl::Issuer::sign_credential_with_revoc(
                cred_request.prover_did.0.as_str(),
                &cred_request.blinded_ms,
                &cred_request.blinded_ms_correctness_proof,
                cred_offer.nonce.as_native(),
                cred_request.nonce.as_native(),
                &built,
                public_key,
                &cred_def_private.value,
                config.registry_idx,
                def.value.max_cred_num,
                def.value.issuance_type.to_bool(),
                &mut registry,
                &config.reg_def_private.value,
            );
            let res = revocable_credential_from_signing(
                cred_offer,
                cred_values,
                config.reg_def,
                registry,
                signed,
            );
            assert(comes_of_signing_for_index(
                res,
                *public_key,
                *cred_def_private,
                *cred_offer,
                *cred_request,
                cred_values,
                config,
                built,
                registry,
                signed,
            ));
            res
        },
        None => {
            let signed = cl::Issuer::sign_credential(
                cred_request.prover_did.0.as_str(),
                &cred_request.blinded_ms,
                &cred_request.blinded_ms_correctness_proof,
                cred_offer.nonce.as_native(),
                cred_request.nonce.as_native(),
                &built,
                public_key,
                &cred_def_private.value,
            );
            let res = credential_from_signing(cred_offer, cred_values, signed);
            assert(comes_of_signing(
                res,
                *public_key,
                *cred_def_private,
                *cred_offer,
                *cred_request,
                cred_values,
                built,
                signed,
            ));
            res
        },
    }
}

/// The error of a public key that could not be fetched for a credential.
pub open spec fn key_not_supported(err: Error) -> bool {
    err.reports_signature(ErrorKind::Input, "Credential definition does not support revocation"@)
}

/// The error of a public key that could not be put together, for a credential, from the parts of
/// its definition; the failure to do so lies behind it.
pub open spec fn key_not_supported_for(err: Error, data: CredentialDefinitionData) -> bool {
    &&& key_not_supported(err)
    &&& err matches Error::Failure { cause: Some(Cause::Signature(source)), .. }
        && data.key_came_of_parts(Err(source))
}

/// Issues a credential with the public key that was fetched. Where it could not be fetched, the
/// input is reported, whatever else there is.
pub fn create_credential_with_fetched_key(
    fetched: Result<cl::CredentialPublicKey, cl::ClError>,
    cred_def_private: &CredentialDefinitionPrivate,
    cred_offer: &CredentialOffer,
    cred_request: &CredentialRequest,
    cred_values: CredentialValues,
    revocation_config: Option<CredentialRevocationConfig>,
) -> (res: Result<(Credential, Option<RevocationRegistry>, Option<RevocationRegistryDelta>), Error>)
    requires
        fetched matches Ok(key) ==> can_be_signed(
            CredentialDefinitionData {
                primary: cl::primary_key(key),
                revocation: cl::revocation_key(key),
            },
            *cred_def_private,
            *cred_request,
            cred_values,
            revocation_config,
        ),
    ensures
        fetched matches Err(source) ==> (res matches Err(err) && key_not_supported(err) && err
            == (Error::Failure {
            kind: ErrorKind::Input,
            message: Some("Credential definition does not support revocation"),
            cause: Some(Cause::Signature(source)),
        })),
        fetched matches Ok(key) ==> issues(
            res,
            key,
            *cred_def_private,
            *cred_offer,
            *cred_request,
            cred_values,
            revocation_config,
        ),
{
    match fetched {
        Ok(public_key) => create_credential_with_key(
            &public_key,
            cred_def_private,
            cred_offer,
            cred_request,
            cred_values,
            revocation_config,
        ),
        Err(err) => Err(
            Error::caused(
                ErrorKind::Input,
                "Credential definition does not support revocation",
                Cause::Signature(err),
            ),
        ),
    }
}

/// Issues a credential, for an index of a registry where there is one. It fails where an
/// encoded value is not a number, where the attributes of the values and of the request do
/// not agree with the credential definition, where the index is not one of the registry,
/// where the definition does not support the revocation that is asked for, and where the
/// signature scheme does not accept the request; and where the public key cannot be
/// fetched, which rests on the copying of numbers.
pub fn create_credential(
    cred_def: &CredentialDefinition,
    cred_def_private: &CredentialDefinitionPrivate,
    cred_offer: &CredentialOffer,
    cred_request: &CredentialRequest,
    cred_values: CredentialValues,
    revocation_config: Option<CredentialRevocationConfig>,
) -> (res: Result<(Credential, Option<RevocationRegistry>, Option<RevocationRegistryDelta>), Error>)
    requires
        can_be_signed(
            cred_def.v1().value,
            *cred_def_private,
            *cred_request,
            cred_values,
            revocation_config,
        ),
    ensures
        creates(
            res,
            *cred_def,
            *cred_def_private,
            *cred_offer,
            *cred_request,
            cred_values,
            revocation_config,
        ),
{
    let CredentialDefinition::CredentialDefinitionV1(cred_def) = cred_def;
    create_credential_with_fetched_key(
        cred_def.get_public_key(),
        cred_def_private,
        cred_offer,
        cred_request,
        cred_values,
        revocation_config,
    )
}

/// What comes of an attempt to issue a credential of a definition: the public key cannot be
/// fetched, or the attempt is made with the key of the definition.
pub open spec fn creates(
    res: Result<(Credential, Option<RevocationRegistry>, Option<RevocationRegistryDelta>), Error>,
    cred_def: CredentialDefinition,
    private: CredentialDefinitionPrivate,
    offer: CredentialOffer,
    request: CredentialRequest,
    values: CredentialValues,
    revocation: Option<CredentialRevocationConfig>,
) -> bool {
    let data = cred_def.v1().value;
    ||| res matches Err(err) && key_not_supported_for(err, data)
    ||| issues(res, data.key(), private, offer, request, values, revocation) && (res is Ok
        ==> data.key_has_parts())
}

/// Whether the values and blinding values of a correctness proof are those that the hidden
/// attributes and the attributes committed to call for, given the attributes that a key
/// signs.
pub fn names_are_answered(
    hidden: &Vec<String>,
    committed: &Vec<String>,
    values: &Vec<String>,
    blindings: &Vec<String>,
    signed: &Vec<String>,
) -> (res: bool)
    ensures
        res == cl::names_answer(
            names::name_set(hidden@),
            names::name_set(committed@),
            names::name_set(values@),
            names::name_set(blindings@),
            names::name_set(signed@),
        ),
{
    names::holds_common_names(values, hidden, signed) && (!names::holds_names(signed, hidden) || (
    names::holds_names(values, committed) && names::holds_names(blindings, committed)))
}

/// What is read of a request, of keys and of a registry to tell whether an index can be signed
/// for.
#[derive(Debug)]
pub struct IndexTexts {
    /// The point by which the request asks for an index, where it has one.
    pub point: Option<String>,
    /// The numbers of the definition's private key, where it has them.
    pub secrets: Option<(String, String)>,
    /// The number of the registry's private key.
    pub number: String,
    /// The point of the registry.
    pub registry: String,
    /// The points of the definition's revocation key.
    pub part: Vec<String>,
}

/// A text shows a number below the order of the groups.
pub open spec fn shows_number_below_order(text: Seq<char>) -> bool {
    numbers::number_in(text, 16) matches Some(n) && n < points::group_order()
}

/// The texts show that an index can be signed for: where the request and the private key have
/// what that takes, the place of the index among the tails can be computed, the points are
/// bounded, the numbers are below the order of the groups, and the one that the witness is
/// divided by is not zero.
pub open spec fn texts_allow_index(texts: IndexTexts, max_cred_num: u32, index: u32) -> bool {
    texts.point is Some && texts.secrets is Some ==> {
        let (x, sk) = texts.secrets->0;
        let number = numbers::number_in(texts.number@, 16)->0;
        &&& max_cred_num < u32::MAX
        &&& points::shows_bounded((texts.point->0)@)
        &&& points::shows_bounded(texts.registry@)
        &&& forall|i: int|
            0 <= i < texts.part@.len() ==> points::shows_bounded((#[trigger] texts.part@[i])@)
        &&& shows_number_below_order(x@)
        &&& shows_number_below_order(sk@)
        &&& shows_number_below_order(texts.number@)
        &&& (numbers::number_in(sk@, 16)->0 + vstd::arithmetic::power::pow(number, index as nat))
            % points::group_order() != 0
    }
}

/// Whether texts show that an index can be signed for.
pub fn index_texts_allow(texts: &IndexTexts, max_cred_num: u32, index: u32) -> (res: bool)
    ensures
        res == texts_allow_index(*texts, max_cred_num, index),
{
    let (point, secrets) = match (&texts.point, &texts.secrets) {
        (Some(point), Some(secrets)) => (point, secrets),
        _ => return true,
    };
    if max_cred_num == u32::MAX || !points::text_is_bounded(point.as_str())
        || !points::text_is_bounded(texts.registry.as_str()) || !points::texts_are_bounded(
        &texts.part,
    ) {
        return false;
    }
    let order = points::order();
    match (
        numbers::hexadecimal_below(secrets.0.as_str(), &order),
        numbers::hexadecimal_below(secrets.1.as_str(), &order),
        numbers::hexadecimal_below(texts.number.as_str(), &order),
    ) {
        (Some(_), Some(sk), Some(number)) => !points::index_number_vanishes(&sk, &number, index),
        _ => false,
    }
}

/// What signing for an index is tested by can be read: where signing comes that far, the points
/// and the numbers of the private keys can be written.
pub open spec fn index_can_be_read(
    data: CredentialDefinitionData,
    private: CredentialDefinitionPrivate,
    request: CredentialRequest,
    config: CredentialRevocationConfig,
) -> bool {
    data.revocation is Some && 1 <= config.registry_idx <= config.reg_def.v1().value.max_cred_num
        ==> {
        &&& cl::part_fits(data.revocation->0)
        &&& cl::index_secrets_fit(private.value)
        &&& cl::secret_fits(request.blinded_ms)
        &&& config.registry.fits()
        &&& numbers::fits(cl::registry_secret(config.reg_def_private.value))
    }
}

/// Whether an index of a registry can be signed for. It fails only where the request or the
/// private key cannot be written as text, which rests on the printing of numbers, and only where
/// the definition supports revocation and the index is one of the registry.
pub fn check_index_signing(
    cred_def: &CredentialDefinition,
    cred_def_private: &CredentialDefinitionPrivate,
    cred_request: &CredentialRequest,
    config: &CredentialRevocationConfig,
) -> (res: Result<bool, Error>)
    requires
        index_can_be_read(cred_def.v1().value, *cred_def_private, *cred_request, *config),
    ensures
        res matches Ok(can) ==> can == index_can_be_signed(
            cred_def.v1().value,
            *cred_def_private,
            *cred_request,
            *config,
        ),
        res matches Err(err) ==> err.not_read() && cred_def.v1().value.revocation is Some && 1
            <= config.registry_idx <= config.reg_def.v1().value.max_cred_num,
{
    let CredentialDefinition::CredentialDefinitionV1(v1) = cred_def;
    let RevocationRegistryDefinition::RevocationRegistryDefinitionV1(def) = config.reg_def;
    let RevocationRegistry::RevocationRegistryV1(registry) = config.registry;
    let max_cred_num = def.value.max_cred_num;
    if config.registry_idx < 1 || config.registry_idx > max_cred_num {
        return Ok(true);
    }
    let part = match &v1.value.revocation {
        Some(part) => part,
        None => return Ok(true),
    };
    let point = match cl::secret_text(&cred_request.blinded_ms) {
        Ok(point) => point,
        Err(err) => return Err(Error::text(err)),
    };
    let secrets = match cl::index_secret_texts(&cred_def_private.value) {
        Ok(secrets) => secrets,
        Err(err) => return Err(Error::text(err)),
    };
    let texts = IndexTexts {
        point,
        secrets,
        number: cl::registry_secret_text(&config.reg_def_private.value).unwrap(),
        registry: cl::registry_text(&registry.value).unwrap(),
        part: cl::part_texts(part).unwrap(),
    };
    proof {
        points::lemma_points_shown(texts.part@);
    }
    Ok(index_texts_allow(&texts, max_cred_num, config.registry_idx))
}

/// What signing is tested by can be read: where the values are numbers, the point of the request
/// can be written, and so can what an index is signed with.
pub open spec fn signing_can_be_read(
    data: CredentialDefinitionData,
    private: CredentialDefinitionPrivate,
    request: CredentialRequest,
    values: CredentialValues,
    revocation: Option<CredentialRevocationConfig>,
) -> bool {
    helpers::entries_lack_nul(values@) && helpers::entries_are_numbers(values@) ==> {
        &&& cl::secret_fits(request.blinded_ms)
        &&& revocation matches Some(config) ==> index_can_be_read(data, private, request, config)
    }
}

/// Whether a credential can be signed. It fails only where the request or a key cannot be
/// written as text, which rests on the printing of numbers, and only where the values are
/// numbers.
pub fn check_signing(
    cred_def: &CredentialDefinition,
    cred_def_private: &CredentialDefinitionPrivate,
    cred_request: &CredentialRequest,
    cred_values: &CredentialValues,
    revocation_config: &Option<CredentialRevocationConfig>,
) -> (res: Result<bool, Error>)
    requires
        signing_can_be_read(
            cred_def.v1().value,
            *cred_def_private,
            *cred_request,
            *cred_values,
            *revocation_config,
        ),
    ensures
        res matches Ok(can) ==> can == can_be_signed(
            cred_def.v1().value,
            *cred_def_private,
            *cred_request,
            *cred_values,
            *revocation_config,
        ),
        res matches Err(err) ==> err.not_read() && helpers::entries_lack_nul(cred_values@)
            && helpers::entries_are_numbers(cred_values@),
{
    if !helpers::values_lack_nul(cred_values) {
        return Ok(false);
    }
    if helpers::build_credential_values(cred_values).is_err() {
        return Ok(true);
    }
    let CredentialDefinition::CredentialDefinitionV1(v1) = cred_def;
    let (hidden, committed) = match cl::secret_attr_names(&cred_request.blinded_ms) {
        Ok(attrs) => attrs,
        Err(err) => return Err(Error::text(err)),
    };
    let (values, blindings) = match cl::cap_attr_names(
        &cred_request.blinded_ms_correctness_proof,
    ) {
        Ok(attrs) => attrs,
        Err(err) => return Err(Error::text(err)),
    };
    let signed = match cl::key_attr_names(&v1.value.primary) {
        Ok(attrs) => attrs,
        Err(err) => return Err(Error::text(err)),
    };
    let answered = names_are_answered(&hidden, &committed, &values, &blindings, &signed);
    match revocation_config {
        Some(config) if answered => check_index_signing(
            cred_def,
            cred_def_private,
            cred_request,
            config,
        ),
        _ => Ok(answered),
    }
}

/// Issues a credential where it can be signed; `None` where it cannot. Whether it can is read
/// from the arguments: where one of them cannot be written as text, which rests on the printing
/// of numbers, that is the error.
pub fn create_credential_checked(
    cred_def: &CredentialDefinition,
    cred_def_private: &CredentialDefinitionPrivate,
    cred_offer: &CredentialOffer,
    cred_request: &CredentialRequest,
    cred_values: CredentialValues,
    revocation_config: Option<CredentialRevocationConfig>,
) -> (res: Option<
    Result<(Credential, Option<RevocationRegistry>, Option<RevocationRegistryDelta>), Error>,
>)
    requires
        signing_can_be_read(
            cred_def.v1().value,
            *cred_def_private,
            *cred_request,
            cred_values,
            revocation_config,
        ),
    ensures
        ({
            let can = can_be_signed(
                cred_def.v1().value,
                *cred_def_private,
                *cred_request,
                cred_values,
                revocation_config,
            );
            match res {
                None => !can,
                Some(Err(err)) if err.not_read() => helpers::entries_lack_nul(cred_values@)
                    && helpers::entries_are_numbers(cred_values@),
                Some(outcome) => can && creates(
                    outcome,
                    *cred_def,
                    *cred_def_private,
                    *cred_offer,
                    *cred_request,
                    cred_values,
                    revocation_config,
                ),
            }
        }),
{
    match check_signing(
        cred_def,
        cred_def_private,
        cred_request,
        &cred_values,
        &revocation_config,
    ) {
        Ok(true) => Some(
            create_credential(
                cred_def,
                cred_def_private,
                cred_offer,
                cred_request,
                cred_values,
                revocation_config,
            ),
        ),
        Ok(false) => None,
        Err(err) => Some(Err(err)),
    }
}

} // verus!
