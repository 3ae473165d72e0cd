//! What each function of the issuer comes to, said of its calls: for every result that a call
//! can give, what it holds in terms of the arguments alone, and for every failure, what failed.
#![allow(unused_imports)]
use vstd::prelude::*;

use std::collections::BTreeSet;

use crate::cl;
use crate::error::{Cause, Error, ErrorKind};
use crate::helpers;
use crate::identifiers;
use crate::identifiers::{CredentialDefinitionId, DidValue, RevocationRegistryId, SchemaId};
use crate::issuer;
use crate::laws;
use crate::numbers;
use crate::points;
use crate::qualified;
use crate::tails::TailsWriter;
use crate::types::{
    AttributeNames, AttributeValues, Credential, CredentialDefinition, CredentialDefinitionConfig,
    CredentialDefinitionData, CredentialDefinitionPrivate, CredentialKeyCorrectnessProof,
    CredentialOffer, CredentialRequest, CredentialRevocationConfig, CredentialValues, IssuanceType,
    RegistryType, RevocationRegistry, RevocationRegistryDefinition,
    RevocationRegistryDefinitionPrivate, RevocationRegistryDelta, Schema, SignatureType,
};

verus! {

// ---- texts ----

/// A text is a number in decimal digits: the digit at each place is the one that the number has
/// there, no digit is missing in front, and none is a zero in front of another.
pub open spec fn is_decimal_of(text: Seq<char>, n: nat) -> bool {
    let len = text.len();
    &&& len > 0
    &&& n < vstd::arithmetic::power::pow(10, len)
    &&& len > 1 ==> text[0] != '0'
    &&& forall|i: int|
        0 <= i < len ==> (#[trigger] text[i]) as int == '0' as int + (n as int
            / vstd::arithmetic::power::pow(10, (len - 1 - i) as nat)) % 10
}

/// The decimal form of a number reads as that number.
proof fn lemma_decimal_reads(n: nat)
    ensures
        is_decimal_of(helpers::decimal(n), n),
        n >= 10 ==> n >= vstd::arithmetic::power::pow(10, (helpers::decimal(n).len() - 1) as nat),
    decreases n,
{
    let text = helpers::decimal(n);
    let len = text.len();
    vstd::arithmetic::power::lemma_pow0(10);
    vstd::arithmetic::power::lemma_pow1(10);
    if n < 10 {
        assert(text =~= seq![helpers::digit(n)]);
        assert(n as int / 1 == n);
    } else {
        let rest = n / 10;
        let before = helpers::decimal(rest);
        lemma_decimal_reads(rest);
        assert(before.len() == len - 1);
        lemma_ten_times((len - 1) as nat);
        assert forall|i: int| 0 <= i < len implies (#[trigger] text[i]) as int == '0' as int + (
        n as int / vstd::arithmetic::power::pow(10, (len - 1 - i) as nat)) % 10 by {
            if i < len - 1 {
                assert(text[i] == before[i]);
                let place = (len - 2 - i) as nat;
                lemma_ten_times(place);
                let weight = vstd::arithmetic::power::pow(10, place);
                vstd::arithmetic::power::lemma_pow_positive(10, place);
                vstd::arithmetic::div_mod::lemma_div_denominator(n as int, 10, weight);
                assert(rest as int / weight == n as int / (10 * weight));
                assert((len - 1 - i) as nat == place + 1);
            } else {
                assert(text[i] == helpers::digit(n % 10));
                assert(n as int / 1 == n);
            }
        }
        lemma_ten_times((len - 2) as nat);
        if len > 2 {
            assert(text[0] == before[0]);
        } else {
            assert(before.len() == 1);
            assert(text[0] == before[0]);
            assert(before[0] as int == '0' as int + (rest as int
                / vstd::arithmetic::power::pow(10, 0)) % 10);
            assert(rest as int / 1 == rest);
            assert(rest < 10);
        }
    }
}

proof fn lemma_ten_times(place: nat)
    ensures
        vstd::arithmetic::power::pow(10, place + 1) == 10 * vstd::arithmetic::power::pow(10, place),
        vstd::arithmetic::power::pow(10, place) > 0,
{
    vstd::arithmetic::power::lemma_pow_adds(10, 1, place);
    vstd::arithmetic::power::lemma_pow1(10);
    vstd::arithmetic::power::lemma_pow_positive(10, place);
}

/// An identifier is qualified under a prefix.
pub open spec fn is_qualified(prefix: Seq<char>, id: Seq<char>) -> bool {
    exists|method: Seq<char>, rest: Seq<char>| qualified::qualified_as(id, prefix, method, rest)
}

/// An identifier that a DID publishes reads as what it names, and where the DID is qualified,
/// begins with a prefix and the method of the DID.
pub open spec fn id_reads(
    id: Seq<char>,
    prefix: Seq<char>,
    did: Seq<char>,
    entity: Seq<char>,
) -> bool {
    &&& !is_qualified("did"@, did) ==> id == entity
    &&& forall|method: Seq<char>, rest: Seq<char>| #[trigger]
        qualified::qualified_as(did, "did"@, method, rest) ==> id == prefix + seq![':'] + method
            + seq![':'] + entity
}

proof fn lemma_id_reads(prefix: Seq<char>, did: Seq<char>, entity: Seq<char>)
    ensures
        id_reads(
            qualified::qualify(prefix, identifiers::did_method(did), entity),
            prefix,
            did,
            entity,
        ),
{
    assert forall|method: Seq<char>, rest: Seq<char>| #[trigger]
        qualified::qualified_as(did, "did"@, method, rest) implies qualified::qualify(
        prefix,
        identifiers::did_method(did),
        entity,
    ) == prefix + seq![':'] + method + seq![':'] + entity by {
        qualified::lemma_method_is_unique("did"@, did, method, rest);
    }
}

// ---- schemas ----

/// `create_schema` accepts a DID exactly where it is qualified, or stands for 16 or 32 bytes in
/// base 58; and the schema has the name, version, attributes and sequence number that were
/// given, and an identifier that reads the DID, a 2, the name and the version.
pub proof fn law_schema_is_as_given(
    origin_did: &DidValue,
    schema_name: &str,
    schema_version: &str,
    attr_names: AttributeNames,
    seq_no: Option<u32>,
    res: Result<Schema, Error>,
)
    requires
        call_ensures(
            issuer::create_schema,
            (origin_did, schema_name, schema_version, attr_names, seq_no),
            res,
        ),
    ensures
        res is Ok <==> is_qualified("did"@, origin_did@) || (identifiers::base58_bytes(
            origin_did@,
        ) matches Some(bytes) && (bytes.len() == 16 || bytes.len() == 32)),
        res matches Err(err) ==> err is Validation,
        res matches Ok(schema) ==> {
            &&& schema.v1().name@ == schema_name@
            &&& schema.v1().version@ == schema_version@
            &&& schema.v1().attr_names == attr_names
            &&& schema.v1().seq_no == seq_no
            &&& id_reads(
                schema.v1().id@,
                "schema"@,
                origin_did@,
                origin_did@ + ":2:"@ + schema_name@ + ":"@ + schema_version@,
            )
        },
{
    reveal_strlit(":2:");
    reveal_strlit(":");
    let did = origin_did@;
    let entity = did + seq![':', '2', ':'] + schema_name@ + seq![':'] + schema_version@;
    assert(":2:"@ =~= seq![':', '2', ':']);
    assert(":"@ =~= seq![':']);
    lemma_id_reads("schema"@, did, entity);
}

// ---- credential definitions ----

/// A schema identifier is qualified, and the DID that is to use it is not.
pub open spec fn only_schema_is_qualified(did: Seq<char>, schema_id: Seq<char>) -> bool {
    !is_qualified("did"@, did) && is_qualified("schema"@, schema_id)
}

/// What a credential definition's identifier names: the DID, a 3, the signature type, the schema
/// and, unless it is empty, the tag, with colons between.
pub open spec fn definition_entity(did: Seq<char>, schema: Seq<char>, tag: Seq<char>) -> Seq<char> {
    did + ":3:CL:"@ + schema + (if tag.len() == 0 {
        seq![]
    } else {
        ":"@ + tag
    })
}

/// What stands for a schema within the identifier of a credential definition: the decimal form
/// of its sequence number where it has one, and otherwise its identifier, which takes on the
/// method of the DID. That is the identifier itself, if it is qualified or has no colon; and of a
/// plain identifier it is one with the method before itself and before its DID, or itself where
/// the DID has none.
pub open spec fn names_schema(
    text: Seq<char>,
    did: Seq<char>,
    schema_id: Seq<char>,
    seq_no: Option<u32>,
) -> bool {
    match seq_no {
        Some(n) => is_decimal_of(text, n as nat),
        None => {
            &&& text == identifiers::schema_id_with_method(schema_id, identifiers::did_method(did))
            &&& is_qualified("schema"@, schema_id) || !schema_id.contains(':') ==> text == schema_id
            &&& forall|own: Seq<char>, name: Seq<char>, version: Seq<char>| #[trigger]
                laws::is_plain_schema_id(schema_id, own, name, version) && !is_qualified(
                    "schema"@,
                    schema_id,
                ) ==> {
                    &&& !is_qualified("did"@, did) ==> text == schema_id
                    &&& forall|method: Seq<char>, rest: Seq<char>| #[trigger]
                        qualified::qualified_as(did, "did"@, method, rest) && !own.contains('\n')
                            ==> text == "schema:"@ + method + ":did:"@ + method + ":"@ + schema_id
                }
        },
    }
}

proof fn lemma_schema_is_named(did: Seq<char>, schema_id: Seq<char>, seq_no: Option<u32>)
    ensures
        names_schema(
            issuer::schema_part(
                seq_no,
                identifiers::schema_id_with_method(schema_id, identifiers::did_method(did)),
            ),
            did,
            schema_id,
            seq_no,
        ),
{
    if let Some(n) = seq_no {
        lemma_decimal_reads(n as nat);
    } else {
        let method = identifiers::did_method(did);
        let text = identifiers::schema_id_with_method(schema_id, method);
        if is_qualified("schema"@, schema_id) || !schema_id.contains(':') {
            laws::law_other_schema_keeps_method(schema_id, method);
        }
        assert forall|own: Seq<char>, name: Seq<char>, version: Seq<char>| #[trigger]
            laws::is_plain_schema_id(schema_id, own, name, version) && !is_qualified(
                "schema"@,
                schema_id,
            ) implies {
            &&& !is_qualified("did"@, did) ==> text == schema_id
            &&& forall|method: Seq<char>, rest: Seq<char>| #[trigger]
                qualified::qualified_as(did, "did"@, method, rest) && !own.contains('\n') ==> text
                    == "schema:"@ + method + ":did:"@ + method + ":"@ + schema_id
        } by {
            laws::law_plain_schema_takes_method(schema_id, own, name, version, method);
            assert(!is_qualified("did"@, own)) by {
                if is_qualified("did"@, own) {
                    let (m, r) = choose|m: Seq<char>, r: Seq<char>|
                        qualified::qualified_as(own, "did"@, m, r);
                    assert(own["did"@.len() as int] == ':');
                    assert(own.contains(':'));
                }
            }
            assert forall|m: Seq<char>, rest: Seq<char>| #[trigger]
                qualified::qualified_as(did, "did"@, m, rest) && !own.contains('\n') implies text
                == "schema:"@ + m + ":did:"@ + m + ":"@ + schema_id by {
                qualified::lemma_method_is_unique("did"@, did, m, rest);
                let full = qualified::qualify("did"@, Some(m), own);
                assert(qualified::is_label("did"@)) by {
                    reveal_strlit("did");
                }
                assert(qualified::qualified_as(full, "did"@, m, own));
                qualified::lemma_method_is_unique("did"@, full, m, own);
                reveal_strlit("schema:");
                reveal_strlit("schema");
                reveal_strlit(":did:");
                reveal_strlit("did");
                reveal_strlit(":");
                assert(text =~= "schema:"@ + m + ":did:"@ + m + ":"@ + schema_id);
            }
        }
    }
}

proof fn lemma_definition_entity(did: Seq<char>, schema: Seq<char>, tag: Seq<char>)
    ensures
        id_reads(
            identifiers::cred_def_id_text(did, schema, SignatureType::CL.text(), tag),
            "creddef"@,
            did,
            definition_entity(did, schema, tag),
        ),
{
    reveal_strlit(":3:CL:");
    reveal_strlit("CL");
    reveal_strlit(":");
    let tag_part: Seq<char> = if tag.len() == 0 {
        seq![]
    } else {
        seq![':'] + tag
    };
    let entity = did + seq![':', '3', ':'] + SignatureType::CL.text() + seq![':'] + schema
        + tag_part;
    assert(":"@ =~= seq![':']);
    assert(entity =~= definition_entity(did, schema, tag));
    lemma_id_reads("creddef"@, did, entity);
}

/// `make_credential_definition_id` refuses exactly the schemas that are qualified where the DID
/// is not. Otherwise the identifier reads the DID, a 3, the signature type, what stands for the
/// schema, and the tag; and what stands for a schema with a sequence number reads back as that
/// number.
pub proof fn law_definition_id_reads(
    origin_did: &DidValue,
    schema_id: &SchemaId,
    schema_seq_no: Option<u32>,
    tag: &str,
    signature_type: SignatureType,
    res: Result<CredentialDefinitionId, Error>,
)
    requires
        call_ensures(
            issuer::make_credential_definition_id,
            (origin_did, schema_id, schema_seq_no, tag, signature_type),
            res,
        ),
    ensures
        res is Err <==> only_schema_is_qualified(origin_did@, schema_id@),
        res matches Err(err) ==> (err matches Error::Failure {
            kind: ErrorKind::Input,
            message: Some(message),
            cause: None,
        } && message@ == "Cannot use an unqualified Origin DID with fully qualified Schema ID"@),
        res matches Ok(id) ==> exists|schema: Seq<char>|
            #![trigger definition_entity(origin_did@, schema, tag@)]
            names_schema(schema, origin_did@, schema_id@, schema_seq_no) && id_reads(
                id@,
                "creddef"@,
                origin_did@,
                definition_entity(origin_did@, schema, tag@),
            ),
{
    let did = origin_did@;
    let schema = issuer::schema_part(
        schema_seq_no,
        identifiers::schema_id_with_method(schema_id@, identifiers::did_method(did)),
    );
    lemma_schema_is_named(did, schema_id@, schema_seq_no);
    lemma_definition_entity(did, schema, tag@);
}

/// An attribute name as keys know it: what is left of it without spaces, in lower case.
pub open spec fn known_name(name: Seq<char>) -> Seq<char> {
    helpers::lowercase(name.filter(|c: char| c != ' '))
}

proof fn lemma_known_name(name: Seq<char>)
    ensures
        known_name(name) == helpers::common_view(name),
{
}

/// A set holds the known names of a list, and no others.
pub open spec fn holds_known_names(set: Set<Seq<char>>, names: Seq<String>) -> bool {
    forall|attr: Seq<char>| #[trigger]
        set.contains(attr) <==> exists|i: int|
            0 <= i < names.len() && attr == known_name((#[trigger] names[i])@)
}

proof fn lemma_known_names(names: Seq<String>)
    ensures
        holds_known_names(helpers::common_names(names), names),
{
    let texts = names.map_values(|name: String| helpers::common_view(name@));
    assert forall|attr: Seq<char>| #[trigger]
        helpers::common_names(names).contains(attr) <==> exists|i: int|
            0 <= i < names.len() && attr == known_name((#[trigger] names[i])@) by {
        if helpers::common_names(names).contains(attr) {
            assert(texts.contains(attr));
            let i = choose|i: int| 0 <= i < texts.len() && texts[i] == attr;
            lemma_known_name(names[i]@);
            assert(attr == known_name(names[i]@));
        }
        if exists|i: int| 0 <= i < names.len() && attr == known_name((#[trigger] names[i])@) {
            let i = choose|i: int|
                0 <= i < names.len() && attr == known_name((#[trigger] names[i])@);
            lemma_known_name(names[i]@);
            assert(texts[i] == attr);
            assert(texts.contains(attr));
        }
    }
}

/// The arguments of one drawing of keys: the known names of a list, the link secret, and nothing
/// else.
pub open spec fn draws_for(
    schema: cl::CredentialSchema,
    non_schema: cl::NonCredentialSchema,
    names: Seq<String>,
) -> bool {
    &&& holds_known_names(cl::schema_attrs(schema), names)
    &&& forall|attr: Seq<char>| #[trigger]
        cl::non_schema_attrs(non_schema).contains(attr) <==> attr == "master_secret"@
}

/// Where `create_credential_definition` makes a definition, its identifier and its schema
/// identifier name the schema, and read back the sequence number of one that has it; its tag
/// and signature type are those given; and its keys are what one drawing of keys gave for the
/// known names of the schema's attributes and the link secret, with the revocation support that
/// was asked for.
pub proof fn law_definition_is_as_asked(
    origin_did: &DidValue,
    schema: &Schema,
    tag: &str,
    signature_type: SignatureType,
    config: CredentialDefinitionConfig,
    made: (CredentialDefinition, CredentialDefinitionPrivate, CredentialKeyCorrectnessProof),
)
    requires
        call_ensures(
            issuer::create_credential_definition,
            (origin_did, schema, tag, signature_type, config),
            Ok(made),
        ),
    ensures
        !only_schema_is_qualified(origin_did@, schema.v1().id@),
        exists|infix: Seq<char>|
            #![trigger definition_entity(origin_did@, infix, tag@)]
            names_schema(infix, origin_did@, schema.v1().id@, schema.v1().seq_no) && id_reads(
                made.0.v1().id@,
                "creddef"@,
                origin_did@,
                definition_entity(origin_did@, infix, tag@),
            ),
        match schema.v1().seq_no {
            Some(n) => is_decimal_of(made.0.v1().schema_id@, n as nat),
            None => made.0.v1().schema_id@ == schema.v1().id@,
        },
        made.0.v1().tag@ == tag@,
        made.0.v1().signature_type == signature_type,
        made.0.v1().value.revocation is Some <==> config.support_revocation,
        cl::index_secrets(made.1.value) is Some <==> config.support_revocation,
        forall|attr: Seq<char>| #[trigger]
            cl::key_attrs(made.0.v1().value.primary).contains(attr) <==> attr == "master_secret"@
                || exists|i: int|
                0 <= i < schema.v1().attr_names@.len() && attr == known_name(
                    (#[trigger] schema.v1().attr_names@[i])@,
                ),
        exists|
            drawn: cl::CredentialSchema,
            non_drawn: cl::NonCredentialSchema,
            key: cl::CredentialPublicKey,
        |
            {
                &&& draws_for(drawn, non_drawn, schema.v1().attr_names@)
                &&& #[trigger] cl::generated_keys(
                    drawn,
                    non_drawn,
                    config.support_revocation,
                    key,
                    made.1.value,
                    made.2.value,
                )
                &&& made.0.v1().value.primary == cl::primary_key(key)
                &&& made.0.v1().value.revocation == cl::revocation_key(key)
            },
{
    let did = origin_did@;
    let names = schema.v1().attr_names@;
    let infix = issuer::schema_part(
        schema.v1().seq_no,
        identifiers::schema_id_with_method(schema.v1().id@, identifiers::did_method(did)),
    );
    lemma_schema_is_named(did, schema.v1().id@, schema.v1().seq_no);
    lemma_definition_entity(did, infix, tag@);
    if let Some(n) = schema.v1().seq_no {
        lemma_decimal_reads(n as nat);
    }
    lemma_known_names(names);
    assert(helpers::link_secret_names() =~= set!["master_secret"@]);
    let (drawn, non_drawn, key) = choose|
        drawn: cl::CredentialSchema,
        non_drawn: cl::NonCredentialSchema,
        key: cl::CredentialPublicKey,
    |
        {
            &&& cl::schema_attrs(drawn) == helpers::common_names(names)
            &&& cl::non_schema_attrs(non_drawn) == helpers::link_secret_names()
            &&& #[trigger] cl::generated_keys(
                drawn,
                non_drawn,
                config.support_revocation,
                key,
                made.1.value,
                made.2.value,
            )
            &&& made.0.v1().value.primary == cl::primary_key(key)
            &&& made.0.v1().value.revocation == cl::revocation_key(key)
        };
    assert(draws_for(drawn, non_drawn, names));
}

/// `create_credential_definition` fails in three ways only. The schema is qualified where the
/// DID is not. Or the drawing of keys failed, for the known names of the schema's attributes,
/// the link secret and the revocation support that was asked for. Or the copying of a primary
/// key failed that was drawn for these.
pub proof fn law_definition_fails_as_keys_do(
    origin_did: &DidValue,
    schema: &Schema,
    tag: &str,
    signature_type: SignatureType,
    config: CredentialDefinitionConfig,
    err: Error,
)
    requires
        call_ensures(
            issuer::create_credential_definition,
            (origin_did, schema, tag, signature_type, config),
            Err(err),
        ),
    ensures
        only_schema_is_qualified(origin_did@, schema.v1().id@) ==> (err matches Error::Failure {
            kind: ErrorKind::Input,
            message: Some(message),
            cause: None,
        } && message@ == "Cannot use an unqualified Origin DID with fully qualified Schema ID"@),
        !only_schema_is_qualified(origin_did@, schema.v1().id@) ==> (err matches Error::Signature(
            source,
        ) && exists|drawn: cl::CredentialSchema, non_drawn: cl::NonCredentialSchema|
            {
                &&& #[trigger] draws_for(drawn, non_drawn, schema.v1().attr_names@)
                &&& ({
                    ||| call_ensures(
                        cl::Issuer::new_credential_def,
                        (&drawn, &non_drawn, config.support_revocation),
                        Err(source),
                    )
                    ||| exists|
                        key: cl::CredentialPublicKey,
                        private: cl::CredentialPrivateKey,
                        key_proof: cl::ClKeyCorrectnessProof,
                    |
                        #[trigger] cl::generated_keys(
                            drawn,
                            non_drawn,
                            config.support_revocation,
                            key,
                            private,
                            key_proof,
                        ) && call_ensures(
                            cl::CredentialPrimaryPublicKey::try_clone,
                            (&cl::primary_key(key),),
                            Err(source),
                        )
                })
            }),
{
    let names = schema.v1().attr_names@;
    lemma_known_names(names);
    if !only_schema_is_qualified(origin_did@, schema.v1().id@) {
        let source = err->Signature_0;
        let (drawn, non_drawn) = choose|
            drawn: cl::CredentialSchema,
            non_drawn: cl::NonCredentialSchema,
        |
            {
                &&& #[trigger] cl::schema_attrs(drawn) == helpers::common_names(names)
                &&& #[trigger] cl::non_schema_attrs(non_drawn) == helpers::link_secret_names()
                &&& ({
                    ||| call_ensures(
                        cl::Issuer::new_credential_def,
                        (&drawn, &non_drawn, config.support_revocation),
                        Err(source),
                    )
                    ||| exists|
                        key: cl::CredentialPublicKey,
                        private: cl::CredentialPrivateKey,
                        key_proof: cl::ClKeyCorrectnessProof,
                    |
                        #[trigger] cl::generated_keys(
                            drawn,
                            non_drawn,
                            config.support_revocation,
                            key,
                            private,
                            key_proof,
                        ) && call_ensures(
                            cl::CredentialPrimaryPublicKey::try_clone,
                            (&cl::primary_key(key),),
                            Err(source),
                        )
                })
            };
        assert(draws_for(drawn, non_drawn, names));
    }
}

// ---- revocation registries ----

/// `make_revocation_registry_id` refuses exactly where one of the DID and the credential
/// definition's identifier is qualified and the other is not, and says which. Otherwise the
/// identifier reads the DID, a 4, the credential definition's identifier, the registry type and
/// the tag.
pub proof fn law_registry_id_reads(
    origin_did: &DidValue,
    cred_def: &CredentialDefinition,
    tag: &str,
    rev_reg_type: RegistryType,
    res: Result<RevocationRegistryId, Error>,
)
    requires
        call_ensures(
            issuer::make_revocation_registry_id,
            (origin_did, cred_def, tag, rev_reg_type),
            res,
        ),
    ensures
        res is Err <==> is_qualified("did"@, origin_did@) != is_qualified(
            "creddef"@,
            cred_def.v1().id@,
        ),
        res matches Err(err) ==> refuses_to_mix(err, origin_did@),
        res matches Ok(id) ==> id_reads(
            id@,
            "revreg"@,
            origin_did@,
            origin_did@ + ":4:"@ + cred_def.v1().id@ + ":CL_ACCUM:"@ + tag@,
        ),
{
    lemma_registry_entity(origin_did@, cred_def.v1().id@, tag@);
}

/// The refusal to mix what is qualified with what is not.
pub open spec fn refuses_to_mix(err: Error, did: Seq<char>) -> bool {
    err matches Error::Failure { kind: ErrorKind::Input, message: Some(message), cause: None }
        && message@ == if is_qualified("did"@, did) {
        "Cannot use a fully qualified Origin DID with an unqualified Credential Definition ID"@
    } else {
        "Cannot use an unqualified Origin DID with a fully qualified Credential Definition ID"@
    }
}

proof fn lemma_registry_entity(did: Seq<char>, cred_def_id: Seq<char>, tag: Seq<char>)
    ensures
        id_reads(
            identifiers::rev_reg_id_text(did, cred_def_id, RegistryType::CL_ACCUM.text(), tag),
            "revreg"@,
            did,
            did + ":4:"@ + cred_def_id + ":CL_ACCUM:"@ + tag,
        ),
{
    reveal_strlit(":4:");
    reveal_strlit("CL_ACCUM");
    reveal_strlit(":CL_ACCUM:");
    let entity = did + seq![':', '4', ':'] + cred_def_id + seq![':'] + RegistryType::CL_ACCUM.text()
        + seq![':'] + tag;
    assert(entity =~= did + ":4:"@ + cred_def_id + ":CL_ACCUM:"@ + tag);
    lemma_id_reads("revreg"@, did, entity);
}

/// The key of a definition could not be put together from its own parts.
pub open spec fn parts_failed(cred_def: CredentialDefinition, source: cl::ClError) -> bool {
    let data = cred_def.v1().value;
    let part = match &data.revocation {
        Some(part) => Some(part),
        None => None,
    };
    call_ensures(
        cl::CredentialPublicKey::build_from_parts,
        (&data.primary, part),
        Err(source),
    )
}

/// The error that says so.
pub open spec fn reports_parts(err: Error, cred_def: CredentialDefinition) -> bool {
    err matches Error::Failure {
        kind: ErrorKind::Unexpected,
        message: Some(message),
        cause: Some(Cause::Signature(source)),
    } && message@ == "Error fetching public key from credential definition"@ && parts_failed(
        cred_def,
        source,
    )
}

/// Where `create_revocation_registry` makes a registry, the methods agree and the definition
/// supports revocation; the definition of the registry tells what was asked for; its keys, its
/// first state and the generator of its tails go with one private key, the definition's key and
/// the size and issuance that were asked for; the first delta leads from nothing to the first
/// state and moves no index; and the tails of that generator were kept, once, where the
/// definition says.
pub proof fn law_registry_is_as_asked<TW: TailsWriter>(
    origin_did: &DidValue,
    cred_def: &CredentialDefinition,
    tag: &str,
    rev_reg_type: RegistryType,
    issuance_type: IssuanceType,
    max_cred_num: u32,
    tails_writer: &mut TW,
    made: (
        RevocationRegistryDefinition,
        RevocationRegistryDefinitionPrivate,
        RevocationRegistry,
        RevocationRegistryDelta,
    ),
)
    requires
        call_ensures(
            issuer::create_revocation_registry::<TW>,
            (
                origin_did,
                cred_def,
                tag,
                rev_reg_type,
                issuance_type,
                max_cred_num,
                tails_writer,
            ),
            Ok(made),
        ),
    ensures
        is_qualified("did"@, origin_did@) == is_qualified("creddef"@, cred_def.v1().id@),
        cred_def.v1().value.revocation is Some,
        ({
            let def = made.0.v1();
            let data = cred_def.v1().value;
            let key = cl::key_from_parts(data.primary, data.revocation);
            let delta = made.3.value();
            &&& id_reads(
                def.id@,
                "revreg"@,
                origin_did@,
                origin_did@ + ":4:"@ + cred_def.v1().id@ + ":CL_ACCUM:"@ + tag@,
            )
            &&& def.revoc_def_type == rev_reg_type
            &&& def.tag@ == tag@
            &&& def.cred_def_id == cred_def.v1().id
            &&& def.value.max_cred_num == max_cred_num
            &&& def.value.issuance_type == issuance_type
            &&& def.value.public_keys.accum_key == cl::registry_public_key(
                key,
                made.1.value,
                max_cred_num,
            )
            &&& cl::registry_accum(made.2.value()) == cl::initial_accum(
                key,
                made.1.value,
                max_cred_num,
                issuance_type == IssuanceType::ISSUANCE_BY_DEFAULT,
            )
            &&& cl::delta_prev_accum(delta) is None
            &&& cl::delta_accum(delta) == cl::registry_accum(made.2.value())
            &&& cl::delta_issued(delta).is_empty()
            &&& cl::delta_revoked(delta).is_empty()
            &&& TW::wrote(
                *old(tails_writer),
                cl::tails_generator(key, made.1.value, max_cred_num),
                *final(tails_writer),
                Ok((def.value.tails_location, def.value.tails_hash)),
            )
        }),
{
    lemma_registry_entity(origin_did@, cred_def.v1().id@, tag@);
}

/// `create_revocation_registry` fails in four ways only, and but for the last the writer is
/// untouched. The methods do not agree. Or the definition's key could not be put together from
/// its parts, and that failure is what lies behind the error. Or the definition does not support
/// revocation. Or the writer could not keep the tails of a registry of that key and size, and
/// its error is handed on.
pub proof fn law_registry_fails_as_key_or_tails_do<TW: TailsWriter>(
    origin_did: &DidValue,
    cred_def: &CredentialDefinition,
    tag: &str,
    rev_reg_type: RegistryType,
    issuance_type: IssuanceType,
    max_cred_num: u32,
    tails_writer: &mut TW,
    err: Error,
)
    requires
        call_ensures(
            issuer::create_revocation_registry::<TW>,
            (
                origin_did,
                cred_def,
                tag,
                rev_reg_type,
                issuance_type,
                max_cred_num,
                tails_writer,
            ),
            Err(err),
        ),
    ensures
        ({
            let data = cred_def.v1().value;
            let key = cl::key_from_parts(data.primary, data.revocation);
            let untouched = *final(tails_writer) == *old(tails_writer);
            if is_qualified("did"@, origin_did@) != is_qualified("creddef"@, cred_def.v1().id@) {
                untouched && refuses_to_mix(err, origin_did@)
            } else {
                ||| untouched && reports_parts(err, *cred_def)
                ||| untouched && data.revocation is None && (err matches Error::Signature(source)
                    && exists|by_default: bool|
                    by_default == (issuance_type == IssuanceType::ISSUANCE_BY_DEFAULT)
                        && #[trigger] call_ensures(
                        cl::Issuer::new_revocation_registry_def,
                        (&key, max_cred_num, by_default),
                        Err(source),
                    ))
                ||| data.revocation is Some && exists|private: cl::RevocationKeyPrivate|
                    TW::wrote(
                        *old(tails_writer),
                        #[trigger] cl::tails_generator(key, private, max_cred_num),
                        *final(tails_writer),
                        Err(err),
                    )
            }
        }),
{
}

/// What an attempt to issue and revoke indexes comes to. Where it succeeds, the accumulator is
/// the one that the signature scheme computes from the one before, the size of the registry, the
/// indexes and the keys, and the delta tells of exactly these indexes and this step; where no
/// index is given, the accumulator stays. It fails only where the key of the definition could
/// not be put together from its parts, and that failure is what lies behind the error, or where
/// the definition does not support revocation.
pub open spec fn step_comes_to(
    res: Result<(RevocationRegistry, RevocationRegistryDelta), Error>,
    cred_def: CredentialDefinition,
    max_cred_num: u32,
    private: cl::RevocationKeyPrivate,
    before: cl::ClRevocationRegistry,
    issued: Set<u32>,
    revoked: Set<u32>,
) -> bool {
    let data = cred_def.v1().value;
    match res {
        Ok((after, delta)) => {
            let accum = cl::registry_accum(after.value());
            &&& data.revocation is Some
            &&& accum == cl::updated_accum(
                cl::registry_accum(before),
                max_cred_num,
                issued,
                revoked,
                cl::key_from_parts(data.primary, data.revocation),
                private,
            )
            &&& cl::delta_prev_accum(delta.value()) == Some(cl::registry_accum(before))
            &&& cl::delta_accum(delta.value()) == accum
            &&& cl::delta_issued(delta.value()) == issued
            &&& cl::delta_revoked(delta.value()) == revoked
            &&& issued.is_empty() && revoked.is_empty() ==> accum == cl::registry_accum(before)
            &&& points::is_bounded(cl::registry_point(before)) ==> points::is_bounded(
                cl::registry_point(after.value()),
            )
        },
        Err(err) => reports_parts(err, cred_def) || (data.revocation is None && err is Signature),
    }
}

/// `update_revocation_registry` issues and revokes exactly the indexes that it is given.
pub proof fn law_update_moves_indexes(
    cred_def: &CredentialDefinition,
    rev_reg_def: &RevocationRegistryDefinition,
    rev_reg_priv: &RevocationRegistryDefinitionPrivate,
    rev_reg: &RevocationRegistry,
    issued: BTreeSet<u32>,
    revoked: BTreeSet<u32>,
    res: Result<(RevocationRegistry, RevocationRegistryDelta), Error>,
)
    requires
        call_ensures(
            issuer::update_revocation_registry,
            (cred_def, rev_reg_def, rev_reg_priv, rev_reg, issued, revoked),
            res,
        ),
    ensures
        step_comes_to(
            res,
            *cred_def,
            rev_reg_def.v1().value.max_cred_num,
            rev_reg_priv.value,
            rev_reg.value(),
            issued@,
            revoked@,
        ),
        res matches Err(err) ==> reports_parts(
            err,
            *cred_def,
        ) || exists|
            registry: &mut cl::ClRevocationRegistry,
            max_cred_num: u32,
            key: cl::CredentialPublicKey,
            outcome: Result<cl::ClRevocationRegistryDelta, cl::ClError>,
        |
            {
                &&& *registry == rev_reg.value()
                &&& max_cred_num == rev_reg_def.v1().value.max_cred_num
                &&& key == cl::key_from_parts(
                    cred_def.v1().value.primary,
                    cred_def.v1().value.revocation,
                )
                &&& outcome matches Err(source) && err == Error::Signature(source)
                &&& #[trigger] call_ensures(
                    cl::Issuer::update_revocation_registry,
                    (registry, max_cred_num, issued, revoked, &key, &rev_reg_priv.value),
                    outcome,
                )
            },
{
}

/// `revoke_credential` revokes exactly the index that it is given, and issues none.
pub proof fn law_revocation_revokes_index(
    cred_def: &CredentialDefinition,
    rev_reg_def: &RevocationRegistryDefinition,
    rev_reg_def_private: &RevocationRegistryDefinitionPrivate,
    rev_reg: &RevocationRegistry,
    cred_rev_idx: u32,
    res: Result<(RevocationRegistry, RevocationRegistryDelta), Error>,
)
    requires
        call_ensures(
            issuer::revoke_credential,
            (cred_def, rev_reg_def, rev_reg_def_private, rev_reg, cred_rev_idx),
            res,
        ),
    ensures
        step_comes_to(
            res,
            *cred_def,
            rev_reg_def.v1().value.max_cred_num,
            rev_reg_def_private.value,
            rev_reg.value(),
            set![],
            set![cred_rev_idx],
        ),
        res matches Err(err) ==> reports_parts(
            err,
            *cred_def,
        ) || exists|
            registry: &mut cl::ClRevocationRegistry,
            max_cred_num: u32,
            key: cl::CredentialPublicKey,
            outcome: Result<cl::ClRevocationRegistryDelta, cl::ClError>,
        |
            {
                &&& *registry == rev_reg.value()
                &&& max_cred_num == rev_reg_def.v1().value.max_cred_num
                &&& key == cl::key_from_parts(
                    cred_def.v1().value.primary,
                    cred_def.v1().value.revocation,
                )
                &&& outcome matches Err(source) && err == Error::Signature(source)
                &&& #[trigger] call_ensures(
                    cl::Issuer::revoke_credential,
                    (registry, max_cred_num, cred_rev_idx, &key, &rev_reg_def_private.value),
                    outcome,
                )
            },
{
}

/// `unrevoke_credential` issues exactly the index that it is given, and revokes none.
pub proof fn law_undoing_issues_index(
    cred_def: &CredentialDefinition,
    rev_reg_def: &RevocationRegistryDefinition,
    rev_reg_priv: &RevocationRegistryDefinitionPrivate,
    rev_reg: &RevocationRegistry,
    cred_rev_idx: u32,
    res: Result<(RevocationRegistry, RevocationRegistryDelta), Error>,
)
    requires
        call_ensures(
            issuer::unrevoke_credential,
            (cred_def, rev_reg_def, rev_reg_priv, rev_reg, cred_rev_idx),
            res,
        ),
    ensures
        step_comes_to(
            res,
            *cred_def,
            rev_reg_def.v1().value.max_cred_num,
            rev_reg_priv.value,
            rev_reg.value(),
            set![cred_rev_idx],
            set![],
        ),
        res matches Err(err) ==> reports_parts(
            err,
            *cred_def,
        ) || exists|
            registry: &mut cl::ClRevocationRegistry,
            max_cred_num: u32,
            key: cl::CredentialPublicKey,
            outcome: Result<cl::ClRevocationRegistryDelta, cl::ClError>,
        |
            {
                &&& *registry == rev_reg.value()
                &&& max_cred_num == rev_reg_def.v1().value.max_cred_num
                &&& key == cl::key_from_parts(
                    cred_def.v1().value.primary,
                    cred_def.v1().value.revocation,
                )
                &&& outcome matches Err(source) && err == Error::Signature(source)
                &&& #[trigger] call_ensures(
                    cl::Issuer::unrevoke_credential,
                    (registry, max_cred_num, cred_rev_idx, &key, &rev_reg_priv.value),
                    outcome,
                )
            },
{
}

/// Revoking an index and issuing it again, for a definition whose revocation part was drawn,
/// gives back the accumulator, whatever the registry and the index.
pub proof fn law_undoing_gives_back_accumulator(
    cred_def: &CredentialDefinition,
    rev_reg_def: &RevocationRegistryDefinition,
    private: &RevocationRegistryDefinitionPrivate,
    before: &RevocationRegistry,
    index: u32,
    revoked: (RevocationRegistry, RevocationRegistryDelta),
    restored: (RevocationRegistry, RevocationRegistryDelta),
)
    requires
        cl::part_is_drawn(cred_def.v1().value.revocation),
        call_ensures(
            issuer::revoke_credential,
            (cred_def, rev_reg_def, private, before, index),
            Ok(revoked),
        ),
        call_ensures(
            issuer::unrevoke_credential,
            (cred_def, rev_reg_def, private, &revoked.0, index),
            Ok(restored),
        ),
    ensures
        cl::registry_accum(restored.0.value()) == cl::registry_accum(before.value()),
{
}

/// `merge_revocation_registry_deltas` succeeds exactly where the second delta starts from an
/// accumulator that equals the one that the first leads to. Then the merged delta leads from
/// where the first starts to where the second leads; it issues an index where the first does
/// and the second does not revoke it, or the second does and neither revokes it; and it revokes
/// an index where the first does and the second does not issue it, or the second does and
/// neither issues it.
pub proof fn law_merging_joins_steps(
    first: &RevocationRegistryDelta,
    second: &RevocationRegistryDelta,
    res: Result<RevocationRegistryDelta, Error>,
)
    requires
        call_ensures(issuer::merge_revocation_registry_deltas, (first, second), res),
    ensures
        res is Ok <==> (cl::delta_prev_accum(second.value()) matches Some(prev)
            && cl::accums_equal(cl::delta_accum(first.value()), prev)),
        cl::delta_prev_accum(second.value()) == Some(cl::delta_accum(first.value())) ==> res is Ok,
        res matches Err(err) ==> exists|
            delta: &mut cl::ClRevocationRegistryDelta,
            other: cl::ClRevocationRegistryDelta,
            outcome: Result<(), cl::ClError>,
        |
            {
                &&& *delta == first.value()
                &&& other == second.value()
                &&& outcome matches Err(source) && err == Error::Signature(source)
                &&& #[trigger] call_ensures(
                    cl::ClRevocationRegistryDelta::merge,
                    (delta, &other),
                    outcome,
                )
            },
        res matches Ok(merged) ==> {
            let (i1, r1) = (cl::delta_issued(first.value()), cl::delta_revoked(first.value()));
            let (i2, r2) = (cl::delta_issued(second.value()), cl::delta_revoked(second.value()));
            &&& cl::delta_prev_accum(merged.value()) == cl::delta_prev_accum(first.value())
            &&& cl::delta_accum(merged.value()) == cl::delta_accum(second.value())
            &&& forall|index: u32| #[trigger]
                cl::delta_issued(merged.value()).contains(index) <==> !r2.contains(index) && (
                i1.contains(index) || (i2.contains(index) && !r1.contains(index)))
            &&& i1.disjoint(r1) ==> forall|index: u32| #[trigger]
                cl::delta_revoked(merged.value()).contains(index) <==> !i2.contains(index) && (
                r1.contains(index) || (r2.contains(index) && !i1.contains(index)))
        },
{
}

// ---- offers ----

/// An offer of `create_credential_offer` is of the schema and the definition that were given,
/// with the correctness proof that was given, a nonce that was drawn, and no method. It fails
/// only where the drawing of a nonce or the copying of the proof failed, and that failure is
/// what lies behind the error.
pub proof fn law_offer_is_as_given(
    schema_id: &SchemaId,
    cred_def: &CredentialDefinition,
    correctness_proof: &CredentialKeyCorrectnessProof,
    res: Result<CredentialOffer, Error>,
)
    requires
        call_ensures(
            issuer::create_credential_offer,
            (schema_id, cred_def, correctness_proof),
            res,
        ),
    ensures
        match res {
            Ok(offer) => {
                &&& offer.schema_id == *schema_id
                &&& offer.cred_def_id == cred_def.v1().id
                &&& offer.key_correctness_proof == correctness_proof.value
                &&& offer.method_name is None
                &&& call_ensures(cl::Nonce::new, (), Ok(offer.nonce))
            },
            Err(err) => {
                ||| (err matches Error::Failure {
                    kind: ErrorKind::Unexpected,
                    message: Some(message),
                    cause: Some(Cause::Conversion(source)),
                } && message@ == "Error creating nonce"@ && call_ensures(
                    cl::Nonce::new,
                    (),
                    Err(source),
                ))
                ||| (err matches Error::Failure {
                    kind: ErrorKind::Unexpected,
                    message: None,
                    cause: Some(Cause::Signature(source)),
                } && call_ensures(
                    cl::ClKeyCorrectnessProof::try_clone,
                    (&correctness_proof.value,),
                    Err(source),
                ))
            },
        },
{
}

// ---- credentials ----

/// Values to be signed hold, under the known name of each entry, the number that the entry's own
/// encoded text stands for, unless a later entry has the same known name; and they hold nothing
/// under any other name.
#[verifier::opaque]
pub open spec fn holds_own_numbers(
    built: cl::ClCredentialValues,
    entries: Seq<(String, AttributeValues)>,
) -> bool {
    let numbers = cl::value_entries(built);
    &&& forall|attr: Seq<char>| #[trigger]
        numbers.contains_key(attr) <==> exists|i: int|
            0 <= i < entries.len() && attr == known_name((#[trigger] entries[i]).0@)
    &&& forall|i: int|
        0 <= i < entries.len() && (forall|j: int|
            i < j < entries.len() ==> known_name((#[trigger] entries[j]).0@) != known_name(
                entries[i].0@,
            )) ==> numbers[known_name((#[trigger] entries[i]).0@)] == cl::decimal_value(
            entries[i].1.encoded@,
        )
}

proof fn lemma_own_numbers(entries: Seq<(String, AttributeValues)>)
    ensures
        forall|attr: Seq<char>| #[trigger]
            helpers::encoded_entries(entries).contains_key(attr) <==> exists|i: int|
                0 <= i < entries.len() && attr == known_name((#[trigger] entries[i]).0@),
        forall|i: int|
            0 <= i < entries.len() && (forall|j: int|
                i < j < entries.len() ==> known_name((#[trigger] entries[j]).0@) != known_name(
                    entries[i].0@,
                )) ==> helpers::encoded_entries(entries)[known_name((#[trigger] entries[i]).0@)]
                == cl::decimal_value(entries[i].1.encoded@),
    decreases entries.len(),
{
    if entries.len() > 0 {
        let before = entries.drop_last();
        let last = entries.len() - 1;
        lemma_own_numbers(before);
        lemma_known_name(entries.last().0@);
        let numbers = helpers::encoded_entries(entries);
        assert(numbers == helpers::encoded_entries(before).insert(
            known_name(entries[last].0@),
            cl::decimal_value(entries[last].1.encoded@),
        ));
        assert forall|attr: Seq<char>| #[trigger]
            numbers.contains_key(attr) <==> exists|i: int|
                0 <= i < entries.len() && attr == known_name((#[trigger] entries[i]).0@) by {
            if helpers::encoded_entries(before).contains_key(attr) {
                let i = choose|i: int|
                    0 <= i < before.len() && attr == known_name((#[trigger] before[i]).0@);
                assert(attr == known_name(entries[i].0@));
            }
            if exists|i: int|
                0 <= i < entries.len() && attr == known_name((#[trigger] entries[i]).0@) {
                let i = choose|i: int|
                    0 <= i < entries.len() && attr == known_name((#[trigger] entries[i]).0@);
                if i < last {
                    assert(attr == known_name(before[i].0@));
                }
            }
        }
        assert forall|i: int|
            0 <= i < entries.len() && (forall|j: int|
                i < j < entries.len() ==> known_name((#[trigger] entries[j]).0@) != known_name(
                    entries[i].0@,
                )) implies numbers[known_name((#[trigger] entries[i]).0@)] == cl::decimal_value(
            entries[i].1.encoded@,
        ) by {
            if i < last {
                assert(known_name(entries[last].0@) != known_name(entries[i].0@));
                assert(before[i] == entries[i]);
                assert forall|j: int| i < j < before.len() implies known_name(
                    (#[trigger] before[j]).0@,
                ) != known_name(before[i].0@) by {
                    assert(before[j] == entries[j]);
                }
            }
        }
    }
}

/// An encoded value stands for no number, and the signature scheme refused it when it was added
/// under the known name of its entry; that failure is handed on.
pub open spec fn number_refused(err: Error, entries: Seq<(String, AttributeValues)>) -> bool {
    exists|
        i: int,
        builder: &mut cl::CredentialValuesBuilder,
        attr: &str,
        value: &str,
        outcome: Result<(), cl::ClError>,
    |
        {
            &&& 0 <= i < entries.len()
            &&& attr@ == known_name((#[trigger] entries[i]).0@)
            &&& value@ == entries[i].1.encoded@
            &&& cl::decimal_value(entries[i].1.encoded@) is None
            &&& outcome matches Err(source) && err == Error::Signature(source)
            &&& #[trigger] call_ensures(
                cl::CredentialValuesBuilder::add_dec_known,
                (builder, attr, value),
                outcome,
            )
        }
}

proof fn lemma_number_refused(err: Error, entries: Seq<(String, AttributeValues)>)
    requires
        helpers::value_not_read(err, entries),
    ensures
        number_refused(err, entries),
{
    assert forall|i: int| 0 <= i < entries.len() implies known_name((#[trigger] entries[i]).0@)
        == helpers::common_view(entries[i].0@) by {
        lemma_known_name(entries[i].0@);
    }
}

/// The values that `build_credential_values` makes hold each entry's own number under the known
/// name of the entry, for any number of entries. It refuses exactly the values of which an
/// encoded text stands for no number.
pub proof fn law_built_values_hold_own_numbers(
    values: &CredentialValues,
    res: Result<cl::ClCredentialValues, Error>,
)
    requires
        call_ensures(helpers::build_credential_values, (values,), res),
    ensures
        res is Err <==> exists|i: int|
            0 <= i < values@.len() && cl::decimal_value((#[trigger] values@[i]).1.encoded@) is None,
        res matches Err(err) ==> number_refused(err, values@),
        res matches Ok(built) ==> holds_own_numbers(built, values@),
{
    if let Err(err) = res {
        lemma_number_refused(err, values@);
    }
    reveal(holds_own_numbers);
    lemma_own_numbers(values@);
}

/// A signature, or a failure, is what one call of the signature scheme gave for the request, the
/// nonces of the offer and of the request, values that hold each entry's own number, and the
/// keys of the definition; and where an index of a registry is asked for, for that index, the
/// size and issuance of the registry, its state and its private key.
pub open spec fn signing_gave(
    outcome: Result<(cl::CredentialSignature, cl::SignatureCorrectnessProof), cl::ClError>,
    cred_def: CredentialDefinition,
    private: CredentialDefinitionPrivate,
    offer: CredentialOffer,
    request: CredentialRequest,
    entries: Seq<(String, AttributeValues)>,
    revocation: Option<CredentialRevocationConfig>,
) -> bool {
    let data = cred_def.v1().value;
    let key = cl::key_from_parts(data.primary, data.revocation);
    match revocation {
        None => exists|built: cl::ClCredentialValues|
            holds_own_numbers(built, entries) && #[trigger] cl::signed(
                request.prover_did@,
                request.blinded_ms,
                request.blinded_ms_correctness_proof,
                cl::nonce_number(offer.nonce),
                cl::nonce_number(request.nonce),
                built,
                key,
                private.value,
                outcome,
            ),
        Some(config) => exists|
            built: cl::ClCredentialValues,
            by_default: bool,
            after: cl::ClRevocationRegistry,
            full: Result<
                (
                    cl::CredentialSignature,
                    cl::SignatureCorrectnessProof,
                    cl::Witness,
                    Option<cl::ClRevocationRegistryDelta>,
                ),
                cl::ClError,
            >,
        |
            {
                &&& by_default == (config.reg_def.v1().value.issuance_type
                    == IssuanceType::ISSUANCE_BY_DEFAULT)
                &&& holds_own_numbers(built, entries)
                &&& #[trigger] cl::signed_with_index(
                    request.prover_did@,
                    request.blinded_ms,
                    request.blinded_ms_correctness_proof,
                    cl::nonce_number(offer.nonce),
                    cl::nonce_number(request.nonce),
                    built,
                    key,
                    private.value,
                    config.registry_idx,
                    config.reg_def.v1().value.max_cred_num,
                    by_default,
                    config.registry.value(),
                    config.reg_def_private.value,
                    after,
                    full,
                )
                &&& match full {
                    Ok((signature, signature_proof, _, _)) => outcome == Ok::<_, cl::ClError>(
                        (signature, signature_proof),
                    ),
                    Err(source) => outcome == Err::<
                        (cl::CredentialSignature, cl::SignatureCorrectnessProof),
                        _,
                    >(source),
                }
            },
    }
}

/// The signature of a credential is over each entry's own number, under the known name of the
/// entry, and over nothing else that is shown, whatever the number of entries; and the
/// credential tells the very values that were given.
pub proof fn law_credential_signs_own_numbers(
    cred_def: &CredentialDefinition,
    cred_def_private: &CredentialDefinitionPrivate,
    cred_offer: &CredentialOffer,
    cred_request: &CredentialRequest,
    cred_values: CredentialValues,
    revocation_config: Option<CredentialRevocationConfig>,
    issued: (Credential, Option<RevocationRegistry>, Option<RevocationRegistryDelta>),
)
    requires
        call_ensures(
            issuer::create_credential,
            (
                cred_def,
                cred_def_private,
                cred_offer,
                cred_request,
                cred_values,
                revocation_config,
            ),
            Ok(issued),
        ),
    ensures
        issued.0.values == cred_values,
        forall|i: int|
            0 <= i < cred_values@.len() ==> cl::decimal_value(
                (#[trigger] cred_values@[i]).1.encoded@,
            ) is Some,
        signing_gave(
            Ok((issued.0.signature, issued.0.signature_correctness_proof)),
            *cred_def,
            *cred_def_private,
            *cred_offer,
            *cred_request,
            cred_values@,
            revocation_config,
        ),
{
    lemma_signing(
        Ok(issued),
        *cred_def,
        *cred_def_private,
        *cred_offer,
        *cred_request,
        cred_values,
        revocation_config,
    );
}

proof fn lemma_built_values(
    built: cl::ClCredentialValues,
    entries: Seq<(String, AttributeValues)>,
)
    requires
        cl::value_entries(built) == helpers::encoded_entries(entries),
    ensures
        holds_own_numbers(built, entries),
{
    reveal(holds_own_numbers);
    lemma_own_numbers(entries);
}

proof fn lemma_signing(
    res: Result<(Credential, Option<RevocationRegistry>, Option<RevocationRegistryDelta>), Error>,
    cred_def: CredentialDefinition,
    private: CredentialDefinitionPrivate,
    offer: CredentialOffer,
    request: CredentialRequest,
    values: CredentialValues,
    revocation: Option<CredentialRevocationConfig>,
)
    requires
        issuer::issues(
            res,
            cred_def.v1().value.key(),
            private,
            offer,
            request,
            values,
            revocation,
        ),
        helpers::entries_are_numbers(values@),
    ensures
        res matches Ok(issued) ==> signing_gave(
            Ok((issued.0.signature, issued.0.signature_correctness_proof)),
            cred_def,
            private,
            offer,
            request,
            values@,
            revocation,
        ),
        res matches Err(err) ==> (err matches Error::Signature(source) && signing_gave(
            Err(source),
            cred_def,
            private,
            offer,
            request,
            values@,
            revocation,
        )),
{
    let key = cred_def.v1().value.key();
    match revocation {
        None => {
            let (built, signed) = choose|
                built: cl::ClCredentialValues,
                signed: Result<
                    (cl::CredentialSignature, cl::SignatureCorrectnessProof),
                    cl::ClError,
                >,
            | #[trigger]
                issuer::comes_of_signing(
                    res,
                    key,
                    private,
                    offer,
                    request,
                    values,
                    built,
                    signed,
                );
            lemma_built_values(built, values@);
            match signed {
                Ok((signature, signature_proof)) => {
                    let issued = res->Ok_0;
                    assert(signed == Ok::<_, cl::ClError>(
                        (issued.0.signature, issued.0.signature_correctness_proof),
                    ));
                },
                Err(source) => {
                    assert(res->Err_0 == Error::Signature(source));
                },
            }
        },
        Some(config) => {
            let (built, after, signed) = choose|
                built: cl::ClCredentialValues,
                after: cl::ClRevocationRegistry,
                signed: Result<
                    (
                        cl::CredentialSignature,
                        cl::SignatureCorrectnessProof,
                        cl::Witness,
                        Option<cl::ClRevocationRegistryDelta>,
                    ),
                    cl::ClError,
                >,
            | #[trigger]
                issuer::comes_of_signing_for_index(
                    res,
                    key,
                    private,
                    offer,
                    request,
                    values,
                    config,
                    built,
                    after,
                    signed,
                );
            lemma_built_values(built, values@);
            assert(cl::signed_with_index(
                request.prover_did@,
                request.blinded_ms,
                request.blinded_ms_correctness_proof,
                cl::nonce_number(offer.nonce),
                cl::nonce_number(request.nonce),
                built,
                key,
                private.value,
                config.registry_idx,
                config.reg_def.v1().value.max_cred_num,
                config.reg_def.v1().value.issuance_type == IssuanceType::ISSUANCE_BY_DEFAULT,
                config.registry.value(),
                config.reg_def_private.value,
                after,
                signed,
            ));
        },
    }
}

/// `create_credential` fails in three ways only. The definition's key could not be put together
/// from its parts, and that failure is what lies behind the error. Or an encoded value stands for
/// no number. Or the signature scheme failed, when it was given what it is to sign, and its
/// failure is handed on.
pub proof fn law_credential_fails_as_signing_does(
    cred_def: &CredentialDefinition,
    cred_def_private: &CredentialDefinitionPrivate,
    cred_offer: &CredentialOffer,
    cred_request: &CredentialRequest,
    cred_values: CredentialValues,
    revocation_config: Option<CredentialRevocationConfig>,
    err: Error,
)
    requires
        call_ensures(
            issuer::create_credential,
            (
                cred_def,
                cred_def_private,
                cred_offer,
                cred_request,
                cred_values,
                revocation_config,
            ),
            Err(err),
        ),
    ensures
        ({
            ||| (err matches Error::Failure {
                kind: ErrorKind::Input,
                message: Some(message),
                cause: Some(Cause::Signature(source)),
            } && message@ == "Credential definition does not support revocation"@ && parts_failed(
                *cred_def,
                source,
            ))
            ||| number_refused(err, cred_values@)
            ||| (err matches Error::Signature(source) && signing_gave(
                Err(source),
                *cred_def,
                *cred_def_private,
                *cred_offer,
                *cred_request,
                cred_values@,
                revocation_config,
            ))
        }),
{
    if !helpers::entries_are_numbers(cred_values@) && err is Signature {
        lemma_number_refused(err, cred_values@);
    }
    if helpers::entries_are_numbers(cred_values@) && err is Signature {
        lemma_signing(
            Err(err),
            *cred_def,
            *cred_def_private,
            *cred_offer,
            *cred_request,
            cred_values,
            revocation_config,
        );
    }
}

/// A credential is of the schema and the definition that were offered. With no registry it has
/// no trace of one. For an index of a registry, the index is one of the registry and the
/// signature tells it; the credential names the registry, without methods where the offer names
/// one, and has the state of it that is handed out and the witness of the index. Where indexes
/// count as issued from the start that state is the one before, and there is no delta; otherwise
/// the delta and the state are those of the step that issues the index.
pub proof fn law_credential_is_handed_out(
    cred_def: &CredentialDefinition,
    cred_def_private: &CredentialDefinitionPrivate,
    cred_offer: &CredentialOffer,
    cred_request: &CredentialRequest,
    cred_values: CredentialValues,
    revocation_config: Option<CredentialRevocationConfig>,
    issued: (Credential, Option<RevocationRegistry>, Option<RevocationRegistryDelta>),
)
    requires
        call_ensures(
            issuer::create_credential,
            (
                cred_def,
                cred_def_private,
                cred_offer,
                cred_request,
                cred_values,
                revocation_config,
            ),
            Ok(issued),
        ),
    ensures
        issued.0.schema_id == cred_offer.schema_id,
        issued.0.cred_def_id == cred_offer.cred_def_id,
        match revocation_config {
            None => {
                &&& issued.0.rev_reg_id is None
                &&& issued.0.rev_reg is None
                &&& issued.0.witness is None
                &&& cl::signature_index(issued.0.signature) is None
                &&& issued.1 is None
                &&& issued.2 is None
            },
            Some(config) => {
                let def = config.reg_def.v1();
                let data = cred_def.v1().value;
                let key = cl::key_from_parts(data.primary, data.revocation);
                let by_default = def.value.issuance_type == IssuanceType::ISSUANCE_BY_DEFAULT;
                &&& data.revocation is Some
                &&& 1 <= config.registry_idx <= def.value.max_cred_num
                &&& cl::signature_index(issued.0.signature) == Some(config.registry_idx)
                &&& issued.0.rev_reg_id is Some
                &&& (issued.0.rev_reg_id->0)@ == match cred_offer.method_name {
                    Some(_) => identifiers::rev_reg_id_unqualified(def.id@),
                    None => def.id@,
                }
                &&& issued.0.witness == Some(
                    cl::issued_witness(
                        config.registry.value(),
                        config.registry_idx,
                        def.value.max_cred_num,
                        by_default,
                        key,
                        config.reg_def_private.value,
                    ),
                )
                &&& issued.1 is Some
                &&& issued.0.rev_reg == Some((issued.1->0).value())
                &&& issued.2 is Some <==> !by_default
                &&& by_default ==> (issued.1->0).value() == config.registry.value()
                &&& !by_default ==> step_comes_to(
                    Ok((issued.1->0, issued.2->0)),
                    *cred_def,
                    def.value.max_cred_num,
                    config.reg_def_private.value,
                    config.registry.value(),
                    set![config.registry_idx],
                    set![],
                )
            },
        },
{
}

// ---- what can be asked for ----

/// Indexes that lie in a registry can be issued and revoked, one by one or together, whatever
/// its size, as long as its points are bounded and its private key is sound; and for a
/// definition without revocation, which refuses them, any index can be asked for.
pub proof fn law_indexes_can_be_asked_for(
    cred_def: &CredentialDefinition,
    rev_reg_def: &RevocationRegistryDefinition,
    private: &RevocationRegistryDefinitionPrivate,
    rev_reg: &RevocationRegistry,
    index: u32,
    issued: BTreeSet<u32>,
    revoked: BTreeSet<u32>,
)
    requires
        cred_def.v1().value.revocation matches Some(part) ==> {
            &&& rev_reg_def.v1().value.max_cred_num < u32::MAX
            &&& index <= rev_reg_def.v1().value.max_cred_num + 1
            &&& forall|i: u32| #[trigger]
                issued@.contains(i) ==> i <= rev_reg_def.v1().value.max_cred_num + 1
            &&& forall|i: u32| #[trigger]
                revoked@.contains(i) ==> i <= rev_reg_def.v1().value.max_cred_num + 1
            &&& forall|point: Seq<(int, int)>| #[trigger]
                cl::part_points(part).contains(point) ==> points::is_bounded(point)
            &&& points::is_bounded(cl::registry_point(rev_reg.value()))
            &&& 0 <= cl::registry_secret(private.value) < points::group_order()
        },
    ensures
        call_requires(
            issuer::revoke_credential,
            (cred_def, rev_reg_def, private, rev_reg, index),
        ),
        call_requires(
            issuer::unrevoke_credential,
            (cred_def, rev_reg_def, private, rev_reg, index),
        ),
        call_requires(
            issuer::update_revocation_registry,
            (cred_def, rev_reg_def, private, rev_reg, issued, revoked),
        ),
{
}

/// A registry can be asked for of any size whose tails can be counted, where the points of the
/// definition's key are bounded; and of any size at all where the definition does not support
/// revocation, which is refused.
pub proof fn law_registry_can_be_asked_for<TW: TailsWriter>(
    origin_did: &DidValue,
    cred_def: &CredentialDefinition,
    tag: &str,
    rev_reg_type: RegistryType,
    issuance_type: IssuanceType,
    max_cred_num: u32,
    tails_writer: &mut TW,
)
    requires
        cred_def.v1().value.revocation matches Some(part) ==> {
            &&& max_cred_num <= 2147483647
            &&& forall|point: Seq<(int, int)>| #[trigger]
                cl::part_points(part).contains(point) ==> points::is_bounded(point)
        },
    ensures
        call_requires(
            issuer::create_revocation_registry::<TW>,
            (
                origin_did,
                cred_def,
                tag,
                rev_reg_type,
                issuance_type,
                max_cred_num,
                tails_writer,
            ),
        ),
{
}

/// Deltas whose points are bounded can be merged.
pub proof fn law_bounded_deltas_can_be_merged(
    first: &RevocationRegistryDelta,
    second: &RevocationRegistryDelta,
)
    requires
        points::is_bounded(cl::delta_point(first.value())),
        cl::delta_prev_point(second.value()) matches Some(prev) ==> points::is_bounded(prev),
    ensures
        call_requires(issuer::merge_revocation_registry_deltas, (first, second)),
{
}

/// A credential can be asked for with any number of values, where no encoded value has a NUL
/// character and the proof of the request holds a value of each attribute that is hidden or
/// committed to; and for an index, where the points are bounded, the keys are sound and the
/// number of the index does not vanish.
pub proof fn law_credential_can_be_asked_for(
    cred_def: &CredentialDefinition,
    cred_def_private: &CredentialDefinitionPrivate,
    cred_offer: &CredentialOffer,
    cred_request: &CredentialRequest,
    cred_values: CredentialValues,
    revocation_config: Option<CredentialRevocationConfig>,
)
    requires
        forall|i: int|
            0 <= i < cred_values@.len() ==> !(#[trigger] cred_values@[i]).1.encoded@.contains('\0'),
        cl::hidden_attrs(cred_request.blinded_ms).subset_of(
            cl::value_cap_attrs(cred_request.blinded_ms_correctness_proof),
        ),
        cl::committed_attrs(cred_request.blinded_ms).subset_of(
            cl::value_cap_attrs(cred_request.blinded_ms_correctness_proof),
        ),
        cl::committed_attrs(cred_request.blinded_ms).subset_of(
            cl::blinding_cap_attrs(cred_request.blinded_ms_correctness_proof),
        ),
        revocation_config matches Some(config) ==> {
            let order = points::group_order();
            let gamma = cl::registry_secret(config.reg_def_private.value);
            &&& config.reg_def.v1().value.max_cred_num < u32::MAX
            &&& cl::secret_point(cred_request.blinded_ms) matches Some(point)
                ==> points::is_bounded(point)
            &&& cred_def.v1().value.revocation matches Some(part) ==> forall|
                point: Seq<(int, int)>,
            | #[trigger]
                cl::part_points(part).contains(point) ==> points::is_bounded(point)
            &&& points::is_bounded(cl::registry_point(config.registry.value()))
            &&& 0 <= gamma < order
            &&& cl::index_secrets(cred_def_private.value) matches Some((x, sk)) ==> {
                &&& 0 <= x < order
                &&& 0 <= sk < order
                &&& (sk + vstd::arithmetic::power::pow(gamma, config.registry_idx as nat)) % order
                    != 0
            }
        },
    ensures
        call_requires(
            issuer::create_credential,
            (
                cred_def,
                cred_def_private,
                cred_offer,
                cred_request,
                cred_values,
                revocation_config,
            ),
        ),
{
}

/// A point is bounded exactly where the counter of each coordinate lies between 1 and 262144 and
/// its number is not negative and below that many times the modulus of the field.
pub proof fn law_bounds_are_told(point: Seq<(int, int)>)
    ensures
        points::is_bounded(point) <==> forall|i: int|
            0 <= i < point.len() ==> {
                &&& 1 <= (#[trigger] point[i]).0 <= 262144
                &&& 0 <= point[i].1 < point[i].0
                    * 0x2523648240000001BA344D80000000086121000000000013A700000000000013int
            },
{
    assert(points::field_modulus()
        == 0x2523648240000001BA344D80000000086121000000000013A700000000000013int);
}

/// A character stands for a digit.
pub open spec fn stands_for(c: char, digit: int) -> bool {
    ||| 0 <= digit <= 9 && c as int == '0' as int + digit
    ||| 10 <= digit <= 15 && c as int == 'a' as int + digit - 10
    ||| 10 <= digit <= 15 && c as int == 'A' as int + digit - 10
}

/// A character stands for some digit of a base.
pub open spec fn is_digit(c: char, base: int) -> bool {
    exists|digit: int| 0 <= digit < base && #[trigger] stands_for(c, digit)
}

/// A word is read as a number exactly where each of its characters stands for a digit of the
/// base; and the digit at each place is then the one that the number has there, and none is
/// missing in front.
pub proof fn law_number_has_digits_of_word(word: Seq<char>, base: int)
    requires
        base == 10 || base == 16,
    ensures
        numbers::number_in(word, base) is Some <==> forall|i: int|
            0 <= i < word.len() ==> is_digit(#[trigger] word[i], base),
        numbers::number_in(word, base) matches Some(n) ==> {
            &&& 0 <= n < vstd::arithmetic::power::pow(base, word.len())
            &&& forall|i: int|
                0 <= i < word.len() ==> stands_for(
                    #[trigger] word[i],
                    (n / vstd::arithmetic::power::pow(base, (word.len() - 1 - i) as nat)) % base,
                )
        },
    decreases word.len(),
{
    vstd::arithmetic::power::lemma_pow0(base);
    if word.len() > 0 {
        let before = word.drop_last();
        let last = word.len() - 1;
        law_number_has_digits_of_word(before, base);
        assert forall|c: char, digit: int| 0 <= digit < base && #[trigger] stands_for(
            c,
            digit,
        ) implies numbers::digit_value(c) == Some(digit) by {}
        let value = numbers::digit_value(word[last]);
        if value is Some {
            assert(stands_for(word[last], value->0));
        }
        if numbers::number_in(word, base) is Some {
            let n = numbers::number_in(word, base)->0;
            let m = numbers::number_in(before, base)->0;
            let d = value->0;
            let top = (word.len() - 1) as nat;
            lemma_base_times(base, top);
            assert(n == m * base + d);
            assert((m + 1) * base <= vstd::arithmetic::power::pow(base, top) * base)
                by (nonlinear_arith)
                requires
                    m + 1 <= vstd::arithmetic::power::pow(base, top),
                    base > 0,
            ;
            assert(n < (m + 1) * base) by (nonlinear_arith)
                requires
                    n == m * base + d,
                    d < base,
            ;
            assert(vstd::arithmetic::power::pow(base, top) * base == base
                * vstd::arithmetic::power::pow(base, top)) by (nonlinear_arith);
            vstd::arithmetic::div_mod::lemma_fundamental_div_mod_converse(n, base, m, d);
            assert forall|i: int| 0 <= i < word.len() implies stands_for(
                #[trigger] word[i],
                (n / vstd::arithmetic::power::pow(base, (word.len() - 1 - i) as nat)) % base,
            ) by {
                if i < last {
                    assert(before[i] == word[i]);
                    let place = (last - 1 - i) as nat;
                    let weight = vstd::arithmetic::power::pow(base, place);
                    lemma_base_times(base, place);
                    vstd::arithmetic::div_mod::lemma_div_denominator(n, base, weight);
                    assert((word.len() - 1 - i) as nat == place + 1);
                    assert(m / weight == n / (base * weight));
                } else {
                    assert(n / 1 == n);
                }
            }
            assert forall|i: int| 0 <= i < word.len() implies is_digit(
                #[trigger] word[i],
                base,
            ) by {
                if i < last {
                    assert(before[i] == word[i]);
                }
            }
        } else if forall|i: int| 0 <= i < word.len() ==> is_digit(#[trigger] word[i], base) {
            assert forall|i: int| 0 <= i < before.len() implies is_digit(
                #[trigger] before[i],
                base,
            ) by {
                assert(before[i] == word[i]);
            }
            assert(is_digit(word[last], base));
        }
    }
}

proof fn lemma_base_times(base: int, place: nat)
    requires
        base > 0,
    ensures
        vstd::arithmetic::power::pow(base, place + 1) == base * vstd::arithmetic::power::pow(
            base,
            place,
        ),
        vstd::arithmetic::power::pow(base, place) > 0,
{
    vstd::arithmetic::power::lemma_pow_adds(base, 1, place);
    vstd::arithmetic::power::lemma_pow1(base);
    vstd::arithmetic::power::lemma_pow_positive(base, place);
}

} // verus!
