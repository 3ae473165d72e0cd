//! The `anoncreds_clsignatures` types that the library carries, and what it
//! relies on of the functions of that crate.
//!
//! The types are opaque here. What a value holds is spoken of through the spec
//! functions below. The accumulator of a registry, a point of a curve, is spoken of as a
//! number, the same one for all coordinates that stand for the point. Where the
//! coordinates themselves matter, they are spoken of as [`points`] has them.
use vstd::prelude::*;

use std::collections::{BTreeMap, BTreeSet};

use indy_utils::ConversionError;
use serde_json::Error as TextError;

use crate::names;
use crate::numbers;
use crate::points;

pub use indy_data_types::anoncreds::nonce::Nonce;
pub use indy_data_types::anoncreds_clsignatures::bn::BigNumber;
pub use indy_data_types::anoncreds_clsignatures::{
    BlindedCredentialSecrets, BlindedCredentialSecretsCorrectnessProof,
    CredentialKeyCorrectnessProof as ClKeyCorrectnessProof, CredentialPrimaryPublicKey,
    CredentialPrivateKey, CredentialPublicKey, CredentialRevocationPublicKey, CredentialSchema,
    CredentialSchemaBuilder, CredentialSignature, CredentialValues as ClCredentialValues,
    CredentialValuesBuilder, Error as ClError, Issuer, NonCredentialSchema,
    NonCredentialSchemaBuilder, RevocationKeyPrivate, RevocationKeyPublic,
    RevocationRegistry as ClRevocationRegistry,
    RevocationRegistryDelta as ClRevocationRegistryDelta, RevocationTailsGenerator,
    SignatureCorrectnessProof, Witness,
};

verus! {

/// A large number, carried as it is.
#[verifier::external_type_specification]
#[verifier::external_body]
pub struct ExBigNumber(BigNumber);

/// The secrets of a holder, blinded for the issuer.
#[verifier::external_type_specification]
#[verifier::external_body]
pub struct ExBlindedCredentialSecrets(BlindedCredentialSecrets);

/// The proof that blinded secrets are made as they should be.
#[verifier::external_type_specification]
#[verifier::external_body]
pub struct ExBlindedCredentialSecretsCorrectnessProof(BlindedCredentialSecretsCorrectnessProof);

/// The proof that the keys of a credential definition are sound.
#[verifier::external_type_specification]
#[verifier::external_body]
pub struct ExCredentialKeyCorrectnessProof(ClKeyCorrectnessProof);

/// The part of a public key that attributes are signed with.
#[verifier::external_type_specification]
#[verifier::external_body]
pub struct ExCredentialPrimaryPublicKey(CredentialPrimaryPublicKey);

/// The private key that belongs to a public key.
#[verifier::external_type_specification]
#[verifier::external_body]
pub struct ExCredentialPrivateKey(CredentialPrivateKey);

/// A public key, of a primary part and perhaps a revocation part.
#[verifier::external_type_specification]
#[verifier::external_body]
pub struct ExCredentialPublicKey(CredentialPublicKey);

/// The part of a public key that registry indexes are signed with.
#[verifier::external_type_specification]
#[verifier::external_body]
pub struct ExCredentialRevocationPublicKey(CredentialRevocationPublicKey);

/// The names of the attributes that a credential shows.
#[verifier::external_type_specification]
#[verifier::external_body]
pub struct ExCredentialSchema(CredentialSchema);

/// A schema in the making.
#[verifier::external_type_specification]
#[verifier::external_body]
pub struct ExCredentialSchemaBuilder(CredentialSchemaBuilder);

/// The signature of a credential.
#[verifier::external_type_specification]
#[verifier::external_body]
pub struct ExCredentialSignature(CredentialSignature);

/// The values that are signed.
#[verifier::external_type_specification]
#[verifier::external_body]
pub struct ExCredentialValues(ClCredentialValues);

/// Values in the making.
#[verifier::external_type_specification]
#[verifier::external_body]
pub struct ExCredentialValuesBuilder(CredentialValuesBuilder);

/// The error of the signature scheme.
#[verifier::external_type_specification]
#[verifier::external_body]
pub struct ExError(ClError);

/// The names of the attributes that a credential does not show.
#[verifier::external_type_specification]
#[verifier::external_body]
pub struct ExNonCredentialSchema(NonCredentialSchema);

/// A schema of attributes that are not shown, in the making.
#[verifier::external_type_specification]
#[verifier::external_body]
pub struct ExNonCredentialSchemaBuilder(NonCredentialSchemaBuilder);

/// The private key of a revocation registry.
#[verifier::external_type_specification]
#[verifier::external_body]
pub struct ExRevocationKeyPrivate(RevocationKeyPrivate);

/// The public key of a revocation registry.
#[verifier::external_type_specification]
#[verifier::external_body]
pub struct ExRevocationKeyPublic(RevocationKeyPublic);

/// The state of a revocation registry.
#[verifier::external_type_specification]
#[verifier::external_body]
pub struct ExRevocationRegistry(ClRevocationRegistry);

/// A step of a revocation registry.
#[verifier::external_type_specification]
#[verifier::external_body]
pub struct ExRevocationRegistryDelta(ClRevocationRegistryDelta);

/// The generator of the tails of a registry.
#[verifier::external_type_specification]
#[verifier::external_body]
pub struct ExRevocationTailsGenerator(RevocationTailsGenerator);

/// The proof that a signature is made as it should be.
#[verifier::external_type_specification]
#[verifier::external_body]
pub struct ExSignatureCorrectnessProof(SignatureCorrectnessProof);

/// The witness by which a holder shows that an index is not revoked.
#[verifier::external_type_specification]
#[verifier::external_body]
pub struct ExWitness(Witness);

/// A nonce, with its decimal form.
#[verifier::external_type_specification]
#[verifier::external_body]
pub struct ExNonce(Nonce);

// ---- credential schemas ----

/// The attribute names that a schema builder has been given.
pub uninterp spec fn schema_builder_attrs(builder: CredentialSchemaBuilder) -> Set<Seq<char>>;

/// The attribute names of a schema.
pub uninterp spec fn schema_attrs(schema: CredentialSchema) -> Set<Seq<char>>;

/// The attribute names that a builder of a non-credential schema has been given.
pub uninterp spec fn non_schema_builder_attrs(
    builder: NonCredentialSchemaBuilder,
) -> Set<Seq<char>>;

/// The attribute names of a non-credential schema.
pub uninterp spec fn non_schema_attrs(schema: NonCredentialSchema) -> Set<Seq<char>>;

/// `Issuer::new_credential_schema_builder` hands out a builder without attributes.
pub assume_specification[ Issuer::new_credential_schema_builder ]() -> (res: Result<
    CredentialSchemaBuilder,
    ClError,
>)
    ensures
        res is Ok,
        res matches Ok(builder) ==> schema_builder_attrs(builder).is_empty(),
;

/// `CredentialSchemaBuilder::add_attr` puts the name into the builder's set.
pub assume_specification[ CredentialSchemaBuilder::add_attr ](
    builder: &mut CredentialSchemaBuilder,
    attr: &str,
) -> (res: Result<(), ClError>)
    ensures
        res is Ok,
        schema_builder_attrs(*final(builder)) == schema_builder_attrs(*old(builder)).insert(attr@),
;

/// `CredentialSchemaBuilder::finalize` makes a schema of the names gathered.
pub assume_specification[ CredentialSchemaBuilder::finalize ](
    builder: CredentialSchemaBuilder,
) -> (res: Result<CredentialSchema, ClError>)
    ensures
        res is Ok,
        res matches Ok(schema) ==> schema_attrs(schema) == schema_builder_attrs(builder),
;

/// `Issuer::new_non_credential_schema_builder` hands out a builder without attributes.
pub assume_specification[ Issuer::new_non_credential_schema_builder ]() -> (res: Result<
    NonCredentialSchemaBuilder,
    ClError,
>)
    ensures
        res is Ok,
        res matches Ok(builder) ==> non_schema_builder_attrs(builder).is_empty(),
;

/// `NonCredentialSchemaBuilder::add_attr` puts the name into the builder's set.
pub assume_specification[ NonCredentialSchemaBuilder::add_attr ](
    builder: &mut NonCredentialSchemaBuilder,
    attr: &str,
) -> (res: Result<(), ClError>)
    ensures
        res is Ok,
        non_schema_builder_attrs(*final(builder)) == non_schema_builder_attrs(
            *old(builder),
        ).insert(attr@),
;

/// `NonCredentialSchemaBuilder::finalize` makes a schema of the names gathered.
pub assume_specification[ NonCredentialSchemaBuilder::finalize ](
    builder: NonCredentialSchemaBuilder,
) -> (res: Result<NonCredentialSchema, ClError>)
    ensures
        res is Ok,
        res matches Ok(schema) ==> non_schema_attrs(schema) == non_schema_builder_attrs(builder),
;

// ---- credential values ----

/// The number that `BigNumber::from_dec` reads from a decimal text, `None` where it
/// reads none.
pub uninterp spec fn decimal_value(text: Seq<char>) -> Option<int>;

/// What a builder of credential values has been given: each attribute name, with its
/// number where the value is one that the issuer knows.
pub uninterp spec fn values_builder_entries(builder: CredentialValuesBuilder) -> Map<
    Seq<char>,
    Option<int>,
>;

/// The attribute names of credential values, each with its number where the value is
/// one that the issuer knows.
pub uninterp spec fn value_entries(values: ClCredentialValues) -> Map<Seq<char>, Option<int>>;

/// `Issuer::new_credential_values_builder` hands out a builder without values.
pub assume_specification[ Issuer::new_credential_values_builder ]() -> (res: Result<
    CredentialValuesBuilder,
    ClError,
>)
    ensures
        res is Ok,
        res matches Ok(builder) ==> values_builder_entries(builder).dom().is_empty(),
;

/// `CredentialValuesBuilder::add_dec_known` reads the decimal text and sets the
/// attribute to the number, in place of any that it had. Where the text cannot be read
/// it fails and leaves the builder as it was. A text with a NUL character makes it
/// panic.
pub assume_specification[ CredentialValuesBuilder::add_dec_known ](
    builder: &mut CredentialValuesBuilder,
    attr: &str,
    value: &str,
) -> (res: Result<(), ClError>)
    requires
        !value@.contains('\0'),
    ensures
        res is Ok <==> decimal_value(value@) is Some,
        res is Ok ==> values_builder_entries(*final(builder)) == values_builder_entries(
            *old(builder),
        ).insert(attr@, decimal_value(value@)),
        res is Err ==> values_builder_entries(*final(builder)) == values_builder_entries(
            *old(builder),
        ),
;

/// `CredentialValuesBuilder::finalize` makes credential values of what was gathered.
pub assume_specification[ CredentialValuesBuilder::finalize ](
    builder: CredentialValuesBuilder,
) -> (res: Result<ClCredentialValues, ClError>)
    ensures
        res is Ok,
        res matches Ok(values) ==> value_entries(values) == values_builder_entries(builder),
;

// ---- credential keys ----

/// The part of a public key that signs attributes.
pub uninterp spec fn primary_key(key: CredentialPublicKey) -> CredentialPrimaryPublicKey;

/// The part of a public key that signs non-revocation, where there is one.
pub uninterp spec fn revocation_key(key: CredentialPublicKey) -> Option<
    CredentialRevocationPublicKey,
>;

/// The public key that `CredentialPublicKey::build_from_parts` makes of its two parts.
pub uninterp spec fn key_from_parts(
    primary: CredentialPrimaryPublicKey,
    revocation: Option<CredentialRevocationPublicKey>,
) -> CredentialPublicKey;

/// The part that an optional reference to one points to.
pub open spec fn part_of(part: Option<&CredentialRevocationPublicKey>) -> Option<
    CredentialRevocationPublicKey,
> {
    match part {
        Some(part) => Some(*part),
        None => None,
    }
}

/// The points of a revocation part.
pub uninterp spec fn part_points(part: CredentialRevocationPublicKey) -> Set<Seq<(int, int)>>;

/// Each point of a revocation part is bounded.
pub open spec fn part_is_bounded(part: CredentialRevocationPublicKey) -> bool {
    forall|point: Seq<(int, int)>| #[trigger]
        part_points(part).contains(point) ==> points::is_bounded(point)
}

/// Each point of a revocation part can be written.
pub open spec fn part_fits(part: CredentialRevocationPublicKey) -> bool {
    forall|point: Seq<(int, int)>| #[trigger]
        part_points(part).contains(point) ==> points::fits(point)
}

/// The texts of the points of a revocation part, read from the JSON form that
/// `serde_json::to_value` gives it: an object of texts, one for each point. A point that cannot
/// be written makes it panic.
#[verifier::external_body]
pub(crate) fn part_texts(part: &CredentialRevocationPublicKey) -> (res: Option<Vec<String>>)
    requires
        part_fits(*part),
    ensures
        res is Some,
        res matches Some(texts) ==> points::texts_show_points(texts@),
        res matches Some(texts) ==> points::points_shown(texts@) == part_points(*part),
{
    let json = serde_json::to_value(part).ok()?;
    let texts = json.as_object()?.values();
    texts.map(|text| text.as_str().map(str::to_owned)).collect()
}

/// The two numbers of the revocation part of a private key, where it has one: the one that a
/// signature for an index is divided by once a random number is added, and the one that its
/// witness is divided by once the power of a registry's number is added.
pub uninterp spec fn index_secrets(private: CredentialPrivateKey) -> Option<(int, int)>;

/// The numbers of the revocation part of a private key can be written.
pub open spec fn index_secrets_fit(private: CredentialPrivateKey) -> bool {
    index_secrets(private) matches Some((x, sk)) ==> numbers::fits(x) && numbers::fits(sk)
}

/// The numbers of the revocation part of a private key, in hexadecimal digits, read from the
/// JSON form that `serde_json::to_value` gives the key. It fails where a number of the primary
/// part cannot be printed, which rests on the machine and is not said. A number of the
/// revocation part that is negative is written as another one, and one that is too large makes
/// it panic.
#[verifier::external_body]
pub(crate) fn index_secret_texts(private: &CredentialPrivateKey) -> (res: Result<
    Option<(String, String)>,
    TextError,
>)
    requires
        index_secrets_fit(*private),
    ensures
        res matches Ok(texts) ==> (texts is Some <==> index_secrets(*private) is Some),
        res matches Ok(Some((x, sk))) ==> numbers::number_in(x@, 16) == Some(
            (index_secrets(*private)->0).0,
        ),
        res matches Ok(Some((x, sk))) ==> numbers::number_in(sk@, 16) == Some(
            (index_secrets(*private)->0).1,
        ),
{
    let json = serde_json::to_value(private)?;
    let (x, sk) = (json["r_key"]["x"].as_str(), json["r_key"]["sk"].as_str());
    Ok(x.zip(sk).map(|(x, sk)| (x.to_owned(), sk.to_owned())))
}

/// The numbers of the revocation part of a private key are below the order of the groups.
pub open spec fn index_secrets_are_sound(private: CredentialPrivateKey) -> bool {
    index_secrets(private) matches Some((x, sk)) ==> {
        &&& 0 <= x < points::group_order()
        &&& 0 <= sk < points::group_order()
    }
}

/// The names of the attributes that a primary key signs.
pub uninterp spec fn key_attrs(key: CredentialPrimaryPublicKey) -> Set<Seq<char>>;

/// Holds of what one call of `Issuer::new_credential_def` returned for a schema, a
/// non-credential schema and a choice of revocation support.
pub uninterp spec fn generated_keys(
    schema: CredentialSchema,
    non_schema: NonCredentialSchema,
    support_revocation: bool,
    key: CredentialPublicKey,
    private: CredentialPrivateKey,
    key_proof: ClKeyCorrectnessProof,
) -> bool;

/// The revocation part is one that `Issuer::new_credential_def` drew.
pub open spec fn part_is_drawn(part: Option<CredentialRevocationPublicKey>) -> bool {
    exists|
        schema: CredentialSchema,
        non_schema: NonCredentialSchema,
        support_revocation: bool,
        key: CredentialPublicKey,
        private: CredentialPrivateKey,
        key_proof: ClKeyCorrectnessProof,
    |
        #[trigger] generated_keys(schema, non_schema, support_revocation, key, private, key_proof)
            && revocation_key(key) == part
}

/// `Issuer::new_credential_def` makes fresh keys, and the proof that they are sound.
/// The primary key signs the attributes of both schemas, and there is a revocation key
/// exactly where it was asked for, whose points are bounded and whose private numbers are below
/// the order of the groups. A schema without attributes is refused. The numbers in the keys are
/// random, so nothing more is said of them.
pub assume_specification[ Issuer::new_credential_def ](
    credential_schema: &CredentialSchema,
    non_credential_schema: &NonCredentialSchema,
    support_revocation: bool,
) -> (res: Result<
    (CredentialPublicKey, CredentialPrivateKey, ClKeyCorrectnessProof),
    ClError,
>)
    ensures
        schema_attrs(*credential_schema).is_empty() ==> res is Err,
        res matches Ok((key, private, key_proof)) ==> generated_keys(
            *credential_schema,
            *non_credential_schema,
            support_revocation,
            key,
            private,
            key_proof,
        ),
        res matches Ok((key, private, key_proof)) ==> key_attrs(primary_key(key)) == schema_attrs(
            *credential_schema,
        ).union(non_schema_attrs(*non_credential_schema)),
        res matches Ok((key, private, key_proof)) ==> (revocation_key(key) is Some
            <==> support_revocation),
        res matches Ok((key, private, key_proof)) ==> (revocation_key(key) matches Some(part)
            ==> part_is_bounded(part)),
        res matches Ok((key, private, key_proof)) ==> (index_secrets(private) is Some
            <==> support_revocation),
        res matches Ok((key, private, key_proof)) ==> index_secrets_are_sound(private),
;

/// `CredentialPublicKey::get_primary_key` gives the primary part.
pub assume_specification[ CredentialPublicKey::get_primary_key ](key: &CredentialPublicKey) -> (res:
    &CredentialPrimaryPublicKey)
    ensures
        *res == primary_key(*key),
;

/// `CredentialPublicKey::get_revocation_key` gives the revocation part.
pub assume_specification[ CredentialPublicKey::get_revocation_key ](
    key: &CredentialPublicKey,
) -> (res: Option<&CredentialRevocationPublicKey>)
    ensures
        part_of(res) == revocation_key(*key),
;

/// `CredentialPublicKey::build_from_parts` puts copies of the two parts together. It
/// fails only where a number of the primary key cannot be copied.
pub assume_specification[ CredentialPublicKey::build_from_parts ](
    p_key: &CredentialPrimaryPublicKey,
    r_key: Option<&CredentialRevocationPublicKey>,
) -> (res: Result<CredentialPublicKey, ClError>)
    ensures
        res matches Ok(key) ==> key == key_from_parts(*p_key, part_of(r_key)),
        res matches Ok(key) ==> primary_key(key) == *p_key,
        res matches Ok(key) ==> revocation_key(key) == part_of(r_key),
;

/// `CredentialPrimaryPublicKey::try_clone` copies the key, or fails where a number
/// cannot be copied.
pub assume_specification[ CredentialPrimaryPublicKey::try_clone ](
    key: &CredentialPrimaryPublicKey,
) -> (res: Result<CredentialPrimaryPublicKey, ClError>)
    ensures
        res matches Ok(copy) ==> copy == *key,
;

/// The clone of a `CredentialRevocationPublicKey` is the same key.
pub assume_specification[ <CredentialRevocationPublicKey as Clone>::clone ](
    key: &CredentialRevocationPublicKey,
) -> (res: CredentialRevocationPublicKey)
    ensures
        res == *key,
;

/// `CredentialKeyCorrectnessProof::try_clone` copies the proof, or fails where a number
/// cannot be copied.
pub assume_specification[ ClKeyCorrectnessProof::try_clone ](
    key_proof: &ClKeyCorrectnessProof,
) -> (res: Result<ClKeyCorrectnessProof, ClError>)
    ensures
        res matches Ok(copy) ==> copy == *key_proof,
;

// ---- revocation registries ----

/// The accumulator of a registry.
pub uninterp spec fn registry_accum(registry: ClRevocationRegistry) -> int;

/// The point of a registry's accumulator.
pub uninterp spec fn registry_point(registry: ClRevocationRegistry) -> Seq<(int, int)>;

/// The text of a registry's point, read from the JSON form that `serde_json::to_value` gives
/// the registry. A point that cannot be written makes it panic.
#[verifier::external_body]
pub(crate) fn registry_text(registry: &ClRevocationRegistry) -> (res: Option<String>)
    requires
        points::fits(registry_point(*registry)),
    ensures
        res is Some,
        res matches Some(text) ==> points::point_of(text@) == Some(registry_point(*registry)),
{
    let json = serde_json::to_value(registry).ok()?;
    json["accum"].as_str().map(str::to_owned)
}

/// The point of the accumulator that a delta starts from, where it starts from one.
pub uninterp spec fn delta_prev_point(delta: ClRevocationRegistryDelta) -> Option<
    Seq<(int, int)>,
>;

/// The point of the accumulator that a delta leads to.
pub uninterp spec fn delta_point(delta: ClRevocationRegistryDelta) -> Seq<(int, int)>;

/// The points of a delta are bounded.
pub open spec fn delta_is_bounded(delta: ClRevocationRegistryDelta) -> bool {
    &&& points::is_bounded(delta_point(delta))
    &&& delta_prev_point(delta) matches Some(prev) ==> points::is_bounded(prev)
}

/// The points of a delta can be written.
pub open spec fn delta_fits(delta: ClRevocationRegistryDelta) -> bool {
    &&& points::fits(delta_point(delta))
    &&& delta_prev_point(delta) matches Some(prev) ==> points::fits(prev)
}

/// The texts of the points that a delta starts from and leads to, read from the JSON form
/// that `serde_json::to_value` gives the delta. A point that cannot be written makes it panic.
#[verifier::external_body]
pub(crate) fn delta_texts(delta: &ClRevocationRegistryDelta) -> (res: Option<
    (Option<String>, String),
>)
    requires
        delta_fits(*delta),
    ensures
        res is Some,
        res matches Some((None, text)) ==> delta_prev_point(*delta) is None,
        res matches Some((Some(prev), text)) ==> delta_prev_point(*delta) is Some,
        res matches Some((Some(prev), text)) ==> points::point_of(prev@) == delta_prev_point(
            *delta,
        ),
        res matches Some((prev, text)) ==> points::point_of(text@) == Some(delta_point(*delta)),
{
    let json = serde_json::to_value(delta).ok()?;
    let prev = json["prevAccum"].as_str().map(str::to_owned);
    Some((prev, json["accum"].as_str()?.to_owned()))
}

/// The number of a registry's private key.
pub uninterp spec fn registry_secret(private: RevocationKeyPrivate) -> int;

/// The number of a registry's private key, in hexadecimal digits, read from the JSON form
/// that `serde_json::to_value` gives the key. A negative number is written as another one, and
/// one that is too large makes it panic.
#[verifier::external_body]
pub(crate) fn registry_secret_text(private: &RevocationKeyPrivate) -> (res: Option<String>)
    requires
        numbers::fits(registry_secret(*private)),
    ensures
        res is Some,
        res matches Some(text) ==> numbers::number_in(text@, 16) == Some(
            registry_secret(*private),
        ),
{
    let json = serde_json::to_value(private).ok()?;
    json["gamma"].as_str().map(str::to_owned)
}

/// The number of a registry's private key is one below the order of the groups.
pub open spec fn registry_key_is_sound(private: RevocationKeyPrivate) -> bool {
    0 <= registry_secret(private) < points::group_order()
}

/// The arithmetic of a step can be done: the points are bounded and the key is sound.
pub open spec fn can_step(
    part: CredentialRevocationPublicKey,
    registry: ClRevocationRegistry,
    private: RevocationKeyPrivate,
) -> bool {
    &&& part_is_bounded(part)
    &&& points::is_bounded(registry_point(registry))
    &&& registry_key_is_sound(private)
}

/// The accumulator that a delta starts from, where it starts from one.
pub uninterp spec fn delta_prev_accum(delta: ClRevocationRegistryDelta) -> Option<int>;

/// The accumulator that a delta leads to.
pub uninterp spec fn delta_accum(delta: ClRevocationRegistryDelta) -> int;

/// The indexes that a delta issues.
pub uninterp spec fn delta_issued(delta: ClRevocationRegistryDelta) -> Set<u32>;

/// The indexes that a delta revokes.
pub uninterp spec fn delta_revoked(delta: ClRevocationRegistryDelta) -> Set<u32>;

/// The accumulator that `Issuer::update_revocation_registry` computes from another one,
/// the size of the registry, the indexes to issue and to revoke, and the keys.
pub uninterp spec fn updated_accum(
    accum: int,
    max_cred_num: u32,
    issued: Set<u32>,
    revoked: Set<u32>,
    key: CredentialPublicKey,
    private: RevocationKeyPrivate,
) -> int;

/// The accumulator that `RevocationRegistry::initial_state` starts a registry with.
pub uninterp spec fn initial_accum(
    key: CredentialPublicKey,
    private: RevocationKeyPrivate,
    max_cred_num: u32,
    issuance_by_default: bool,
) -> int;

/// The public key of a registry, which goes with its private key.
pub uninterp spec fn registry_public_key(
    key: CredentialPublicKey,
    private: RevocationKeyPrivate,
    max_cred_num: u32,
) -> RevocationKeyPublic;

/// The generator of a registry's tails that `Issuer::revocation_tails_generator` makes.
pub uninterp spec fn tails_generator(
    key: CredentialPublicKey,
    private: RevocationKeyPrivate,
    max_cred_num: u32,
) -> RevocationTailsGenerator;

/// The tail of an index stands at `max_cred_num + 1 - index`, which has to be a `u32`,
/// as `max_cred_num + 1` has.
pub open spec fn has_tail(max_cred_num: u32, index: u32) -> bool {
    max_cred_num < u32::MAX && index <= max_cred_num + 1
}

/// Whether `==` holds of two accumulators.
pub uninterp spec fn accums_equal(first: int, second: int) -> bool;

/// What a delta tells: where it starts and leads, and which indexes it moves.
pub open spec fn delta_is(
    delta: ClRevocationRegistryDelta,
    prev_accum: Option<int>,
    accum: int,
    issued: Set<u32>,
    revoked: Set<u32>,
) -> bool {
    &&& delta_prev_accum(delta) == prev_accum
    &&& delta_accum(delta) == accum
    &&& delta_issued(delta) == issued
    &&& delta_revoked(delta) == revoked
}

/// `Issuer::new_revocation_registry_def` draws a private key and derives the rest from
/// it: the public key, the first state of the registry and the generator of its tails.
/// It fails exactly where the credential key has no revocation part. The generator
/// counts `2 * max_cred_num + 1` tails, which has to be a `u32`, and the points of the
/// revocation part have to be bounded, as that of the registry then is.
pub assume_specification[ Issuer::new_revocation_registry_def ](
    credential_pub_key: &CredentialPublicKey,
    max_cred_num: u32,
    issuance_by_default: bool,
) -> (res: Result<
    (RevocationKeyPublic, RevocationKeyPrivate, ClRevocationRegistry, RevocationTailsGenerator),
    ClError,
>)
    requires
        revocation_key(*credential_pub_key) matches Some(part) ==> 2 * max_cred_num + 1
            <= u32::MAX && part_is_bounded(part),
    ensures
        res is Ok <==> revocation_key(*credential_pub_key) is Some,
        res matches Ok((public, private, registry, generator)) ==> public == registry_public_key(
            *credential_pub_key,
            private,
            max_cred_num,
        ),
        res matches Ok((public, private, registry, generator)) ==> registry_accum(registry)
            == initial_accum(*credential_pub_key, private, max_cred_num, issuance_by_default),
        res matches Ok((public, private, registry, generator)) ==> points::is_bounded(
            registry_point(registry),
        ),
        res matches Ok((public, private, registry, generator)) ==> registry_key_is_sound(private),
        res matches Ok((public, private, registry, generator)) ==> generator == tails_generator(
            *credential_pub_key,
            private,
            max_cred_num,
        ),
;

/// `Issuer::update_revocation_registry` moves the registry to the accumulator with the
/// indexes issued and revoked, and returns the delta from the old state to the new one.
/// It fails exactly where the credential key has no revocation part, and with no index
/// at all the accumulator stays. The points of a revocation part that was drawn have the
/// order of the group, so that with such a part the update that issues what was revoked
/// and revokes what was issued leads back. Where an index moves, the points have to be
/// bounded and the private key sound; a registry whose point is bounded keeps it so.
pub assume_specification[ Issuer::update_revocation_registry ](
    rev_reg: &mut ClRevocationRegistry,
    max_cred_num: u32,
    issued: BTreeSet<u32>,
    revoked: BTreeSet<u32>,
    credential_pub_key: &CredentialPublicKey,
    rev_key_priv: &RevocationKeyPrivate,
) -> (res: Result<ClRevocationRegistryDelta, ClError>)
    requires
        revocation_key(*credential_pub_key) is Some ==> forall|index: u32|
            issued@.contains(index) || revoked@.contains(index) ==> #[trigger] has_tail(
                max_cred_num,
                index,
            ),
        !issued@.is_empty() || !revoked@.is_empty() ==> (revocation_key(
            *credential_pub_key,
        ) matches Some(part) ==> can_step(part, *old(rev_reg), *rev_key_priv)),
    ensures
        res is Ok <==> revocation_key(*credential_pub_key) is Some,
        res is Ok ==> registry_accum(*final(rev_reg)) == updated_accum(
            registry_accum(*old(rev_reg)),
            max_cred_num,
            issued@,
            revoked@,
            *credential_pub_key,
            *rev_key_priv,
        ),
        res is Ok && issued@.is_empty() && revoked@.is_empty() ==> registry_accum(*final(rev_reg))
            == registry_accum(*old(rev_reg)),
        res is Ok && part_is_drawn(revocation_key(*credential_pub_key)) ==> updated_accum(
            registry_accum(*final(rev_reg)),
            max_cred_num,
            revoked@,
            issued@,
            *credential_pub_key,
            *rev_key_priv,
        ) == registry_accum(*old(rev_reg)),
        res matches Ok(delta) ==> delta_is(
            delta,
            Some(registry_accum(*old(rev_reg))),
            registry_accum(*final(rev_reg)),
            issued@,
            revoked@,
        ),
        res is Ok && points::is_bounded(registry_point(*old(rev_reg))) ==> points::is_bounded(
            registry_point(*final(rev_reg)),
        ),
        res matches Ok(delta) ==> delta_prev_point(delta) == Some(registry_point(*old(rev_reg))),
        res matches Ok(delta) ==> delta_point(delta) == registry_point(*final(rev_reg)),
;

/// `Issuer::revoke_credential` is the update that revokes one index. With a revocation part
/// that was drawn, the update that issues the index leads back.
pub assume_specification[ Issuer::revoke_credential ](
    rev_reg: &mut ClRevocationRegistry,
    max_cred_num: u32,
    rev_idx: u32,
    credential_pub_key: &CredentialPublicKey,
    rev_key_priv: &RevocationKeyPrivate,
) -> (res: Result<ClRevocationRegistryDelta, ClError>)
    requires
        revocation_key(*credential_pub_key) matches Some(part) ==> has_tail(max_cred_num, rev_idx)
            && can_step(part, *old(rev_reg), *rev_key_priv),
    ensures
        res is Ok <==> revocation_key(*credential_pub_key) is Some,
        res is Ok ==> registry_accum(*final(rev_reg)) == updated_accum(
            registry_accum(*old(rev_reg)),
            max_cred_num,
            set![],
            set![rev_idx],
            *credential_pub_key,
            *rev_key_priv,
        ),
        res is Ok && part_is_drawn(revocation_key(*credential_pub_key)) ==> updated_accum(
            registry_accum(*final(rev_reg)),
            max_cred_num,
            set![rev_idx],
            set![],
            *credential_pub_key,
            *rev_key_priv,
        ) == registry_accum(*old(rev_reg)),
        res matches Ok(delta) ==> delta_is(
            delta,
            Some(registry_accum(*old(rev_reg))),
            registry_accum(*final(rev_reg)),
            set![],
            set![rev_idx],
        ),
        res is Ok && points::is_bounded(registry_point(*old(rev_reg))) ==> points::is_bounded(
            registry_point(*final(rev_reg)),
        ),
        res matches Ok(delta) ==> delta_prev_point(delta) == Some(registry_point(*old(rev_reg))),
        res matches Ok(delta) ==> delta_point(delta) == registry_point(*final(rev_reg)),
;

/// `Issuer::unrevoke_credential` is the update that issues one index. With a revocation part
/// that was drawn, the update that revokes the index leads back.
pub assume_specification[ Issuer::unrevoke_credential ](
    rev_reg: &mut ClRevocationRegistry,
    max_cred_num: u32,
    rev_idx: u32,
    credential_pub_key: &CredentialPublicKey,
    rev_key_priv: &RevocationKeyPrivate,
) -> (res: Result<ClRevocationRegistryDelta, ClError>)
    requires
        revocation_key(*credential_pub_key) matches Some(part) ==> has_tail(max_cred_num, rev_idx)
            && can_step(part, *old(rev_reg), *rev_key_priv),
    ensures
        res is Ok <==> revocation_key(*credential_pub_key) is Some,
        res is Ok ==> registry_accum(*final(rev_reg)) == updated_accum(
            registry_accum(*old(rev_reg)),
            max_cred_num,
            set![rev_idx],
            set![],
            *credential_pub_key,
            *rev_key_priv,
        ),
        res is Ok && part_is_drawn(revocation_key(*credential_pub_key)) ==> updated_accum(
            registry_accum(*final(rev_reg)),
            max_cred_num,
            set![],
            set![rev_idx],
            *credential_pub_key,
            *rev_key_priv,
        ) == registry_accum(*old(rev_reg)),
        res matches Ok(delta) ==> delta_is(
            delta,
            Some(registry_accum(*old(rev_reg))),
            registry_accum(*final(rev_reg)),
            set![rev_idx],
            set![],
        ),
        res is Ok && points::is_bounded(registry_point(*old(rev_reg))) ==> points::is_bounded(
            registry_point(*final(rev_reg)),
        ),
        res matches Ok(delta) ==> delta_prev_point(delta) == Some(registry_point(*old(rev_reg))),
        res matches Ok(delta) ==> delta_point(delta) == registry_point(*final(rev_reg)),
;

/// The clone of a `RevocationRegistry` is the same registry.
pub assume_specification[ <ClRevocationRegistry as Clone>::clone ](
    registry: &ClRevocationRegistry,
) -> (res: ClRevocationRegistry)
    ensures
        res == *registry,
;

/// The clone of a `RevocationRegistryDelta` is the same delta.
pub assume_specification[ <ClRevocationRegistryDelta as Clone>::clone ](
    delta: &ClRevocationRegistryDelta,
) -> (res: ClRevocationRegistryDelta)
    ensures
        res == *delta,
;

/// The indexes that are issued once `second` has followed `first`: an index that the
/// one revokes and the other issues cancels out.
pub open spec fn merged_issued(
    first: ClRevocationRegistryDelta,
    second: ClRevocationRegistryDelta,
) -> Set<u32> {
    delta_issued(first).union(
        delta_issued(second).difference(delta_revoked(first)),
    ).difference(delta_revoked(second))
}

/// The indexes that are revoked once `second` has followed `first`.
pub open spec fn merged_revoked(
    first: ClRevocationRegistryDelta,
    second: ClRevocationRegistryDelta,
) -> Set<u32> {
    let issued = delta_issued(first).union(
        delta_issued(second).difference(delta_revoked(first)),
    );
    delta_revoked(first).union(delta_revoked(second).difference(issued)).difference(
        delta_issued(second),
    )
}

/// `RevocationRegistryDelta::merge` succeeds exactly where the other delta starts from an
/// accumulator that equals the one that this delta leads to, as an accumulator equals
/// itself; this delta then covers both steps. The points of the accumulators that it
/// compares have to be bounded.
pub assume_specification[ ClRevocationRegistryDelta::merge ](
    delta: &mut ClRevocationRegistryDelta,
    other_delta: &ClRevocationRegistryDelta,
) -> (res: Result<(), ClError>)
    requires
        delta_prev_point(*other_delta) matches Some(prev) ==> points::is_bounded(prev)
            && points::is_bounded(delta_point(*old(delta))),
    ensures
        res is Ok <==> (delta_prev_accum(*other_delta) matches Some(prev) && accums_equal(
            delta_accum(*old(delta)),
            prev,
        )),
        delta_prev_accum(*other_delta) == Some(delta_accum(*old(delta))) ==> res is Ok,
        res is Ok ==> delta_prev_accum(*final(delta)) == delta_prev_accum(*old(delta)),
        res is Ok ==> delta_accum(*final(delta)) == delta_accum(*other_delta),
        res is Ok ==> delta_prev_point(*final(delta)) == delta_prev_point(*old(delta)),
        res is Ok ==> delta_point(*final(delta)) == delta_point(*other_delta),
        res is Ok ==> delta_issued(*final(delta)) == merged_issued(*old(delta), *other_delta),
        res is Ok ==> delta_revoked(*final(delta)) == merged_revoked(*old(delta), *other_delta),
;

// ---- signatures ----

/// The number that a nonce stands for.
pub uninterp spec fn nonce_number(nonce: Nonce) -> BigNumber;

/// `Nonce::as_native` gives the number of a nonce.
pub assume_specification[ Nonce::as_native ](nonce: &Nonce) -> (res: &BigNumber)
    ensures
        *res == nonce_number(*nonce),
;

/// Holds of the nonce that one call of `Nonce::new` returned.
pub uninterp spec fn nonce_is_drawn(nonce: Nonce) -> bool;

/// `Nonce::new` draws a nonce; nothing is said of which.
pub assume_specification[ Nonce::new ]() -> (res: Result<Nonce, ConversionError>)
    ensures
        res matches Ok(nonce) ==> nonce_is_drawn(nonce),
;

/// The attributes that blinded secrets keep hidden.
pub uninterp spec fn hidden_attrs(secrets: BlindedCredentialSecrets) -> Set<Seq<char>>;

/// The attributes that blinded secrets commit to.
pub uninterp spec fn committed_attrs(secrets: BlindedCredentialSecrets) -> Set<Seq<char>>;

/// The attributes of which a correctness proof holds a value.
pub uninterp spec fn value_cap_attrs(
    secrets_proof: BlindedCredentialSecretsCorrectnessProof,
) -> Set<Seq<char>>;

/// The attributes of which a correctness proof holds a blinding value.
pub uninterp spec fn blinding_cap_attrs(
    secrets_proof: BlindedCredentialSecretsCorrectnessProof,
) -> Set<Seq<char>>;

/// The registry index that `CredentialSignature::extract_index` finds in a signature.
pub uninterp spec fn signature_index(signature: CredentialSignature) -> Option<u32>;

/// The witness that goes with an index of a registry, given the registry before it is issued.
pub uninterp spec fn issued_witness(
    registry: ClRevocationRegistry,
    index: u32,
    max_cred_num: u32,
    issuance_by_default: bool,
    key: CredentialPublicKey,
    registry_private: RevocationKeyPrivate,
) -> Witness;

/// Holds of what one call of `Issuer::sign_credential` returned for the arguments before it.
pub uninterp spec fn signed(
    prover_id: Seq<char>,
    secrets: BlindedCredentialSecrets,
    secrets_proof: BlindedCredentialSecretsCorrectnessProof,
    nonce: BigNumber,
    issuance_nonce: BigNumber,
    values: ClCredentialValues,
    key: CredentialPublicKey,
    private: CredentialPrivateKey,
    outcome: Result<(CredentialSignature, SignatureCorrectnessProof), ClError>,
) -> bool;

/// Holds of the registry that one call of `Issuer::sign_credential_with_revoc` left, and of
/// what it returned, for the arguments before them.
pub uninterp spec fn signed_with_index(
    prover_id: Seq<char>,
    secrets: BlindedCredentialSecrets,
    secrets_proof: BlindedCredentialSecretsCorrectnessProof,
    nonce: BigNumber,
    issuance_nonce: BigNumber,
    values: ClCredentialValues,
    key: CredentialPublicKey,
    private: CredentialPrivateKey,
    index: u32,
    max_cred_num: u32,
    issuance_by_default: bool,
    registry: ClRevocationRegistry,
    registry_private: RevocationKeyPrivate,
    registry_after: ClRevocationRegistry,
    outcome: Result<
        (
            CredentialSignature,
            SignatureCorrectnessProof,
            Witness,
            Option<ClRevocationRegistryDelta>,
        ),
        ClError,
    >,
) -> bool;

/// There is a value of each hidden attribute that a key signs and, where the key signs all
/// of them, a value and a blinding value of each attribute committed to.
pub open spec fn names_answer(
    hidden: Set<Seq<char>>,
    committed: Set<Seq<char>>,
    values: Set<Seq<char>>,
    blindings: Set<Seq<char>>,
    signed: Set<Seq<char>>,
) -> bool {
    &&& hidden.intersect(signed).subset_of(values)
    &&& hidden.subset_of(signed) ==> committed.subset_of(values) && committed.subset_of(blindings)
}

/// The correctness proof has the values and blinding values that the secrets call for.
pub open spec fn proof_answers(
    secrets: BlindedCredentialSecrets,
    secrets_proof: BlindedCredentialSecretsCorrectnessProof,
    key: CredentialPrimaryPublicKey,
) -> bool {
    names_answer(
        hidden_attrs(secrets),
        committed_attrs(secrets),
        value_cap_attrs(secrets_proof),
        blinding_cap_attrs(secrets_proof),
        key_attrs(key),
    )
}

/// Each attribute that the key signs has a value or is hidden, none both, and neither
/// names an attribute that the key does not sign.
pub open spec fn attributes_agree(
    secrets: BlindedCredentialSecrets,
    entries: Map<Seq<char>, Option<int>>,
    key: CredentialPrimaryPublicKey,
) -> bool {
    &&& key_attrs(key).subset_of(entries.dom().union(hidden_attrs(secrets)))
    &&& entries.dom().disjoint(hidden_attrs(secrets))
    &&& hidden_attrs(secrets).subset_of(key_attrs(key))
    &&& forall|attr: Seq<char>|
        entries.contains_key(attr) && #[trigger] entries[attr] is Some ==> key_attrs(key).contains(
            attr,
        )
}

/// The point by which blinded secrets ask for a registry index, where they have it.
pub uninterp spec fn secret_point(secrets: BlindedCredentialSecrets) -> Option<Seq<(int, int)>>;

/// The point by which blinded secrets ask for a registry index can be written, where they have
/// it.
pub open spec fn secret_fits(secrets: BlindedCredentialSecrets) -> bool {
    secret_point(secrets) matches Some(point) ==> points::fits(point)
}

/// The text of the point by which blinded secrets ask for a registry index, read from the JSON
/// form that `serde_json::to_value` gives the secrets. It fails where a number of the secrets
/// cannot be printed, which rests on the machine and is not said. A point that cannot be written
/// makes it panic.
#[verifier::external_body]
pub(crate) fn secret_text(secrets: &BlindedCredentialSecrets) -> (res: Result<
    Option<String>,
    TextError,
>)
    requires
        secret_fits(*secrets),
    ensures
        res matches Ok(text) ==> (text is Some <==> secret_point(*secrets) is Some),
        res matches Ok(Some(text)) ==> points::point_of(text@) == secret_point(*secrets),
{
    let json = serde_json::to_value(secrets)?;
    Ok(json["ur"].as_str().map(str::to_owned))
}

/// The numbers of the keys are below the order of the groups, and the number that the witness
/// of an index is divided by is not zero: the second of the private key's numbers, and the
/// power of the registry's number with the index.
pub open spec fn index_key_is_sound(
    private: CredentialPrivateKey,
    registry_private: RevocationKeyPrivate,
    index: u32,
) -> bool {
    let gamma = registry_secret(registry_private);
    &&& index_secrets_are_sound(private)
    &&& index_secrets(private) matches Some((x, sk)) ==> (sk + vstd::arithmetic::power::pow(
        gamma,
        index as nat,
    )) % points::group_order() != 0
}

/// Signing comes to the point where it signs for an index of a registry: the index is one of
/// the registry, and the secrets and both keys have the parts that it takes.
pub open spec fn signs_index(
    secrets: BlindedCredentialSecrets,
    part: Option<CredentialRevocationPublicKey>,
    private: CredentialPrivateKey,
    max_cred_num: u32,
    index: u32,
) -> bool {
    &&& 1 <= index <= max_cred_num
    &&& secret_point(secrets) is Some
    &&& part is Some
    &&& index_secrets(private) is Some
}

/// Signing for an index can be done: its place among the tails can be computed, the points are
/// bounded, and the keys are sound.
pub open spec fn can_sign_index(
    secrets: BlindedCredentialSecrets,
    part: Option<CredentialRevocationPublicKey>,
    private: CredentialPrivateKey,
    max_cred_num: u32,
    index: u32,
    registry: ClRevocationRegistry,
    registry_private: RevocationKeyPrivate,
) -> bool {
    signs_index(secrets, part, private, max_cred_num, index) ==> {
        &&& max_cred_num < u32::MAX
        &&& points::is_bounded(secret_point(secrets)->0)
        &&& can_step(part->0, registry, registry_private)
        &&& index_key_is_sound(private, registry_private, index)
    }
}

/// `Issuer::sign_credential` signs the values and the blinded secrets with fresh random
/// numbers, once it has checked the secrets' proof and that the attributes agree with
/// the key. The signature has no registry index. A proof that does not answer for the
/// secrets makes it panic.
pub assume_specification[ Issuer::sign_credential ](
    prover_id: &str,
    blinded_credential_secrets: &BlindedCredentialSecrets,
    blinded_credential_secrets_correctness_proof: &BlindedCredentialSecretsCorrectnessProof,
    credential_nonce: &BigNumber,
    credential_issuance_nonce: &BigNumber,
    credential_values: &ClCredentialValues,
    credential_pub_key: &CredentialPublicKey,
    credential_priv_key: &CredentialPrivateKey,
) -> (res: Result<(CredentialSignature, SignatureCorrectnessProof), ClError>)
    requires
        proof_answers(
            *blinded_credential_secrets,
            *blinded_credential_secrets_correctness_proof,
            primary_key(*credential_pub_key),
        ),
    ensures
        signed(
            prover_id@,
            *blinded_credential_secrets,
            *blinded_credential_secrets_correctness_proof,
            *credential_nonce,
            *credential_issuance_nonce,
            *credential_values,
            *credential_pub_key,
            *credential_priv_key,
            res,
        ),
        res matches Ok((signature, signature_proof)) ==> signature_index(signature) is None,
        res is Ok ==> attributes_agree(
            *blinded_credential_secrets,
            value_entries(*credential_values),
            primary_key(*credential_pub_key),
        ),
;

/// `Issuer::sign_credential_with_revoc` signs as `Issuer::sign_credential` does, and for
/// a registry index, which has to lie between 1 and `max_cred_num`. Where indexes are
/// issued by default the registry stays as it is and there is no delta; otherwise the
/// registry moves to the accumulator with the index issued, and the delta says so; with a
/// revocation part that was drawn, the update that revokes the index leads back. A key
/// without a revocation part is refused. Points that are not bounded make it panic, and
/// keys that are not sound can keep it from returning. The number that the signature is
/// divided by has a random part, so that it is zero is a matter of chance and not said.
pub assume_specification[ Issuer::sign_credential_with_revoc ](
    prover_id: &str,
    blinded_credential_secrets: &BlindedCredentialSecrets,
    blinded_credential_secrets_correctness_proof: &BlindedCredentialSecretsCorrectnessProof,
    credential_nonce: &BigNumber,
    credential_issuance_nonce: &BigNumber,
    credential_values: &ClCredentialValues,
    credential_pub_key: &CredentialPublicKey,
    credential_priv_key: &CredentialPrivateKey,
    rev_idx: u32,
    max_cred_num: u32,
    issuance_by_default: bool,
    rev_reg: &mut ClRevocationRegistry,
    rev_key_priv: &RevocationKeyPrivate,
) -> (res: Result<
    (
        CredentialSignature,
        SignatureCorrectnessProof,
        Witness,
        Option<ClRevocationRegistryDelta>,
    ),
    ClError,
>)
    requires
        proof_answers(
            *blinded_credential_secrets,
            *blinded_credential_secrets_correctness_proof,
            primary_key(*credential_pub_key),
        ),
        can_sign_index(
            *blinded_credential_secrets,
            revocation_key(*credential_pub_key),
            *credential_priv_key,
            max_cred_num,
            rev_idx,
            *old(rev_reg),
            *rev_key_priv,
        ),
    ensures
        signed_with_index(
            prover_id@,
            *blinded_credential_secrets,
            *blinded_credential_secrets_correctness_proof,
            *credential_nonce,
            *credential_issuance_nonce,
            *credential_values,
            *credential_pub_key,
            *credential_priv_key,
            rev_idx,
            max_cred_num,
            issuance_by_default,
            *old(rev_reg),
            *rev_key_priv,
            *final(rev_reg),
            res,
        ),
        res matches Ok((signature, signature_proof, witness, delta)) ==> signature_index(signature)
            == Some(rev_idx),
        res matches Ok((signature, signature_proof, witness, delta)) ==> witness == issued_witness(
            *old(rev_reg),
            rev_idx,
            max_cred_num,
            issuance_by_default,
            *credential_pub_key,
            *rev_key_priv,
        ),
        res is Ok ==> attributes_agree(
            *blinded_credential_secrets,
            value_entries(*credential_values),
            primary_key(*credential_pub_key),
        ),
        res is Ok ==> signs_index(
            *blinded_credential_secrets,
            revocation_key(*credential_pub_key),
            *credential_priv_key,
            max_cred_num,
            rev_idx,
        ),
        res is Ok && issuance_by_default ==> *final(rev_reg) == *old(rev_reg),
        res is Ok ==> points::is_bounded(registry_point(*final(rev_reg))),
        res matches Ok((signature, signature_proof, witness, Some(delta))) ==> delta_prev_point(
            delta,
        ) == Some(registry_point(*old(rev_reg))),
        res matches Ok((signature, signature_proof, witness, Some(delta))) ==> delta_point(delta)
            == registry_point(*final(rev_reg)),
        res is Ok ==> registry_accum(*final(rev_reg)) == (if issuance_by_default {
            registry_accum(*old(rev_reg))
        } else {
            updated_accum(
                registry_accum(*old(rev_reg)),
                max_cred_num,
                set![rev_idx],
                set![],
                *credential_pub_key,
                *rev_key_priv,
            )
        }),
        res is Ok && !issuance_by_default && part_is_drawn(revocation_key(*credential_pub_key))
            ==> updated_accum(
            registry_accum(*final(rev_reg)),
            max_cred_num,
            set![],
            set![rev_idx],
            *credential_pub_key,
            *rev_key_priv,
        ) == registry_accum(*old(rev_reg)),
        res matches Ok((signature, signature_proof, witness, delta)) ==> (delta is None
            <==> issuance_by_default),
        res matches Ok((signature, signature_proof, witness, Some(delta))) ==> delta_is(
            delta,
            Some(registry_accum(*old(rev_reg))),
            registry_accum(*final(rev_reg)),
            set![rev_idx],
            set![],
        ),
;

/// The attributes that blinded secrets hide, and those that they commit to, read from
/// the JSON form that `serde_json::to_value` gives the secrets. It fails where a number of the
/// secrets cannot be printed, which rests on the machine and is not said. A point that cannot be
/// written makes it panic.
#[verifier::external_body]
pub(crate) fn secret_attr_names(secrets: &BlindedCredentialSecrets) -> (res: Result<
    (Vec<String>, Vec<String>),
    TextError,
>)
    requires
        secret_fits(*secrets),
    ensures
        res matches Ok((hidden, committed)) ==> names::name_set(hidden@) == hidden_attrs(*secrets),
        res matches Ok((hidden, committed)) ==> names::name_set(committed@) == committed_attrs(
            *secrets,
        ),
{
    let json = serde_json::to_value(secrets)?;
    let hidden = serde_json::from_value(json["hidden_attributes"].clone())?;
    let committed: BTreeMap<String, serde_json::Value> =
        serde_json::from_value(json["committed_attributes"].clone())?;
    Ok((hidden, committed.into_keys().collect()))
}

/// The attributes of which a correctness proof holds a value, and those of which it holds
/// a blinding value, read from the JSON form that `serde_json::to_value` gives the proof. It
/// fails where a number of the proof cannot be printed, which rests on the machine and is not
/// said.
#[verifier::external_body]
pub(crate) fn cap_attr_names(
    secrets_proof: &BlindedCredentialSecretsCorrectnessProof,
) -> (res: Result<(Vec<String>, Vec<String>), TextError>)
    ensures
        res matches Ok((values, blindings)) ==> names::name_set(values@) == value_cap_attrs(
            *secrets_proof,
        ),
        res matches Ok((values, blindings)) ==> names::name_set(blindings@) == blinding_cap_attrs(
            *secrets_proof,
        ),
{
    let json = serde_json::to_value(secrets_proof)?;
    let values: BTreeMap<String, serde_json::Value> =
        serde_json::from_value(json["m_caps"].clone())?;
    let blindings: BTreeMap<String, serde_json::Value> =
        serde_json::from_value(json["r_caps"].clone())?;
    Ok((values.into_keys().collect(), blindings.into_keys().collect()))
}

/// The attributes that a primary key signs, read from the JSON form that
/// `serde_json::to_value` gives the key. It fails where a number of the key cannot be printed,
/// which rests on the machine and is not said.
#[verifier::external_body]
pub(crate) fn key_attr_names(key: &CredentialPrimaryPublicKey) -> (res: Result<
    Vec<String>,
    TextError,
>)
    ensures
        res matches Ok(names) ==> names::name_set(names@) == key_attrs(*key),
{
    let json = serde_json::to_value(key)?;
    let attrs: BTreeMap<String, serde_json::Value> = serde_json::from_value(json["r"].clone())?;
    Ok(attrs.into_keys().collect())
}

} // verus!
