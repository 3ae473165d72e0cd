//! What an issuer makes and is given: schemas, credential definitions, revocation
//! registries, offers, requests and credentials.
use vstd::prelude::*;

use indy_data_types::anoncreds::rev_reg;

use crate::cl;
use crate::identifiers::{CredentialDefinitionId, DidValue, RevocationRegistryId, SchemaId};
use crate::names;
use crate::numbers;
use crate::points;

verus! {

// ---- schemas ----

/// The names of the attributes of a schema, none of them twice.
#[derive(Debug)]
pub struct AttributeNames {
    names: Vec<String>,
}

impl View for AttributeNames {
    type V = Seq<String>;

    closed spec fn view(&self) -> Seq<String> {
        self.names@
    }
}

impl AttributeNames {
    /// No name occurs twice.
    pub open spec fn well_formed(self) -> bool {
        forall|i: int, j: int|
            0 <= i < j < self@.len() ==> #[trigger] self@[i]@ != #[trigger] self@[j]@
    }

    /// No names.
    pub fn new() -> (res: AttributeNames)
        ensures
            res.well_formed(),
            res@.len() == 0,
    {
        AttributeNames { names: Vec::new() }
    }

    /// Adds a name, unless it is there; says whether it was added.
    pub fn insert(&mut self, name: String) -> (added: bool)
        requires
            old(self).well_formed(),
        ensures
            final(self).well_formed(),
            added <==> !names::name_set(old(self)@).contains(name@),
            final(self)@ == (if added {
                old(self)@.push(name)
            } else {
                old(self)@
            }),
    {
        if names::holds_name(&self.names, &name) {
            return false;
        }
        proof {
            names::lemma_name_set(self@, name@);
        }
        self.names.push(name);
        true
    }

    /// The names, in the order in which they were added.
    pub fn names(&self) -> (res: &Vec<String>)
        ensures
            res@ == self@,
    {
        &self.names
    }
}

/// A schema.
#[derive(Debug)]
pub enum Schema {
    SchemaV1(SchemaV1),
}

impl Schema {
    pub open spec fn v1(self) -> SchemaV1 {
        match self {
            Schema::SchemaV1(v1) => v1,
        }
    }
}

#[derive(Debug)]
pub struct SchemaV1 {
    pub id: SchemaId,
    pub name: String,
    pub version: String,
    pub attr_names: AttributeNames,
    pub seq_no: Option<u32>,
}

// ---- credential definitions ----

/// How credentials are signed.
#[derive(Debug, Clone, Copy, PartialEq, Eq, Structural)]
pub enum SignatureType {
    CL,
}

impl SignatureType {
    /// The text of the type in an identifier.
    pub open spec fn text(self) -> Seq<char> {
        match self {
            SignatureType::CL => "CL"@,
        }
    }

    pub fn to_str(&self) -> (res: &'static str)
        ensures
            res@ == self.text(),
    {
        match self {
            SignatureType::CL => "CL",
        }
    }
}

/// What a credential definition is to support.
#[derive(Debug, Clone, Copy, PartialEq, Eq, Structural)]
pub struct CredentialDefinitionConfig {
    pub support_revocation: bool,
}

/// The public keys of a credential definition.
#[derive(Debug)]
pub struct CredentialDefinitionData {
    pub primary: cl::CredentialPrimaryPublicKey,
    pub revocation: Option<cl::CredentialRevocationPublicKey>,
}

/// A credential definition.
#[derive(Debug)]
pub enum CredentialDefinition {
    CredentialDefinitionV1(CredentialDefinitionV1),
}

impl CredentialDefinition {
    pub open spec fn v1(self) -> CredentialDefinitionV1 {
        match self {
            CredentialDefinition::CredentialDefinitionV1(v1) => v1,
        }
    }
}

#[derive(Debug)]
pub struct CredentialDefinitionV1 {
    pub id: CredentialDefinitionId,
    pub schema_id: SchemaId,
    pub signature_type: SignatureType,
    pub tag: String,
    pub value: CredentialDefinitionData,
}

impl CredentialDefinitionData {
    /// The public key that the two parts make up.
    pub open spec fn key(self) -> cl::CredentialPublicKey {
        cl::key_from_parts(self.primary, self.revocation)
    }

    /// The revocation part, where there is one.
    pub open spec fn part(&self) -> Option<&cl::CredentialRevocationPublicKey> {
        match &self.revocation {
            Some(part) => Some(part),
            None => None,
        }
    }

    /// A key, or a failure, is what came of putting a key together from the parts of the data.
    pub open spec fn key_came_of_parts(
        &self,
        outcome: Result<cl::CredentialPublicKey, cl::ClError>,
    ) -> bool {
        call_ensures(
            cl::CredentialPublicKey::build_from_parts,
            (&self.primary, self.part()),
            outcome,
        )
    }

    /// The parts of that key are those of the data.
    pub open spec fn key_has_parts(self) -> bool {
        &&& cl::primary_key(self.key()) == self.primary
        &&& cl::revocation_key(self.key()) == self.revocation
    }
}

impl CredentialDefinition {
    /// The points of the revocation key are bounded, where there is one.
    pub open spec fn is_bounded(self) -> bool {
        self.v1().value.revocation matches Some(part) ==> cl::part_is_bounded(part)
    }

    /// The points of the revocation key can be written, where there is one.
    pub open spec fn fits(self) -> bool {
        self.v1().value.revocation matches Some(part) ==> cl::part_fits(part)
    }

    /// Whether the points of the revocation key are bounded, where there is one.
    pub fn check_bounds(&self) -> (res: bool)
        requires
            self.fits(),
        ensures
            res == self.is_bounded(),
    {
        let CredentialDefinition::CredentialDefinitionV1(v1) = self;
        match &v1.value.revocation {
            Some(part) => match cl::part_texts(part) {
                Some(texts) => {
                    proof {
                        points::lemma_points_shown(texts@);
                    }
                    points::texts_are_bounded(&texts)
                },
                None => false,
            },
            None => true,
        }
    }
}

impl CredentialDefinitionV1 {
    /// The public key of the definition, put together from its parts. It fails only where
    /// a number of the key cannot be copied.
    pub fn get_public_key(&self) -> (res: Result<cl::CredentialPublicKey, cl::ClError>)
        ensures
            self.value.key_came_of_parts(res),
            res matches Ok(key) ==> key == self.value.key() && self.value.key_has_parts(),
    {
        let revocation = match &self.value.revocation {
            Some(part) => Some(part),
            None => None,
        };
        cl::CredentialPublicKey::build_from_parts(&self.value.primary, revocation)
    }
}

/// The private keys of a credential definition.
#[derive(Debug)]
pub struct CredentialDefinitionPrivate {
    pub value: cl::CredentialPrivateKey,
}

/// The proof that the keys of a credential definition are sound.
#[derive(Debug)]
pub struct CredentialKeyCorrectnessProof {
    pub value: cl::ClKeyCorrectnessProof,
}

// ---- revocation registries ----

/// Whether the indexes of a registry count as issued from the start.
#[allow(non_camel_case_types)]
#[derive(Debug, Clone, Copy, PartialEq, Eq, Structural)]
pub enum IssuanceType {
    ISSUANCE_BY_DEFAULT,
    ISSUANCE_ON_DEMAND,
}

impl IssuanceType {
    pub open spec fn by_default(self) -> bool {
        self is ISSUANCE_BY_DEFAULT
    }

    pub fn to_bool(&self) -> (res: bool)
        ensures
            res == self.by_default(),
    {
        matches!(self, IssuanceType::ISSUANCE_BY_DEFAULT)
    }
}

/// How a registry keeps what is revoked.
#[allow(non_camel_case_types)]
#[derive(Debug, Clone, Copy, PartialEq, Eq, Structural)]
pub enum RegistryType {
    CL_ACCUM,
}

impl RegistryType {
    /// The text of the type in an identifier.
    pub open spec fn text(self) -> Seq<char> {
        match self {
            RegistryType::CL_ACCUM => "CL_ACCUM"@,
        }
    }

    pub fn to_str(&self) -> (res: &'static str)
        ensures
            res@ == self.text(),
    {
        match self {
            RegistryType::CL_ACCUM => "CL_ACCUM",
        }
    }
}

#[derive(Debug)]
pub struct RevocationRegistryDefinitionValuePublicKeys {
    pub accum_key: cl::RevocationKeyPublic,
}

#[derive(Debug)]
pub struct RevocationRegistryDefinitionValue {
    pub issuance_type: IssuanceType,
    pub max_cred_num: u32,
    pub public_keys: RevocationRegistryDefinitionValuePublicKeys,
    pub tails_hash: String,
    pub tails_location: String,
}

/// The definition of a revocation registry.
#[derive(Debug)]
pub enum RevocationRegistryDefinition {
    RevocationRegistryDefinitionV1(RevocationRegistryDefinitionV1),
}

impl RevocationRegistryDefinition {
    pub open spec fn v1(self) -> RevocationRegistryDefinitionV1 {
        match self {
            RevocationRegistryDefinition::RevocationRegistryDefinitionV1(v1) => v1,
        }
    }
}

#[derive(Debug)]
pub struct RevocationRegistryDefinitionV1 {
    pub id: RevocationRegistryId,
    pub revoc_def_type: RegistryType,
    pub tag: String,
    pub cred_def_id: CredentialDefinitionId,
    pub value: RevocationRegistryDefinitionValue,
}

/// The private key of a revocation registry.
#[derive(Debug)]
pub struct RevocationRegistryDefinitionPrivate {
    pub value: cl::RevocationKeyPrivate,
}

impl RevocationRegistryDefinitionPrivate {
    /// Whether the number of the key is below the order of the groups.
    pub fn check_number(&self) -> (res: bool)
        requires
            numbers::fits(cl::registry_secret(self.value)),
        ensures
            res == cl::registry_key_is_sound(self.value),
    {
        match cl::registry_secret_text(&self.value) {
            Some(text) => numbers::hexadecimal_below(text.as_str(), &points::order()).is_some(),
            None => false,
        }
    }
}

/// The state of a revocation registry.
#[derive(Debug)]
pub enum RevocationRegistry {
    RevocationRegistryV1(RevocationRegistryV1),
}

impl RevocationRegistry {
    pub open spec fn value(self) -> cl::ClRevocationRegistry {
        match self {
            RevocationRegistry::RevocationRegistryV1(v1) => v1.value,
        }
    }

    /// The accumulator of the registry.
    pub open spec fn accum(self) -> int {
        cl::registry_accum(self.value())
    }

    /// The point of the registry is bounded.
    pub open spec fn is_bounded(self) -> bool {
        points::is_bounded(cl::registry_point(self.value()))
    }

    /// The point of the registry can be written.
    pub open spec fn fits(self) -> bool {
        points::fits(cl::registry_point(self.value()))
    }

    /// Whether the point of the registry is bounded.
    pub fn check_bounds(&self) -> (res: bool)
        requires
            self.fits(),
        ensures
            res == self.is_bounded(),
    {
        let RevocationRegistry::RevocationRegistryV1(v1) = self;
        match cl::registry_text(&v1.value) {
            Some(text) => points::text_is_bounded(text.as_str()),
            None => false,
        }
    }
}

#[derive(Debug)]
pub struct RevocationRegistryV1 {
    pub value: cl::ClRevocationRegistry,
}

/// A step of a revocation registry from one state to another.
#[derive(Debug)]
pub enum RevocationRegistryDelta {
    RevocationRegistryDeltaV1(RevocationRegistryDeltaV1),
}

impl RevocationRegistryDelta {
    pub open spec fn value(self) -> cl::ClRevocationRegistryDelta {
        match self {
            RevocationRegistryDelta::RevocationRegistryDeltaV1(v1) => v1.value,
        }
    }

    /// The points of the delta are bounded.
    pub open spec fn is_bounded(self) -> bool {
        cl::delta_is_bounded(self.value())
    }

    /// The points of the delta can be written.
    pub open spec fn fits(self) -> bool {
        cl::delta_fits(self.value())
    }
}

#[derive(Debug)]
pub struct RevocationRegistryDeltaV1 {
    pub value: cl::ClRevocationRegistryDelta,
}

impl RevocationRegistry {
    /// `RevocationRegistry::initial_delta` of `indy_data_types` gives the delta that leads
    /// from no state at all to that of the registry, and moves no index.
    #[verifier::external_body]
    pub(crate) fn initial_delta(&self) -> (res: RevocationRegistryDelta)
        ensures
            cl::delta_prev_accum(res.value()) is None,
            cl::delta_accum(res.value()) == self.accum(),
            cl::delta_issued(res.value()).is_empty(),
            cl::delta_revoked(res.value()).is_empty(),
            cl::delta_prev_point(res.value()) is None,
            cl::delta_point(res.value()) == cl::registry_point(self.value()),
    {
        let RevocationRegistry::RevocationRegistryV1(v1) = self;
        let registry = rev_reg::RevocationRegistry::RevocationRegistryV1(
            rev_reg::RevocationRegistryV1 { value: v1.value.clone() },
        );
        let rev_reg::RevocationRegistryDelta::RevocationRegistryDeltaV1(delta) =
            registry.initial_delta();
        RevocationRegistryDelta::RevocationRegistryDeltaV1(
            RevocationRegistryDeltaV1 { value: delta.value },
        )
    }
}

// ---- offers, requests and credentials ----

/// The offer of a credential to a holder.
#[derive(Debug)]
pub struct CredentialOffer {
    pub schema_id: SchemaId,
    pub cred_def_id: CredentialDefinitionId,
    pub key_correctness_proof: cl::ClKeyCorrectnessProof,
    pub nonce: cl::Nonce,
    pub method_name: Option<String>,
}

/// A holder's request for a credential.
#[derive(Debug)]
pub struct CredentialRequest {
    pub prover_did: DidValue,
    pub cred_def_id: CredentialDefinitionId,
    pub blinded_ms: cl::BlindedCredentialSecrets,
    pub blinded_ms_correctness_proof: cl::BlindedCredentialSecretsCorrectnessProof,
    pub nonce: cl::Nonce,
}

/// The value of an attribute, as it is shown and as it is signed.
#[derive(Debug)]
pub struct AttributeValues {
    pub raw: String,
    pub encoded: String,
}

/// The values of a credential's attributes, at most one for each name.
#[derive(Debug)]
pub struct CredentialValues {
    entries: Vec<(String, AttributeValues)>,
}

impl View for CredentialValues {
    type V = Seq<(String, AttributeValues)>;

    closed spec fn view(&self) -> Seq<(String, AttributeValues)> {
        self.entries@
    }
}

impl CredentialValues {
    /// No name occurs twice.
    pub open spec fn well_formed(self) -> bool {
        forall|i: int, j: int|
            0 <= i < j < self@.len() ==> #[trigger] self@[i].0@ != #[trigger] self@[j].0@
    }

    /// No values.
    pub fn new() -> (res: CredentialValues)
        ensures
            res.well_formed(),
            res@.len() == 0,
    {
        CredentialValues { entries: Vec::new() }
    }

    /// Sets the value of a name, in place of the one that it has, or after all others where
    /// it has none.
    pub fn insert(&mut self, name: String, value: AttributeValues)
        requires
            old(self).well_formed(),
        ensures
            final(self).well_formed(),
            forall|i: int|
                0 <= i < old(self)@.len() && (#[trigger] old(self)@[i]).0@ == name@ ==> final(self)@
                    == old(self)@.update(i, (name, value)),
            (forall|i: int| 0 <= i < old(self)@.len() ==> (#[trigger] old(self)@[i]).0@ != name@)
                ==> final(self)@ == old(self)@.push((name, value)),
    {
        let mut i: usize = 0;
        while i < self.entries.len()
            invariant
                i <= self.entries.len(),
                *self == *old(self),
                self.well_formed(),
                forall|j: int| 0 <= j < i ==> (#[trigger] self@[j]).0@ != name@,
            decreases self.entries.len() - i,
        {
            if self.entries[i].0 == name {
                self.entries.set(i, (name, value));
                assert forall|a: int, b: int|
                    0 <= a < b < self@.len() implies #[trigger] self@[a].0@
                    != #[trigger] self@[b].0@ by {
                    assert(old(self)@[a].0@ != old(self)@[b].0@);
                }
                return ;
            }
            i += 1;
        }
        self.entries.push((name, value));
    }

    /// The names and values, in the order in which the names came.
    pub fn entries(&self) -> (res: &Vec<(String, AttributeValues)>)
        ensures
            res@ == self@,
    {
        &self.entries
    }
}

/// A credential.
#[derive(Debug)]
pub struct Credential {
    pub schema_id: SchemaId,
    pub cred_def_id: CredentialDefinitionId,
    pub rev_reg_id: Option<RevocationRegistryId>,
    pub values: CredentialValues,
    pub signature: cl::CredentialSignature,
    pub signature_correctness_proof: cl::SignatureCorrectnessProof,
    pub rev_reg: Option<cl::ClRevocationRegistry>,
    pub witness: Option<cl::Witness>,
}

/// The registry, and the index in it, that a credential is to be issued for.
#[derive(Debug)]
pub struct CredentialRevocationConfig<'a> {
    pub reg_def: &'a RevocationRegistryDefinition,
    pub reg_def_private: &'a RevocationRegistryDefinitionPrivate,
    pub registry: &'a RevocationRegistry,
    pub registry_idx: u32,
}

} // verus!
