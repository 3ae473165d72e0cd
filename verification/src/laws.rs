//! What holds of the library's functions taken together.
#![allow(unused_imports)]
use vstd::prelude::*;

use crate::cl;
use crate::error::Error;
use crate::helpers;
use crate::identifiers;
use crate::identifiers::SchemaId;
use crate::issuer;
use crate::numbers;
use crate::points;
use crate::qualified;
use crate::types::{
    Credential, CredentialDefinition, CredentialDefinitionPrivate, CredentialKeyCorrectnessProof,
    CredentialOffer, CredentialRequest, CredentialRevocationConfig, CredentialValues, IssuanceType,
    RegistryType, RevocationRegistry, RevocationRegistryDefinition,
    RevocationRegistryDefinitionPrivate, RevocationRegistryDelta,
};

verus! {

// ---- steps of a registry ----

/// Two steps that issue and revoke the same indexes of the same state lead to the same state
/// and tell the same. So revoking one index comes to the same as an update that revokes it
/// and no other, and issuing it again to the same as an update that issues it.
pub proof fn law_step_is_determined(
    first: (RevocationRegistry, RevocationRegistryDelta),
    second: (RevocationRegistry, RevocationRegistryDelta),
    before: RevocationRegistry,
    max_cred_num: u32,
    issued: Set<u32>,
    revoked: Set<u32>,
    key: cl::CredentialPublicKey,
    private: RevocationRegistryDefinitionPrivate,
)
    requires
        issuer::steps_from(first, before, max_cred_num, issued, revoked, key, private),
        issuer::steps_from(second, before, max_cred_num, issued, revoked, key, private),
    ensures
        first.0.accum() == second.0.accum(),
        cl::delta_is(
            second.1.value(),
            cl::delta_prev_accum(first.1.value()),
            cl::delta_accum(first.1.value()),
            cl::delta_issued(first.1.value()),
            cl::delta_revoked(first.1.value()),
        ),
{
}

/// Of the definition of a registry only its size matters to an update, a revocation or its
/// undoing: with another definition of the same size the attempt is possible alike, and unless
/// the public key cannot be fetched in one of the two, it succeeds or fails alike, leads to the
/// same state and tells the same.
pub proof fn law_only_size_of_definition_matters(
    first: Result<(RevocationRegistry, RevocationRegistryDelta), Error>,
    second: Result<(RevocationRegistry, RevocationRegistryDelta), Error>,
    cred_def: CredentialDefinition,
    definitions: (RevocationRegistryDefinition, RevocationRegistryDefinition),
    private: RevocationRegistryDefinitionPrivate,
    before: RevocationRegistry,
    issued: Set<u32>,
    revoked: Set<u32>,
)
    requires
        definitions.0.v1().value.max_cred_num == definitions.1.v1().value.max_cred_num,
        issuer::moves(first, cred_def, definitions.0, private, before, issued, revoked),
        issuer::moves(second, cred_def, definitions.1, private, before, issued, revoked),
    ensures
        issuer::can_move(
            cred_def.v1().value.revocation,
            definitions.0,
            private,
            before,
            issued,
            revoked,
        ) == issuer::can_move(
            cred_def.v1().value.revocation,
            definitions.1,
            private,
            before,
            issued,
            revoked,
        ),
        first is Ok && second is Err ==> issuer::key_not_fetched(
            second->Err_0,
            cred_def.v1().value,
        ),
        first is Err && second is Ok ==> issuer::key_not_fetched(
            first->Err_0,
            cred_def.v1().value,
        ),
        first is Ok && second is Ok ==> {
            &&& first->Ok_0.0.accum() == second->Ok_0.0.accum()
            &&& cl::delta_is(
                second->Ok_0.1.value(),
                cl::delta_prev_accum(first->Ok_0.1.value()),
                cl::delta_accum(first->Ok_0.1.value()),
                cl::delta_issued(first->Ok_0.1.value()),
                cl::delta_revoked(first->Ok_0.1.value()),
            )
        },
{
}

/// Issuing an index again that was just revoked gives back the registry, where the revocation
/// part of the definition's key was drawn, or where the signature scheme otherwise undoes the
/// revocation of that index.
pub proof fn law_unrevoking_gives_back_registry(
    revoked: Result<(RevocationRegistry, RevocationRegistryDelta), Error>,
    restored: Result<(RevocationRegistry, RevocationRegistryDelta), Error>,
    cred_def: CredentialDefinition,
    definition: RevocationRegistryDefinition,
    private: RevocationRegistryDefinitionPrivate,
    before: RevocationRegistry,
    index: u32,
)
    requires
        issuer::moves(revoked, cred_def, definition, private, before, set![], set![index]),
        revoked is Ok,
        issuer::moves(
            restored,
            cred_def,
            definition,
            private,
            revoked->Ok_0.0,
            set![index],
            set![],
        ),
        restored is Ok,
        cl::part_is_drawn(cred_def.v1().value.revocation) || cl::updated_accum(
            revoked->Ok_0.0.accum(),
            definition.v1().value.max_cred_num,
            set![index],
            set![],
            cred_def.v1().value.key(),
            private.value,
        ) == before.accum(),
    ensures
        restored->Ok_0.0.accum() == before.accum(),
{
}

/// A registry that was made for a definition whose points are bounded can be moved, by indexes
/// that have tails.
pub proof fn law_made_registry_can_be_moved(
    definition: RevocationRegistryDefinition,
    private: RevocationRegistryDefinitionPrivate,
    registry: RevocationRegistry,
    delta: RevocationRegistryDelta,
    cred_def: CredentialDefinition,
    issued: Set<u32>,
    revoked: Set<u32>,
)
    requires
        cred_def.is_bounded(),
        issuer::starts_registry(definition, private, registry, delta, cred_def.v1().value.key()),
        issuer::indexes_have_tails(definition.v1().value.max_cred_num, issued, revoked),
    ensures
        issuer::can_move(
            cred_def.v1().value.revocation,
            definition,
            private,
            registry,
            issued,
            revoked,
        ),
{
}

/// A registry that can be moved can be moved again after that, by indexes that have tails.
pub proof fn law_moved_registry_can_be_moved(
    step: (RevocationRegistry, RevocationRegistryDelta),
    cred_def: CredentialDefinition,
    definition: RevocationRegistryDefinition,
    private: RevocationRegistryDefinitionPrivate,
    before: RevocationRegistry,
    issued: (Set<u32>, Set<u32>),
    revoked: (Set<u32>, Set<u32>),
)
    requires
        !issued.0.is_empty() || !revoked.0.is_empty(),
        issuer::can_move(
            cred_def.v1().value.revocation,
            definition,
            private,
            before,
            issued.0,
            revoked.0,
        ),
        issuer::moves(
            Ok(step),
            cred_def,
            definition,
            private,
            before,
            issued.0,
            revoked.0,
        ),
        issuer::indexes_have_tails(definition.v1().value.max_cred_num, issued.1, revoked.1),
    ensures
        issuer::can_move(
            cred_def.v1().value.revocation,
            definition,
            private,
            step.0,
            issued.1,
            revoked.1,
        ),
{
}

/// What is bounded can be written, and so be tested.
pub proof fn law_bounded_values_can_be_written(
    cred_def: CredentialDefinition,
    registry: RevocationRegistry,
    delta: RevocationRegistryDelta,
    private: CredentialDefinitionPrivate,
    registry_private: RevocationRegistryDefinitionPrivate,
)
    ensures
        cred_def.is_bounded() ==> cred_def.fits(),
        registry.is_bounded() ==> registry.fits(),
        delta.is_bounded() ==> delta.fits(),
        cl::index_secrets_are_sound(private.value) ==> cl::index_secrets_fit(private.value),
        cl::registry_key_is_sound(registry_private.value) ==> numbers::fits(
            cl::registry_secret(registry_private.value),
        ),
{
    if cred_def.is_bounded() && cred_def.v1().value.revocation is Some {
        let part = cred_def.v1().value.revocation->0;
        assert forall|point: Seq<(int, int)>| #[trigger]
            cl::part_points(part).contains(point) implies points::fits(point) by {
            points::lemma_bounded_fits(point);
        }
    }
    if registry.is_bounded() {
        points::lemma_bounded_fits(cl::registry_point(registry.value()));
    }
    if delta.is_bounded() {
        points::lemma_bounded_fits(cl::delta_point(delta.value()));
        if let Some(prev) = cl::delta_prev_point(delta.value()) {
            points::lemma_bounded_fits(prev);
        }
    }
}

/// The deltas of a step and of the next one merge, and the delta that covers both leads from
/// the state before the first to that after the second.
pub proof fn law_next_step_merges(
    first: (RevocationRegistry, RevocationRegistryDelta),
    second: (RevocationRegistry, RevocationRegistryDelta),
    before: RevocationRegistry,
    max_cred_num: u32,
    issued: (Set<u32>, Set<u32>),
    revoked: (Set<u32>, Set<u32>),
    key: cl::CredentialPublicKey,
    private: RevocationRegistryDefinitionPrivate,
)
    requires
        issuer::steps_from(first, before, max_cred_num, issued.0, revoked.0, key, private),
        issuer::steps_from(second, first.0, max_cred_num, issued.1, revoked.1, key, private),
    ensures
        issuer::follows(first.1, second.1),
        before.is_bounded() ==> issuer::can_merge(first.1, second.1),
        forall|merged: RevocationRegistryDelta| #[trigger]
            issuer::spans(merged, first.1, second.1) ==> {
                &&& cl::delta_prev_accum(merged.value()) == Some(before.accum())
                &&& cl::delta_accum(merged.value()) == second.0.accum()
            },
{
}

/// The delta that starts a registry merges with that of the first step from there, and
/// the delta that covers both leads from no state at all to the one after the step.
pub proof fn law_first_step_merges(
    definition: RevocationRegistryDefinition,
    start: (RevocationRegistry, RevocationRegistryDelta),
    step: (RevocationRegistry, RevocationRegistryDelta),
    max_cred_num: u32,
    issued: Set<u32>,
    revoked: Set<u32>,
    key: cl::CredentialPublicKey,
    private: RevocationRegistryDefinitionPrivate,
)
    requires
        issuer::starts_registry(definition, private, start.0, start.1, key),
        issuer::steps_from(step, start.0, max_cred_num, issued, revoked, key, private),
    ensures
        issuer::follows(start.1, step.1),
        issuer::can_merge(start.1, step.1),
        forall|merged: RevocationRegistryDelta| #[trigger]
            issuer::spans(merged, start.1, step.1) ==> cl::delta_is(
                merged.value(),
                None,
                step.0.accum(),
                issued.difference(revoked),
                revoked.difference(issued),
            ),
{
    let first = start.1.value();
    let second = step.1.value();
    assert(cl::merged_issued(first, second) =~= issued.difference(revoked));
    assert(cl::merged_revoked(first, second) =~= revoked.difference(issued));
}

/// A delta that starts a registry cannot come second: no delta leads to where it starts.
pub proof fn law_start_comes_first(
    definition: RevocationRegistryDefinition,
    private: RevocationRegistryDefinitionPrivate,
    registry: RevocationRegistry,
    delta: RevocationRegistryDelta,
    key: cl::CredentialPublicKey,
    other: RevocationRegistryDelta,
)
    requires
        issuer::starts_registry(definition, private, registry, delta, key),
    ensures
        !issuer::joins(other, delta),
{
}

/// A step and the opposite step bring a registry back, where the revocation part of the
/// definition's key was drawn, or where the accumulator is otherwise such that the opposite
/// update undoes the first; and the delta that covers both issues and revokes no index. So
/// issuing an index again undoes its revocation, and the other way round.
pub proof fn law_opposite_step_undoes(
    step: (RevocationRegistry, RevocationRegistryDelta),
    opposite: (RevocationRegistry, RevocationRegistryDelta),
    before: RevocationRegistry,
    max_cred_num: u32,
    issued: Set<u32>,
    revoked: Set<u32>,
    key: cl::CredentialPublicKey,
    private: RevocationRegistryDefinitionPrivate,
)
    requires
        cl::part_is_drawn(cl::revocation_key(key)) || cl::updated_accum(
            step.0.accum(),
            max_cred_num,
            revoked,
            issued,
            key,
            private.value,
        ) == before.accum(),
        issuer::steps_from(step, before, max_cred_num, issued, revoked, key, private),
        issuer::steps_from(opposite, step.0, max_cred_num, revoked, issued, key, private),
    ensures
        opposite.0.accum() == before.accum(),
        issuer::follows(step.1, opposite.1),
        issued.disjoint(revoked) ==> forall|merged: RevocationRegistryDelta| #[trigger]
            issuer::spans(merged, step.1, opposite.1) ==> cl::delta_is(
                merged.value(),
                Some(before.accum()),
                before.accum(),
                set![],
                set![],
            ),
{
    let first = step.1.value();
    let second = opposite.1.value();
    if issued.disjoint(revoked) {
        assert(cl::merged_issued(first, second) =~= set![]);
        assert(cl::merged_revoked(first, second) =~= set![]);
    }
}

/// The revocation part of a credential definition that was made with revocation is one that
/// was drawn.
pub proof fn law_definition_has_drawn_part(
    names: Seq<String>,
    support_revocation: bool,
    cred_def: CredentialDefinition,
    private: CredentialDefinitionPrivate,
    key_proof: CredentialKeyCorrectnessProof,
)
    requires
        issuer::keys_are_fresh(
            names,
            support_revocation,
            cred_def.v1().value,
            private.value,
            key_proof.value,
        ),
    ensures
        cl::part_is_drawn(cred_def.v1().value.revocation),
{
}

/// A delta does not issue and revoke the same index.
pub open spec fn moves_apart(delta: RevocationRegistryDelta) -> bool {
    cl::delta_issued(delta.value()).disjoint(cl::delta_revoked(delta.value()))
}

/// A delta that covers two others does not both issue and revoke an index, where the first
/// of the two does not.
pub proof fn law_merged_indexes_stay_apart(
    merged: RevocationRegistryDelta,
    first: RevocationRegistryDelta,
    second: RevocationRegistryDelta,
)
    requires
        issuer::spans(merged, first, second),
        moves_apart(first),
    ensures
        moves_apart(merged),
{
}

/// No index is moved one way by two deltas in a row, and the other way by the delta before
/// them or by the one after them.
pub open spec fn moves_alternate(
    first: RevocationRegistryDelta,
    second: RevocationRegistryDelta,
    third: RevocationRegistryDelta,
) -> bool {
    let (i1, r1) = (cl::delta_issued(first.value()), cl::delta_revoked(first.value()));
    let (i2, r2) = (cl::delta_issued(second.value()), cl::delta_revoked(second.value()));
    let (i3, r3) = (cl::delta_issued(third.value()), cl::delta_revoked(third.value()));
    &&& i1.intersect(i2).disjoint(r3)
    &&& r1.intersect(r2).disjoint(i3)
    &&& i1.disjoint(r2.intersect(r3))
    &&& r1.disjoint(i2.intersect(i3))
}

/// Which of three deltas are merged first makes no difference.
pub proof fn law_merging_is_associative(
    first: RevocationRegistryDelta,
    second: RevocationRegistryDelta,
    third: RevocationRegistryDelta,
    left: RevocationRegistryDelta,
    right: RevocationRegistryDelta,
    left_first: RevocationRegistryDelta,
    right_first: RevocationRegistryDelta,
)
    requires
        moves_apart(first),
        moves_apart(second),
        moves_apart(third),
        moves_alternate(first, second, third),
        issuer::spans(left, first, second),
        issuer::spans(right, second, third),
        issuer::spans(left_first, left, third),
        issuer::spans(right_first, first, right),
    ensures
        cl::delta_is(
            right_first.value(),
            cl::delta_prev_accum(left_first.value()),
            cl::delta_accum(left_first.value()),
            cl::delta_issued(left_first.value()),
            cl::delta_revoked(left_first.value()),
        ),
{
    assert(cl::delta_issued(right_first.value()) =~= cl::delta_issued(left_first.value()));
    assert(cl::delta_revoked(right_first.value()) =~= cl::delta_revoked(left_first.value()));
}

// ---- issuing ----

/// A credential names its registry, and has the state of it and a witness, exactly where it
/// was issued for an index of one; and a delta comes with it exactly where the registry
/// counts no index as issued from the start.
pub proof fn law_revocation_parts_go_together(
    issued: (Credential, Option<RevocationRegistry>, Option<RevocationRegistryDelta>),
    key: cl::CredentialPublicKey,
    private: CredentialDefinitionPrivate,
    offer: CredentialOffer,
    request: CredentialRequest,
    values: CredentialValues,
    revocation: Option<CredentialRevocationConfig>,
)
    requires
        issuer::issues(Ok(issued), key, private, offer, request, values, revocation),
    ensures
        issued.0.rev_reg_id is Some <==> revocation is Some,
        issued.0.rev_reg is Some <==> revocation is Some,
        issued.0.witness is Some <==> revocation is Some,
        cl::signature_index(issued.0.signature) is Some <==> revocation is Some,
        issued.1 is Some <==> revocation is Some,
        issued.2 is Some <==> (revocation matches Some(config)
            && !config.reg_def.v1().value.issuance_type.by_default()),
{
}

/// A credential that answers an offer of `create_credential_offer` is of the schema and the
/// definition that were offered, and names its registry as the definition of that does.
pub proof fn law_credential_is_as_offered(
    schema_id: SchemaId,
    cred_def: CredentialDefinition,
    key_proof: CredentialKeyCorrectnessProof,
    offer: CredentialOffer,
    issued: (Credential, Option<RevocationRegistry>, Option<RevocationRegistryDelta>),
    private: CredentialDefinitionPrivate,
    request: CredentialRequest,
    values: CredentialValues,
    revocation: Option<CredentialRevocationConfig>,
)
    requires
        issuer::offers(offer, schema_id, cred_def, key_proof.value),
        issuer::creates(Ok(issued), cred_def, private, offer, request, values, revocation),
    ensures
        issued.0.schema_id == schema_id,
        issued.0.cred_def_id == cred_def.v1().id,
        issued.0.values == values,
        revocation matches Some(config) ==> (issued.0.rev_reg_id matches Some(id) && id@
            == config.reg_def.v1().id@),
{
}

/// The delta of an index issued on demand and that of its revocation merge. Where the
/// revocation part of the definition's key was drawn, the registry is then as it was before,
/// and the delta that covers both moves no index.
pub proof fn law_revocation_undoes_issuing(
    issued: (Credential, Option<RevocationRegistry>, Option<RevocationRegistryDelta>),
    cred_def: CredentialDefinition,
    private: CredentialDefinitionPrivate,
    offer: CredentialOffer,
    request: CredentialRequest,
    values: CredentialValues,
    config: CredentialRevocationConfig,
    revoked: (RevocationRegistry, RevocationRegistryDelta),
)
    requires
        issuer::creates(
            Ok(issued),
            cred_def,
            private,
            offer,
            request,
            values,
            Some(config),
        ),
        !config.reg_def.v1().value.issuance_type.by_default(),
        issued.1 matches Some(registry) && issuer::steps_from(
            revoked,
            registry,
            config.reg_def.v1().value.max_cred_num,
            set![],
            set![config.registry_idx],
            cred_def.v1().value.key(),
            *config.reg_def_private,
        ),
    ensures
        issued.2 matches Some(delta) && issuer::follows(delta, revoked.1),
        cl::part_is_drawn(cred_def.v1().value.revocation) ==> revoked.0.accum()
            == config.registry.accum(),
        cl::part_is_drawn(cred_def.v1().value.revocation) ==> forall|
            merged: RevocationRegistryDelta,
        | #[trigger]
            issuer::spans(merged, issued.2->0, revoked.1) ==> cl::delta_is(
                merged.value(),
                Some(config.registry.accum()),
                config.registry.accum(),
                set![],
                set![],
            ),
{
    if cl::part_is_drawn(cred_def.v1().value.revocation) {
        law_opposite_step_undoes(
            (issued.1->0, issued.2->0),
            revoked,
            *config.registry,
            config.reg_def.v1().value.max_cred_num,
            set![config.registry_idx],
            set![],
            cred_def.v1().value.key(),
            *config.reg_def_private,
        );
    }
}

/// The method that an offer names changes nothing in what is issued but the name of the
/// registry: where the signature scheme gives the same for two offers that differ in the method
/// alone, both attempts succeed or both fail with the same error; and where they succeed, the
/// second names the registry without the methods, and all else is the same.
pub proof fn law_method_changes_registry_name_only(
    first: Result<(Credential, Option<RevocationRegistry>, Option<RevocationRegistryDelta>), Error>,
    second: Result<
        (Credential, Option<RevocationRegistry>, Option<RevocationRegistryDelta>),
        Error,
    >,
    cred_def: CredentialDefinition,
    private: CredentialDefinitionPrivate,
    offers: (CredentialOffer, CredentialOffer),
    request: CredentialRequest,
    values: CredentialValues,
    config: CredentialRevocationConfig,
    built: cl::ClCredentialValues,
    after: cl::ClRevocationRegistry,
    signed: Result<
        (
            cl::CredentialSignature,
            cl::SignatureCorrectnessProof,
            cl::Witness,
            Option<cl::ClRevocationRegistryDelta>,
        ),
        cl::ClError,
    >,
)
    requires
        offers.0.method_name is None,
        offers.1.method_name is Some,
        offers.1 == (CredentialOffer { method_name: offers.1.method_name, ..offers.0 }),
        issuer::comes_of_signing_for_index(
            first,
            cred_def.v1().value.key(),
            private,
            offers.0,
            request,
            values,
            config,
            built,
            after,
            signed,
        ),
        issuer::comes_of_signing_for_index(
            second,
            cred_def.v1().value.key(),
            private,
            offers.1,
            request,
            values,
            config,
            built,
            after,
            signed,
        ),
    ensures
        first is Ok <==> second is Ok,
        first is Err ==> first == second,
        first is Ok ==> {
            let (c1, c2) = (first->Ok_0.0, second->Ok_0.0);
            &&& c1.rev_reg_id is Some && c2.rev_reg_id is Some
            &&& (c2.rev_reg_id->0)@ == identifiers::rev_reg_id_unqualified((c1.rev_reg_id->0)@)
            &&& c2 == (Credential { rev_reg_id: c2.rev_reg_id, ..c1 })
            &&& first->Ok_0.1 == second->Ok_0.1
            &&& first->Ok_0.2 == second->Ok_0.2
        },
{
}

/// Where no registry is signed for, the method that an offer names changes nothing at all.
pub proof fn law_method_changes_nothing_without_registry(
    first: Result<(Credential, Option<RevocationRegistry>, Option<RevocationRegistryDelta>), Error>,
    second: Result<
        (Credential, Option<RevocationRegistry>, Option<RevocationRegistryDelta>),
        Error,
    >,
    cred_def: CredentialDefinition,
    private: CredentialDefinitionPrivate,
    offers: (CredentialOffer, CredentialOffer),
    request: CredentialRequest,
    values: CredentialValues,
    built: cl::ClCredentialValues,
    signed: Result<(cl::CredentialSignature, cl::SignatureCorrectnessProof), cl::ClError>,
)
    requires
        offers.1 == (CredentialOffer { method_name: offers.1.method_name, ..offers.0 }),
        issuer::comes_of_signing(
            first,
            cred_def.v1().value.key(),
            private,
            offers.0,
            request,
            values,
            built,
            signed,
        ),
        issuer::comes_of_signing(
            second,
            cred_def.v1().value.key(),
            private,
            offers.1,
            request,
            values,
            built,
            signed,
        ),
    ensures
        first == second,
{
}

/// What `create_credential` returns comes of one attempt to sign, where the values are numbers
/// and the public key could be fetched.
pub proof fn law_credential_comes_of_signing(
    res: Result<(Credential, Option<RevocationRegistry>, Option<RevocationRegistryDelta>), Error>,
    cred_def: CredentialDefinition,
    private: CredentialDefinitionPrivate,
    offer: CredentialOffer,
    request: CredentialRequest,
    values: CredentialValues,
    revocation: Option<CredentialRevocationConfig>,
)
    requires
        issuer::creates(res, cred_def, private, offer, request, values, revocation),
        helpers::entries_are_numbers(values@),
        res matches Err(err) ==> !issuer::key_not_supported(err),
    ensures
        revocation is None ==> exists|
            built: cl::ClCredentialValues,
            signed: Result<(cl::CredentialSignature, cl::SignatureCorrectnessProof), cl::ClError>,
        | #[trigger]
            issuer::comes_of_signing(
                res,
                cred_def.v1().value.key(),
                private,
                offer,
                request,
                values,
                built,
                signed,
            ),
        revocation matches Some(config) ==> exists|
            built: cl::ClCredentialValues,
            after: cl::ClRevocationRegistry,
            signed: Result<
                (
                    cl::CredentialSignature,
                    cl::SignatureCorrectnessProof,
                    cl::Witness,
                    Option<cl::ClRevocationRegistryDelta>,
                ),
                cl::ClError,
            >,
        | #[trigger]
            issuer::comes_of_signing_for_index(
                res,
                cred_def.v1().value.key(),
                private,
                offer,
                request,
                values,
                config,
                built,
                after,
                signed,
            ),
{
}

/// A registry is signed for with the size and the choice of issuance that it was made with.
pub proof fn law_registry_is_signed_for_as_made(
    made: (
        RevocationRegistryDefinition,
        RevocationRegistryDefinitionPrivate,
        RevocationRegistry,
        RevocationRegistryDelta,
    ),
    cred_def: CredentialDefinition,
    tag: Seq<char>,
    rev_reg_type: RegistryType,
    issuance_type: IssuanceType,
    max_cred_num: u32,
    issued: (Credential, Option<RevocationRegistry>, Option<RevocationRegistryDelta>),
    private: CredentialDefinitionPrivate,
    offer: CredentialOffer,
    request: CredentialRequest,
    values: CredentialValues,
    config: CredentialRevocationConfig,
)
    requires
        issuer::describes_registry(
            made.0,
            made.0.v1().id,
            cred_def.v1(),
            tag,
            rev_reg_type,
            issuance_type,
            max_cred_num,
        ),
        issuer::starts_registry(made.0, made.1, made.2, made.3, cred_def.v1().value.key()),
        *config.reg_def == made.0,
        *config.reg_def_private == made.1,
        *config.registry == made.2,
        issuer::creates(Ok(issued), cred_def, private, offer, request, values, Some(config)),
    ensures
        made.2.accum() == cl::initial_accum(
            cred_def.v1().value.key(),
            made.1.value,
            max_cred_num,
            issuance_type.by_default(),
        ),
        exists|
            built: cl::ClCredentialValues,
            after: cl::ClRevocationRegistry,
            delta: Option<cl::ClRevocationRegistryDelta>,
        |
            {
                &&& cl::value_entries(built) == helpers::encoded_entries(values@)
                &&& #[trigger] cl::signed_with_index(
                    request.prover_did@,
                    request.blinded_ms,
                    request.blinded_ms_correctness_proof,
                    cl::nonce_number(offer.nonce),
                    cl::nonce_number(request.nonce),
                    built,
                    cred_def.v1().value.key(),
                    private.value,
                    config.registry_idx,
                    max_cred_num,
                    issuance_type.by_default(),
                    made.2.value(),
                    made.1.value,
                    after,
                    Ok(
                        (
                            issued.0.signature,
                            issued.0.signature_correctness_proof,
                            issued.0.witness->0,
                            delta,
                        ),
                    ),
                )
            },
        issued.0.witness == Some(
            cl::issued_witness(
                made.2.value(),
                config.registry_idx,
                max_cred_num,
                issuance_type.by_default(),
                cred_def.v1().value.key(),
                made.1.value,
            ),
        ),
{
    let key = cred_def.v1().value.key();
    let (built, after, signed) = choose|
        built: cl::ClCredentialValues,
        after: cl::ClRevocationRegistry,
        signed: Result<
            (
                cl::CredentialSignature,
                cl::SignatureCorrectnessProof,
                cl::Witness,
                Option<cl::ClRevocationRegistryDelta>,
            ),
            cl::ClError,
        >,
    | #[trigger]
        issuer::comes_of_signing_for_index(
            Ok(issued),
            key,
            private,
            offer,
            request,
            values,
            config,
            built,
            after,
            signed,
        );
    assert(signed == Ok::<_, cl::ClError>(
        (
            issued.0.signature,
            issued.0.signature_correctness_proof,
            issued.0.witness->0,
            (signed->Ok_0).3,
        ),
    ));
}

/// An index that counts as issued from the start is issued without a step of the registry,
/// so that a step from the state before is a step from the state after.
pub proof fn law_default_issuing_keeps_registry(
    issued: (Credential, Option<RevocationRegistry>, Option<RevocationRegistryDelta>),
    key: cl::CredentialPublicKey,
    private: CredentialDefinitionPrivate,
    offer: CredentialOffer,
    request: CredentialRequest,
    values: CredentialValues,
    config: CredentialRevocationConfig,
)
    requires
        issuer::issues(Ok(issued), key, private, offer, request, values, Some(config)),
        config.reg_def.v1().value.issuance_type.by_default(),
    ensures
        issued.1 matches Some(registry) && registry.value() == config.registry.value(),
        issued.2 is None,
        forall|
            step: (RevocationRegistry, RevocationRegistryDelta),
            revoked: Set<u32>,
        | #[trigger]
            issuer::steps_from(
                step,
                *config.registry,
                config.reg_def.v1().value.max_cred_num,
                set![],
                revoked,
                key,
                *config.reg_def_private,
            ) ==> issuer::steps_from(
                step,
                issued.1->0,
                config.reg_def.v1().value.max_cred_num,
                set![],
                revoked,
                key,
                *config.reg_def_private,
            ),
{
}

// ---- identifiers ----

/// An entity that begins with a DID and a marker. It reads as qualified under a prefix only
/// where the DID and the marker do.
proof fn lemma_entity_of_plain_did(
    prefix: Seq<char>,
    did: Seq<char>,
    marker: char,
    tail: Seq<char>,
)
    requires
        !prefix.contains(':'),
        qualified::method_of(prefix, did + seq![':', marker, ':']) is None || tail.contains('\n'),
    ensures
        qualified::method_of(prefix, did + seq![':', marker, ':'] + tail) is None,
{
    let head = did + seq![':', marker, ':'];
    let id = head + tail;
    if qualified::method_of(prefix, id) is Some {
        let (method, rest) = choose|method: Seq<char>, rest: Seq<char>|
            qualified::qualified_as(id, prefix, method, rest);
        let start: int = prefix.len() as int + 1;
        let end: int = start + method.len();
        assert(id[prefix.len() as int] == ':');
        assert(id[end] == ':');
        assert(id[did.len() as int] == ':');
        assert(id[did.len() as int + 2] == ':');
        assert forall|i: int| 0 <= i < prefix.len() implies id[i] != ':' by {
            assert(id[i] == prefix[i]);
            if id[i] == ':' {
                assert(prefix.contains(':'));
            }
        }
        assert forall|i: int| start <= i < end implies id[i] != ':' by {
            assert(id[i] == method[i - start]);
        }
        // The second colon of the whole lies within the DID and the marker.
        assert(end < head.len());
        let cut = head.subrange(end + 1, head.len() as int);
        assert(rest =~= id.subrange(end + 1, id.len() as int));
        assert(rest =~= cut + tail);
        if tail.contains('\n') {
            let i = choose|i: int| 0 <= i < tail.len() && tail[i] == '\n';
            assert((cut + tail)[cut.len() + i] == '\n');
            assert(rest.contains('\n'));
        } else {
            if cut.contains('\n') {
                let i = choose|i: int| 0 <= i < cut.len() && cut[i] == '\n';
                assert(rest[i] == '\n');
            }
            assert(head =~= prefix + seq![':'] + method + seq![':'] + cut) by {
                assert forall|i: int| 0 <= i < end + 1 implies head[i] == (prefix + seq![':']
                    + method + seq![':'] + cut)[i] by {
                    assert(head[i] == id[i]);
                    assert(id[i] == (prefix + seq![':'] + method + seq![':'] + rest)[i]);
                }
            }
            assert(qualified::qualified_as(head, prefix, method, cut));
        }
    }
}

/// The tail of an identifier that is qualified by the method of a DID, and begins with the
/// DID and a marker, makes it no longer qualified only where it has a line break.
proof fn lemma_entity_of_qualified_did(
    prefix: Seq<char>,
    did: Seq<char>,
    marker: char,
    tail: Seq<char>,
)
    requires
        qualified::is_label(prefix),
        identifiers::did_method(did) is Some,
        marker != '\n',
        !tail.contains('\n'),
    ensures
        qualified::method_of(
            prefix,
            qualified::qualify(
                prefix,
                identifiers::did_method(did),
                did + seq![':', marker, ':'] + tail,
            ),
        ) == identifiers::did_method(did),
{
    let (method, rest) = choose|method: Seq<char>, rest: Seq<char>|
        qualified::qualified_as(did, "did"@, method, rest);
    qualified::lemma_method_is_unique("did"@, did, method, rest);
    reveal_strlit("did");
    let entity = did + seq![':', marker, ':'] + tail;
    let id = qualified::qualify(prefix, Some(method), entity);
    assert forall|i: int| 0 <= i < entity.len() implies entity[i] != '\n' by {
        if i < did.len() {
            let start: int = 4 + method.len() as int;
            if 4 <= i < start {
                assert(did[i] == method[i - 4]);
            } else if i > start {
                assert(did[i] == rest[i - start - 1]);
                assert(rest[i - start - 1] != '\n') by {
                    if rest[i - start - 1] == '\n' {
                        assert(rest.contains('\n'));
                    }
                }
            } else if i == start {
                assert(did[i] == ':');
            } else if i < 3 {
                assert(did[i] == "did"@[i]);
            } else {
                assert(did[i] == ':');
            }
        } else if i >= did.len() + 3 {
            assert(entity[i] == tail[i - did.len() - 3]);
            if entity[i] == '\n' {
                assert(tail.contains('\n'));
            }
        }
    }
    assert(!entity.contains('\n'));
    assert(qualified::qualified_as(id, prefix, method, entity));
    qualified::lemma_method_is_unique(prefix, id, method, entity);
}

/// What follows a DID and a marker in an identifier does not change whether it is qualified:
/// it has no line break where the DID is qualified; and where the DID is not, the DID and
/// the marker do not read as qualified themselves, or a line break keeps the whole from it.
pub open spec fn method_carries_over(
    prefix: Seq<char>,
    did: Seq<char>,
    marker: char,
    tail: Seq<char>,
) -> bool {
    if identifiers::did_method(did) is Some {
        !tail.contains('\n')
    } else {
        qualified::method_of(prefix, did + seq![':', marker, ':']) is None || tail.contains('\n')
    }
}

/// The identifier of a schema has the method of the DID that publishes it.
pub proof fn law_schema_has_method_of_did(did: Seq<char>, name: Seq<char>, version: Seq<char>)
    requires
        method_carries_over("schema"@, did, '2', name + seq![':'] + version),
    ensures
        qualified::method_of("schema"@, identifiers::schema_id_text(did, name, version))
            == identifiers::did_method(did),
{
    reveal_strlit("schema");
    let tail = name + seq![':'] + version;
    assert(did + seq![':', '2', ':'] + name + seq![':'] + version =~= did + seq![':', '2', ':']
        + tail);
    if identifiers::did_method(did) is Some {
        lemma_entity_of_qualified_did("schema"@, did, '2', tail);
    } else {
        lemma_entity_of_plain_did("schema"@, did, '2', tail);
    }
}

/// A DID can make credential definitions for the schemas that it publishes itself: they are
/// not refused for having a method that the DID lacks.
pub proof fn law_own_schema_is_accepted(did: Seq<char>, name: Seq<char>, version: Seq<char>)
    requires
        identifiers::did_method(did) is None ==> method_carries_over(
            "schema"@,
            did,
            '2',
            name + seq![':'] + version,
        ),
    ensures
        !issuer::schema_is_foreign(did, identifiers::schema_id_text(did, name, version)),
{
    if identifiers::did_method(did) is None {
        law_schema_has_method_of_did(did, name, version);
    }
}

/// What follows the DID and the marker in the identifier of a credential definition.
pub open spec fn cred_def_tail(
    schema_id: Seq<char>,
    signature_type: Seq<char>,
    tag: Seq<char>,
) -> Seq<char> {
    signature_type + seq![':'] + schema_id + (if tag.len() == 0 {
        seq![]
    } else {
        seq![':'] + tag
    })
}

/// The identifier of a credential definition has the method of the DID that publishes it, so
/// that the DID can make revocation registries for it.
pub proof fn law_own_definition_is_accepted(
    did: Seq<char>,
    schema_id: Seq<char>,
    signature_type: Seq<char>,
    tag: Seq<char>,
)
    requires
        method_carries_over(
            "creddef"@,
            did,
            '3',
            cred_def_tail(schema_id, signature_type, tag),
        ),
    ensures
        qualified::method_of(
            "creddef"@,
            identifiers::cred_def_id_text(did, schema_id, signature_type, tag),
        ) == identifiers::did_method(did),
        !issuer::methods_differ(
            did,
            identifiers::cred_def_id_text(did, schema_id, signature_type, tag),
        ),
{
    reveal_strlit("creddef");
    let tail = cred_def_tail(schema_id, signature_type, tag);
    let tag_part: Seq<char> = if tag.len() == 0 {
        seq![]
    } else {
        seq![':'] + tag
    };
    assert(did + seq![':', '3', ':'] + signature_type + seq![':'] + schema_id + tag_part =~= did
        + seq![':', '3', ':'] + tail);
    if identifiers::did_method(did) is Some {
        lemma_entity_of_qualified_did("creddef"@, did, '3', tail);
    } else {
        lemma_entity_of_plain_did("creddef"@, did, '3', tail);
    }
}

/// The identifier of a revocation registry has the method of the DID that publishes it.
pub proof fn law_registry_has_method_of_did(
    did: Seq<char>,
    cred_def_id: Seq<char>,
    rev_reg_type: Seq<char>,
    tag: Seq<char>,
)
    requires
        method_carries_over(
            "revreg"@,
            did,
            '4',
            cred_def_id + seq![':'] + rev_reg_type + seq![':'] + tag,
        ),
    ensures
        qualified::method_of(
            "revreg"@,
            identifiers::rev_reg_id_text(did, cred_def_id, rev_reg_type, tag),
        ) == identifiers::did_method(did),
{
    reveal_strlit("revreg");
    let tail = cred_def_id + seq![':'] + rev_reg_type + seq![':'] + tag;
    assert(did + seq![':', '4', ':'] + cred_def_id + seq![':'] + rev_reg_type + seq![':'] + tag
        =~= did + seq![':', '4', ':'] + tail);
    if identifiers::did_method(did) is Some {
        lemma_entity_of_qualified_did("revreg"@, did, '4', tail);
    } else {
        lemma_entity_of_plain_did("revreg"@, did, '4', tail);
    }
}

/// The digits of a number have no colon, and tell the number.
proof fn lemma_decimal(n: nat, m: nat)
    ensures
        !helpers::decimal(n).contains(':'),
        helpers::decimal(n).len() > 0,
        helpers::decimal(n) == helpers::decimal(m) ==> n == m,
    decreases n,
{
    let (a, b) = (helpers::decimal(n), helpers::decimal(m));
    assert forall|i: int| 0 <= i < a.len() implies a[i] != ':' by {
        if n >= 10 {
            lemma_decimal(n / 10, m / 10);
            if i < a.len() - 1 {
                assert(a[i] == helpers::decimal(n / 10)[i]);
                assert(helpers::decimal(n / 10).contains(a[i]));
            }
        }
    }
    if n >= 10 {
        lemma_decimal(n / 10, m / 10);
    }
    if m >= 10 {
        assert(helpers::decimal(m / 10).len() > 0) by {
            lemma_decimal_has_digits(m / 10);
        }
    }
    if a == b {
        assert(a.last() == b.last());
        if n >= 10 && m >= 10 {
            assert(a.drop_last() =~= helpers::decimal(n / 10));
            assert(b.drop_last() =~= helpers::decimal(m / 10));
        }
    }
}

proof fn lemma_decimal_has_digits(n: nat)
    ensures
        helpers::decimal(n).len() > 0,
    decreases n,
{
}

/// Two credential definitions of one DID, for schemas with sequence numbers, have the same
/// identifier only where the numbers and the tags are the same.
pub proof fn law_definition_id_tells_schema_and_tag(
    did: Seq<char>,
    seq_nos: (u32, u32),
    schema_ids: (Seq<char>, Seq<char>),
    signature_type: Seq<char>,
    tags: (Seq<char>, Seq<char>),
)
    requires
        identifiers::cred_def_id_text(
            did,
            issuer::schema_part(Some(seq_nos.0), schema_ids.0),
            signature_type,
            tags.0,
        ) == identifiers::cred_def_id_text(
            did,
            issuer::schema_part(Some(seq_nos.1), schema_ids.1),
            signature_type,
            tags.1,
        ),
    ensures
        seq_nos.0 == seq_nos.1,
        tags.0 == tags.1,
{
    let (a, b) = (helpers::decimal(seq_nos.0 as nat), helpers::decimal(seq_nos.1 as nat));
    lemma_decimal(seq_nos.0 as nat, seq_nos.1 as nat);
    lemma_decimal(seq_nos.1 as nat, seq_nos.0 as nat);
    let (s, t) = (tags.0, tags.1);
    let s_part: Seq<char> = if s.len() == 0 {
        seq![]
    } else {
        seq![':'] + s
    };
    let t_part: Seq<char> = if t.len() == 0 {
        seq![]
    } else {
        seq![':'] + t
    };
    let head = did + seq![':', '3', ':'] + signature_type + seq![':'];
    let (x, y) = (head + a + s_part, head + b + t_part);
    lemma_same_entity("creddef"@, identifiers::did_method(did), x, y);
    assert(a + s_part =~= x.subrange(head.len() as int, x.len() as int));
    assert(b + t_part =~= y.subrange(head.len() as int, y.len() as int));
    lemma_first_part(a, s_part, b, t_part);
    if s.len() > 0 {
        assert(s =~= s_part.subrange(1, s_part.len() as int));
        assert(t =~= t_part.subrange(1, t_part.len() as int));
    } else {
        assert(s =~= t);
    }
}

/// Entities that come out the same when they are qualified are the same.
proof fn lemma_same_entity(
    prefix: Seq<char>,
    method: Option<Seq<char>>,
    first: Seq<char>,
    second: Seq<char>,
)
    requires
        qualified::qualify(prefix, method, first) == qualified::qualify(prefix, method, second),
    ensures
        first == second,
{
    if let Some(method) = method {
        let id = qualified::qualify(prefix, Some(method), first);
        let start: int = prefix.len() as int + method.len() as int + 2;
        assert(first =~= id.subrange(start, id.len() as int));
        assert(second =~= id.subrange(start, id.len() as int));
    }
}

/// Two texts without colons are the same where they stay the same with what follows them,
/// which is empty or begins with a colon.
proof fn lemma_first_part(a: Seq<char>, s: Seq<char>, b: Seq<char>, t: Seq<char>)
    requires
        !a.contains(':'),
        !b.contains(':'),
        s.len() > 0 ==> s[0] == ':',
        t.len() > 0 ==> t[0] == ':',
        a + s == b + t,
    ensures
        a == b,
        s == t,
{
    let whole = a + s;
    if a.len() < b.len() {
        assert(whole[a.len() as int] == s[0]);
        assert((b + t)[a.len() as int] == b[a.len() as int]);
        assert(b.contains(':'));
    } else if b.len() < a.len() {
        assert(whole[b.len() as int] == a[b.len() as int]);
        assert((b + t)[b.len() as int] == t[0]);
        assert(a.contains(':'));
    }
    assert(a =~= whole.subrange(0, a.len() as int));
    assert(b =~= (b + t).subrange(0, b.len() as int));
    assert(s =~= whole.subrange(a.len() as int, whole.len() as int));
    assert(t =~= (b + t).subrange(b.len() as int, (b + t).len() as int));
}

/// A schema that has a sequence number is named by it: what the identifier of the schema is
/// makes no difference to that of the credential definition.
pub proof fn law_sequence_number_names_schema(
    did: Seq<char>,
    seq_no: u32,
    schema_ids: (Seq<char>, Seq<char>),
    signature_type: Seq<char>,
    tag: Seq<char>,
)
    ensures
        identifiers::cred_def_id_text(
            did,
            issuer::schema_part(Some(seq_no), schema_ids.0),
            signature_type,
            tag,
        ) == identifiers::cred_def_id_text(
            did,
            issuer::schema_part(Some(seq_no), schema_ids.1),
            signature_type,
            tag,
        ),
{
}

/// Two revocation registries of one DID and one credential definition have the same
/// identifier only where their tags are the same.
pub proof fn law_registry_id_tells_tag(
    did: Seq<char>,
    cred_def_id: Seq<char>,
    rev_reg_type: Seq<char>,
    tags: (Seq<char>, Seq<char>),
)
    requires
        identifiers::rev_reg_id_text(did, cred_def_id, rev_reg_type, tags.0)
            == identifiers::rev_reg_id_text(did, cred_def_id, rev_reg_type, tags.1),
    ensures
        tags.0 == tags.1,
{
    let head = did + seq![':', '4', ':'] + cred_def_id + seq![':'] + rev_reg_type + seq![':'];
    let (x, y) = (head + tags.0, head + tags.1);
    lemma_same_entity("revreg"@, identifiers::did_method(did), x, y);
    assert(tags.0 =~= x.subrange(head.len() as int, x.len() as int));
    assert(tags.1 =~= y.subrange(head.len() as int, y.len() as int));
}

/// `id` reads `did:2:name:version`, with no further colon and a version that is not empty.
pub open spec fn is_plain_schema_id(
    id: Seq<char>,
    did: Seq<char>,
    name: Seq<char>,
    version: Seq<char>,
) -> bool {
    &&& id == did + seq![':', '2', ':'] + name + seq![':'] + version
    &&& !did.contains(':')
    &&& !name.contains(':')
    &&& !version.contains(':')
    &&& version.len() > 0
}

/// A schema identifier of the plain form takes on a method by qualifying its DID, and then
/// itself.
pub proof fn law_plain_schema_takes_method(
    id: Seq<char>,
    did: Seq<char>,
    name: Seq<char>,
    version: Seq<char>,
    method: Option<Seq<char>>,
)
    requires
        is_plain_schema_id(id, did, name, version),
        qualified::method_of("schema"@, id) is None,
    ensures
        identifiers::schema_id_with_method(id, method) == identifiers::schema_id_text(
            qualified::qualify("did"@, method, did),
            name,
            version,
        ),
{
    let two = seq!['2'];
    assert(!two.contains(':'));
    assert(id =~= did + seq![':'] + two + seq![':'] + name + seq![':'] + version);
    qualified::lemma_only_piece(did);
    qualified::lemma_last_piece(did, two);
    qualified::lemma_last_piece(did + seq![':'] + two, name);
    qualified::lemma_last_piece(did + seq![':'] + two + seq![':'] + name, version);
    assert(qualified::parts(id) =~= seq![did, two, name, version]);
    assert(identifiers::did_method(did) is None) by {
        if identifiers::did_method(did) is Some {
            let (m, r) = choose|m: Seq<char>, r: Seq<char>|
                qualified::qualified_as(did, "did"@, m, r);
            assert(did["did"@.len() as int] == ':');
            assert(did.contains(':'));
        }
    }
}

/// A schema identifier that is qualified, or has no parts, stays as it is when it is given a
/// method.
pub proof fn law_other_schema_keeps_method(id: Seq<char>, method: Option<Seq<char>>)
    requires
        qualified::method_of("schema"@, id) is Some || !id.contains(':'),
    ensures
        identifiers::schema_id_with_method(id, method) == id,
{
    if !id.contains(':') {
        qualified::lemma_only_piece(id);
    }
}

} // verus!
