//! Trusted interfaces to the cryptographic collaborators.
//!
//! Curve arithmetic, point decoding, the shuffle argument and the hash
//! permutation are outside this library's scope. Each item here wraps one
//! collaborator call; its contract states no more than the collaborator's
//! source shows. Everything the pipeline decides is proved against these
//! contracts alone. Curve points and proof-system cards are generic
//! instantiations Verus cannot declare, so they ride inside opaque
//! `external_body` holders.

use vstd::prelude::*;

use crate::cards::{CurvePoint, FieldElement, JointPublicKey};
use crate::codec::TaskError;
use ark_ed_on_bn254_zypher::{EdwardsAffine, EdwardsProjective, Fq};
use ark_bn254_zypher::G1Projective;
use ark_ff_zypher::{BigInteger, PrimeField};
use ark_serialize_zypher::{CanonicalDeserialize, Compress, Validate};
use ark_ec_zypher::{AffineRepr, CurveGroup};
use rand_chacha::ChaCha20Rng;
use uzkge::anemoi::{AnemoiJive, AnemoiJive254};
use zshuffle::build_cs::prove_shuffle;
use zshuffle::gen_params::params::refresh_prover_params_public_key;
use zshuffle::gen_params::{gen_shuffle_prover_params, ProverParams};

verus! {

#[verifier::external_type_specification]
#[verifier::external_body]
pub struct ExProverParams(ProverParams);

#[verifier::external_type_specification]
#[verifier::external_body]
pub struct ExChaCha20Rng(ChaCha20Rng);

/// An opaque element of the cards' curve group, held for the collaborators.
#[verifier::external_body]
pub struct GroupElement {
    inner: EdwardsProjective,
}

/// An opaque refreshed key share: an element of the key-share curve group.
#[verifier::external_body]
pub struct KeyShare {
    inner: G1Projective,
}

/// An opaque masked card in the proof system's own representation.
#[verifier::external_body]
pub struct GroupCard {
    inner: uzkge::shuffle::Ciphertext<EdwardsProjective>,
}

/// Whether 32 bytes are the canonical serialization of a valid group element
/// of the cards' curve: decided by the point-decoding collaborator, a
/// function of the bytes alone.
pub uninterp spec fn key_encoding_valid(b: Seq<u8>) -> bool;

/// Relies on ark_serialize's `CanonicalDeserialize` for the Edwards group
/// (compressed, validated): whether the joint-key bytes decode to a valid
/// point depends on the bytes alone; on failure nothing is returned.
#[verifier::external_body]
pub fn joint_key_point(key: &JointPublicKey) -> (r: Result<GroupElement, TaskError>)
    requires
        key.wf(),
    ensures
        r.is_ok() <==> key_encoding_valid(key.bytes@),
        r matches Err(e) ==> e == TaskError::KeyDeserialization,
{
    match EdwardsProjective::deserialize_with_mode(
        key.bytes.as_slice(),
        Compress::Yes,
        Validate::Yes,
    ) {
        Ok(p) => Ok(GroupElement { inner: p }),
        Err(_) => Err(TaskError::KeyDeserialization),
    }
}

/// Relies on ark_ff's `from_be_bytes_mod_order` and ark_ec's twisted Edwards
/// curve and subgroup checks: builds the point with the given affine
/// coordinates, refusing a pair that is off the curve or outside the
/// prime-order subgroup. The point itself is opaque, so nothing is claimed
/// of it.
#[verifier::external_body]
pub fn card_point(x: &FieldElement, y: &FieldElement) -> (r: Option<GroupElement>)
    requires
        x.wf(),
        y.wf(),
{
    let fx = Fq::from_be_bytes_mod_order(&x.bytes);
    let fy = Fq::from_be_bytes_mod_order(&y.bytes);
    let a = EdwardsAffine::new_unchecked(fx, fy);
    if a.is_on_curve() && a.is_in_correct_subgroup_assuming_on_curve() {
        Some(GroupElement { inner: a.into() })
    } else {
        None
    }
}

/// Relies on uzkge's `Ciphertext::new`: pairs the two points of one masked
/// card, natural (e1, e2) order.
#[verifier::external_body]
pub fn group_card(e1: &GroupElement, e2: &GroupElement) -> GroupCard {
    GroupCard { inner: uzkge::shuffle::Ciphertext::new(e1.inner, e2.inner) }
}

/// Relies on uzkge's `Ciphertext` field layout: hands a card's two points
/// back, natural (e1, e2) order.
#[verifier::external_body]
pub fn card_group_points(c: &GroupCard) -> (GroupElement, GroupElement) {
    (GroupElement { inner: c.inner.e1 }, GroupElement { inner: c.inner.e2 })
}

/// Relies on ark_ec's `into_affine` and `xy`, and ark_ff's big-endian
/// big-integer serialization, which is always 32 bytes for this field:
/// reads a point's affine coordinates; the group identity has none and is
/// refused.
#[verifier::external_body]
pub fn card_coords(p: &GroupElement) -> (r: Option<CurvePoint>)
    ensures
        r matches Some(c) ==> c.wf(),
{
    match p.inner.into_affine().xy() {
        Some((cx, cy)) => Some(
            CurvePoint {
                x: FieldElement { bytes: cx.into_bigint().to_bytes_be() },
                y: FieldElement { bytes: cy.into_bigint().to_bytes_be() },
            },
        ),
        None => None,
    }
}

/// Relies on ark_ec's `into_affine` and `xy`, and ark_ff's big-endian
/// big-integer serialization, for the key-share curve (32-byte
/// coordinates): reads a refreshed key share's affine coordinates; the
/// group identity has none and is refused.
#[verifier::external_body]
pub fn key_share_coords(p: &KeyShare) -> (r: Option<CurvePoint>)
    ensures
        r matches Some(c) ==> c.wf(),
{
    match p.inner.into_affine().xy() {
        Some((cx, cy)) => Some(
            CurvePoint {
                x: FieldElement { bytes: cx.into_bigint().to_bytes_be() },
                y: FieldElement { bytes: cy.into_bigint().to_bytes_be() },
            },
        ),
        None => None,
    }
}

/// Relies on zshuffle's `gen_shuffle_prover_params`: proving parameters
/// sized for an `n`-card deck; whether they can be materialized is the
/// collaborator's decision.
#[verifier::external_body]
pub fn shuffle_params(n: usize) -> (r: Result<ProverParams, TaskError>)
    ensures
        r matches Err(e) ==> e == TaskError::Proving,
{
    match gen_shuffle_prover_params(n) {
        Ok(p) => Ok(p),
        Err(_) => Err(TaskError::Proving),
    }
}

/// Relies on zshuffle's `refresh_prover_params_public_key`: refreshes the
/// key-dependent portion of the proving parameters against the joint key
/// and returns the refreshed key shares.
#[verifier::external_body]
pub fn refresh_key(params: &mut ProverParams, key: &GroupElement) -> (r: Result<
    Vec<KeyShare>,
    TaskError,
>)
    ensures
        r matches Err(e) ==> e == TaskError::Proving,
{
    match refresh_prover_params_public_key(params, &key.inner) {
        Ok(v) => Ok(v.into_iter().map(|p| KeyShare { inner: p }).collect()),
        Err(_) => Err(TaskError::Proving),
    }
}

/// Relies on zshuffle's `prove_shuffle` and uzkge's big-endian proof
/// serialization: runs the shuffle argument over the deck, returning the
/// proof bytes and the re-masked deck. The outcome consumes randomness, so
/// nothing is claimed of the values that come back.
#[verifier::external_body]
pub fn prove_shuffle_call(
    rng: &mut ChaCha20Rng,
    key: &GroupElement,
    cards: &Vec<GroupCard>,
    params: &ProverParams,
) -> (r: Result<(Vec<u8>, Vec<GroupCard>), TaskError>)
    ensures
        r matches Err(e) ==> e == TaskError::Proving,
{
    let inner_cards: Vec<_> = cards.iter().map(|c| c.inner).collect();
    match prove_shuffle(rng, &key.inner, &inner_cards, params) {
        Ok((proof, out)) => Ok(
            (proof.to_bytes_be(), out.into_iter().map(|c| GroupCard { inner: c }).collect()),
        ),
        Err(_) => Err(TaskError::Proving),
    }
}

/// The digest of the hash-commitment collaborator over a sequence of field
/// elements, each given as its 32-byte token: a fixed public permutation,
/// a function of the inputs alone.
pub uninterp spec fn commitment_hash(inputs: Seq<Seq<u8>>) -> Seq<u8>;

/// Relies on uzkge's `AnemoiJive254::eval_variable_length_hash`, with
/// ark_ff's byte conversions at both ends: the digest depends on the input
/// tokens alone and serializes to one 32-byte token.
#[verifier::external_body]
pub fn anemoi_digest(inputs: &Vec<FieldElement>) -> (r: FieldElement)
    requires
        forall|i: int| 0 <= i < inputs@.len() ==> inputs@[i].wf(),
    ensures
        r.bytes@ == commitment_hash(Seq::new(inputs@.len(), |i: int| inputs@[i].bytes@)),
        r.wf(),
{
    let elems: Vec<Fq> = inputs.iter().map(|f| Fq::from_be_bytes_mod_order(&f.bytes)).collect();
    let h = AnemoiJive254::eval_variable_length_hash(&elems);
    FieldElement { bytes: h.into_bigint().to_bytes_be() }
}

} // verus!
