//! Commitment tests: the public/private split, the hash cross-check against
//! the collaborator, and the end-to-end scenario with a stub prover.

use shuffle_prover::cards::{CurvePoint, FieldElement, MaskedCard, JointPublicKey, N_CARDS_PUBLIC};
use shuffle_prover::codec::{decode_task, encode_response, encode_task};
use shuffle_prover::orchestrator::commitment;

use ark_ec_zypher::{AffineRepr, CurveGroup};
use ark_ed_on_bn254_zypher::{EdwardsProjective, Fq, Fr};
use ark_ff_zypher::{BigInteger, One, PrimeField, UniformRand};
use ark_serialize_zypher::{CanonicalSerialize, Compress};
use ethabi::ethereum_types::U256;
use ethabi::{ParamType, Token};
use rand_chacha::rand_core::SeedableRng;
use rand_chacha::ChaChaRng;
use uzkge::anemoi::{AnemoiJive, AnemoiJive254};

fn fe(v: u64) -> FieldElement {
    let mut b = vec![0u8; 32];
    b[24..32].copy_from_slice(&v.to_be_bytes());
    FieldElement::new(b)
}

fn card(seed: u64) -> MaskedCard {
    MaskedCard {
        e1: CurvePoint { x: fe(4 * seed), y: fe(4 * seed + 1) },
        e2: CurvePoint { x: fe(4 * seed + 2), y: fe(4 * seed + 3) },
    }
}

fn deck(n: u64) -> Vec<MaskedCard> {
    (0..n).map(card).collect()
}

/// The digest the hash collaborator computes over a deck's private suffix,
/// straight from the token bytes.
fn reference_digest(d: &[MaskedCard]) -> Vec<u8> {
    let mut elems: Vec<Fq> = Vec::new();
    for c in d.iter().skip(N_CARDS_PUBLIC) {
        elems.push(Fq::from_be_bytes_mod_order(&c.e2.x.bytes));
        elems.push(Fq::from_be_bytes_mod_order(&c.e2.y.bytes));
        elems.push(Fq::from_be_bytes_mod_order(&c.e1.x.bytes));
        elems.push(Fq::from_be_bytes_mod_order(&c.e1.y.bytes));
    }
    AnemoiJive254::eval_variable_length_hash(&elems)
        .into_bigint()
        .to_bytes_be()
}

#[test]
fn commitment_matches_collaborator_digest() {
    let d = deck(52);
    let mine = commitment(&d);
    assert_eq!(mine.bytes, reference_digest(&d));
}

#[test]
fn commitment_of_all_public_deck_hashes_nothing() {
    let d = deck(17);
    let mine = commitment(&d);
    let empty: Vec<Fq> = Vec::new();
    let expected = AnemoiJive254::eval_variable_length_hash(&empty)
        .into_bigint()
        .to_bytes_be();
    assert_eq!(mine.bytes, expected);
}

#[test]
fn commitment_ignores_public_prefix() {
    let d1 = deck(52);
    let mut d2 = deck(52);
    d2[0] = card(999);
    d2[16] = card(998);
    assert_eq!(commitment(&d1).bytes, commitment(&d2).bytes);
}

#[test]
fn commitment_sees_private_suffix() {
    let d1 = deck(52);
    let mut d2 = deck(52);
    d2[17] = card(999);
    assert_ne!(commitment(&d1).bytes, commitment(&d2).bytes);
    let mut d3 = deck(52);
    d3[51] = card(999);
    assert_ne!(commitment(&d1).bytes, commitment(&d3).bytes);
}

fn point_coords(p: &EdwardsProjective) -> CurvePoint {
    let (x, y) = p.into_affine().xy().unwrap();
    CurvePoint {
        x: FieldElement::new(x.into_bigint().to_bytes_be()),
        y: FieldElement::new(y.into_bigint().to_bytes_be()),
    }
}

#[test]
fn end_to_end_with_stub_prover() {
    // build joint key K and a 52-card deck of freshly masked points
    let mut rng = ChaChaRng::from_seed([42u8; 32]);
    let pair = zshuffle::keygen::Keypair::generate(&mut rng);
    let mut key_bytes = Vec::new();
    pair.public.serialize_with_mode(&mut key_bytes, Compress::Yes).unwrap();
    let key = JointPublicKey::new(key_bytes);

    let mut group_cards = Vec::new();
    let mut byte_deck: Vec<MaskedCard> = Vec::new();
    for _ in 0..52 {
        let point = EdwardsProjective::rand(&mut rng);
        let (mc, _) = zshuffle::mask::mask(&mut rng, &pair.public, &point, &Fr::one()).unwrap();
        byte_deck.push(MaskedCard {
            e1: point_coords(&mc.e1),
            e2: point_coords(&mc.e2),
        });
        group_cards.push(mc);
    }

    // encode the request, decode it back
    let digest = commitment(&byte_deck);
    let blob = encode_task(&key, &byte_deck, &digest);
    let (key2, deck2) = decode_task(&blob).expect("task must decode");
    assert_eq!(key2.bytes, key.bytes);
    assert_eq!(deck2.len(), 52);

    // stub proof system: the same deck unchanged, no key shares, empty proof
    let new_digest = commitment(&deck2);
    let response = encode_response(&deck2, &new_digest, &Vec::new(), &Vec::new());

    // the response decodes (reference decoder) to the same 52 cards in the
    // reversed field convention, the digest over the 35 private cards, and a
    // zero-length proof
    let toks = ethabi::decode(
        &[
            ParamType::Array(Box::new(ParamType::Uint(256))),
            ParamType::Uint(256),
            ParamType::Array(Box::new(ParamType::Uint(256))),
            ParamType::Bytes,
        ],
        &response,
    )
    .expect("response must decode");

    let card_toks = match &toks[0] {
        Token::Array(a) => a.clone(),
        _ => panic!("expected card token array"),
    };
    assert_eq!(card_toks.len(), 4 * 52);
    for (i, c) in group_cards.iter().enumerate() {
        let flat = c.flatten();
        for (j, f) in flat.iter().enumerate() {
            let mut expect = [0u8; 32];
            match &card_toks[4 * i + j] {
                Token::Uint(u) => u.to_big_endian(&mut expect),
                _ => panic!("expected uint token"),
            }
            assert_eq!(f.into_bigint().to_bytes_be(), expect.to_vec());
        }
    }

    let digest_tok = match &toks[1] {
        Token::Uint(u) => {
            let mut b = [0u8; 32];
            u.to_big_endian(&mut b);
            b.to_vec()
        },
        _ => panic!("expected digest token"),
    };
    let expected_digest = AnemoiJive254::eval_variable_length_hash(
        &group_cards
            .iter()
            .skip(N_CARDS_PUBLIC)
            .flat_map(|c| c.flatten())
            .collect::<Vec<_>>(),
    )
    .into_bigint()
    .to_bytes_be();
    assert_eq!(digest_tok, expected_digest);

    match &toks[2] {
        Token::Array(a) => assert!(a.is_empty()),
        _ => panic!("expected key-share array"),
    }
    match &toks[3] {
        Token::Bytes(b) => assert!(b.is_empty()),
        _ => panic!("expected proof bytes"),
    }
}
