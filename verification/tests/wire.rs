//! Wire-codec tests: round trips, reference encodings, error paths.

use shuffle_prover::cards::{CurvePoint, FieldElement, JointPublicKey, MaskedCard};
use shuffle_prover::codec::{decode_task, encode_response, encode_task, TaskError};

use ark_serialize_zypher::{CanonicalSerialize, Compress};
use ethabi::ethereum_types::U256;
use ethabi::Token;
use rand_chacha::rand_core::SeedableRng;
use rand_chacha::ChaChaRng;

fn fe(pattern: u8) -> FieldElement {
    let mut b = vec![0u8; 32];
    b[31] = pattern;
    b[0] = pattern.wrapping_mul(3);
    FieldElement::new(b)
}

fn card(seed: u8) -> MaskedCard {
    MaskedCard {
        e1: CurvePoint { x: fe(seed), y: fe(seed.wrapping_add(1)) },
        e2: CurvePoint { x: fe(seed.wrapping_add(2)), y: fe(seed.wrapping_add(3)) },
    }
}

fn deck(n: usize) -> Vec<MaskedCard> {
    (0..n).map(|i| card((4 * i) as u8)).collect()
}

fn valid_key_bytes() -> Vec<u8> {
    let mut rng = ChaChaRng::from_seed([7u8; 32]);
    let pair = zshuffle::keygen::Keypair::generate(&mut rng);
    let mut v = Vec::new();
    pair.public.serialize_with_mode(&mut v, Compress::Yes).unwrap();
    assert_eq!(v.len(), 32);
    v
}

fn card_tokens_reversed(c: &MaskedCard) -> Vec<Token> {
    vec![
        Token::Uint(U256::from_big_endian(&c.e2.x.bytes)),
        Token::Uint(U256::from_big_endian(&c.e2.y.bytes)),
        Token::Uint(U256::from_big_endian(&c.e1.x.bytes)),
        Token::Uint(U256::from_big_endian(&c.e1.y.bytes)),
    ]
}

fn reference_task_blob(key: &[u8], d: &[MaskedCard], digest: &FieldElement) -> Vec<u8> {
    let key_token = Token::Uint(U256::from_big_endian(key));
    let inputs_bytes = ethabi::encode(&[key_token]);
    let mut card_toks = Vec::new();
    for c in d {
        card_toks.extend(card_tokens_reversed(c));
    }
    let publics_bytes = ethabi::encode(&[
        Token::Array(card_toks),
        Token::Uint(U256::from_big_endian(&digest.bytes)),
    ]);
    let mut out = (inputs_bytes.len() as u32).to_be_bytes().to_vec();
    out.extend(inputs_bytes);
    out.extend(publics_bytes);
    out
}

#[test]
fn encode_task_matches_reference_abi() {
    let key = JointPublicKey::new(valid_key_bytes());
    let d = deck(3);
    let digest = fe(0xAA);
    let mine = encode_task(&key, &d, &digest);
    let reference = reference_task_blob(&key.bytes, &d, &digest);
    assert_eq!(mine, reference);
}

#[test]
fn encode_response_matches_reference_abi() {
    let d = deck(2);
    let digest = fe(0x42);
    let pkc = vec![
        CurvePoint { x: fe(0x10), y: fe(0x11) },
        CurvePoint { x: fe(0x12), y: fe(0x13) },
        CurvePoint { x: fe(0x14), y: fe(0x15) },
    ];
    let proof: Vec<u8> = vec![1, 2, 3, 4, 5];
    let mine = encode_response(&d, &digest, &pkc, &proof);

    let mut card_toks = Vec::new();
    for c in &d {
        card_toks.extend(card_tokens_reversed(c));
    }
    let mut pkc_toks = Vec::new();
    for p in &pkc {
        pkc_toks.push(Token::Uint(U256::from_big_endian(&p.x.bytes)));
        pkc_toks.push(Token::Uint(U256::from_big_endian(&p.y.bytes)));
    }
    let reference = ethabi::encode(&[
        Token::Array(card_toks),
        Token::Uint(U256::from_big_endian(&digest.bytes)),
        Token::Array(pkc_toks),
        Token::Bytes(proof.clone()),
    ]);
    assert_eq!(mine, reference);
}

#[test]
fn encode_response_empty_proof_matches_reference_abi() {
    let d = deck(1);
    let digest = fe(0x01);
    let pkc: Vec<CurvePoint> = Vec::new();
    let proof: Vec<u8> = Vec::new();
    let mine = encode_response(&d, &digest, &pkc, &proof);
    let mut card_toks = Vec::new();
    for c in &d {
        card_toks.extend(card_tokens_reversed(c));
    }
    let reference = ethabi::encode(&[
        Token::Array(card_toks),
        Token::Uint(U256::from_big_endian(&digest.bytes)),
        Token::Array(Vec::new()),
        Token::Bytes(Vec::new()),
    ]);
    assert_eq!(mine, reference);
}

#[test]
fn task_round_trip() {
    let key = JointPublicKey::new(valid_key_bytes());
    let d = deck(8);
    let digest = fe(0x33);
    let blob = encode_task(&key, &d, &digest);
    let (key2, d2) = decode_task(&blob).expect("round trip must decode");
    assert_eq!(key2.bytes, key.bytes);
    assert_eq!(d2.len(), d.len());
    for (a, b) in d.iter().zip(d2.iter()) {
        assert_eq!(a.e1.x.bytes, b.e1.x.bytes);
        assert_eq!(a.e1.y.bytes, b.e1.y.bytes);
        assert_eq!(a.e2.x.bytes, b.e2.x.bytes);
        assert_eq!(a.e2.y.bytes, b.e2.y.bytes);
    }
}

#[test]
fn card_field_ordering_on_the_wire() {
    let key = JointPublicKey::new(valid_key_bytes());
    let c = card(0x50);
    let d = vec![MaskedCard {
        e1: CurvePoint { x: c.e1.x, y: c.e1.y },
        e2: CurvePoint { x: c.e2.x, y: c.e2.y },
    }];
    let blob = encode_task(&key, &d, &fe(0));
    // layout: 4 prefix + 32 key + 32 offset + 32 digest + 32 length + tokens
    let toks = &blob[132..];
    let c0 = card(0x50);
    assert_eq!(&toks[0..32], c0.e2.x.bytes.as_slice());
    assert_eq!(&toks[32..64], c0.e2.y.bytes.as_slice());
    assert_eq!(&toks[64..96], c0.e1.x.bytes.as_slice());
    assert_eq!(&toks[96..128], c0.e1.y.bytes.as_slice());
    // decoding reconstructs (e1, e2) exactly, not swapped
    let (_, d2) = decode_task(&blob).unwrap();
    assert_eq!(d2[0].e1.x.bytes, c0.e1.x.bytes);
    assert_eq!(d2[0].e1.y.bytes, c0.e1.y.bytes);
    assert_eq!(d2[0].e2.x.bytes, c0.e2.x.bytes);
    assert_eq!(d2[0].e2.y.bytes, c0.e2.y.bytes);
}

#[test]
fn frame_error_on_short_buffer() {
    assert!(matches!(decode_task(&vec![1, 2, 3]), Err(TaskError::Frame)));
}

#[test]
fn frame_error_on_oversized_length_prefix() {
    // a prefix that declares more input bytes than the buffer holds
    let key = JointPublicKey::new(valid_key_bytes());
    let mut blob = encode_task(&key, &deck(2), &fe(0));
    let total = blob.len() as u32;
    blob[0..4].copy_from_slice(&total.to_be_bytes());
    assert!(matches!(decode_task(&blob), Err(TaskError::Frame)));
}

#[test]
fn decoding_error_on_short_input_segment() {
    // a frame-sound prefix that declares fewer than 32 key bytes
    let mut blob = vec![0u8, 0, 0, 16];
    blob.extend(vec![0u8; 16]);
    blob.extend(vec![0u8; 96]);
    assert!(matches!(decode_task(&blob), Err(TaskError::Decoding)));
}

#[test]
fn decoding_error_on_truncated_publics() {
    let key = JointPublicKey::new(valid_key_bytes());
    let blob = encode_task(&key, &deck(2), &fe(0));
    let truncated: Vec<u8> = blob[..blob.len() - 32].to_vec();
    assert!(matches!(decode_task(&truncated), Err(TaskError::Decoding)));
}

#[test]
fn key_error_on_invalid_point_encoding() {
    let bad_key = JointPublicKey::new(vec![0xFFu8; 32]);
    let blob = encode_task(&bad_key, &deck(2), &fe(0));
    assert!(matches!(decode_task(&blob), Err(TaskError::KeyDeserialization)));
}

#[test]
fn deck_length_error_on_ragged_token_count() {
    // publics with 5 card tokens: not divisible by 4
    let key_bytes = valid_key_bytes();
    let key_token = Token::Uint(U256::from_big_endian(&key_bytes));
    let inputs_bytes = ethabi::encode(&[key_token]);
    let toks: Vec<Token> = (0..5u8).map(|i| Token::Uint(U256::from(i))).collect();
    let publics_bytes = ethabi::encode(&[Token::Array(toks), Token::Uint(U256::from(9u8))]);
    let mut blob = (inputs_bytes.len() as u32).to_be_bytes().to_vec();
    blob.extend(inputs_bytes);
    blob.extend(publics_bytes);
    assert!(matches!(decode_task(&blob), Err(TaskError::DeckLength)));
}

#[test]
fn decode_accepts_reference_encoder_output() {
    // a blob produced entirely by the reference token encoder decodes
    let key_bytes = valid_key_bytes();
    let d = deck(4);
    let digest = fe(0x77);
    let blob = reference_task_blob(&key_bytes, &d, &digest);
    let (key2, d2) = decode_task(&blob).expect("reference blob must decode");
    assert_eq!(key2.bytes, key_bytes);
    assert_eq!(d2.len(), 4);
    for (a, b) in d.iter().zip(d2.iter()) {
        assert_eq!(a.e1.x.bytes, b.e1.x.bytes);
        assert_eq!(a.e2.y.bytes, b.e2.y.bytes);
    }
    // a decoded deck re-encodes to the same publics segment
    let blob2 = encode_task(&JointPublicKey::new(key2.bytes), &d2, &digest);
    assert_eq!(blob, blob2);
}

#[test]
fn decode_follows_declared_array_offset() {
    // a publics segment whose array sits behind a 32-byte gap: offset 96
    // instead of the canonical 64
    let key_bytes = valid_key_bytes();
    let d = deck(1);
    let digest = fe(0x05);
    let mut blob = vec![0u8, 0, 0, 32];
    blob.extend(&key_bytes);
    let mut offset_word = [0u8; 32];
    offset_word[31] = 96;
    blob.extend(&offset_word);
    blob.extend(&digest.bytes);
    blob.extend([0u8; 32]); // the gap
    let mut len_word = [0u8; 32];
    len_word[31] = 4;
    blob.extend(&len_word);
    blob.extend(&d[0].e2.x.bytes);
    blob.extend(&d[0].e2.y.bytes);
    blob.extend(&d[0].e1.x.bytes);
    blob.extend(&d[0].e1.y.bytes);
    let (key2, d2) = decode_task(&blob).expect("shifted array must decode");
    assert_eq!(key2.bytes, key_bytes);
    assert_eq!(d2.len(), 1);
    assert_eq!(d2[0].e1.x.bytes, d[0].e1.x.bytes);
    assert_eq!(d2[0].e2.y.bytes, d[0].e2.y.bytes);
}

#[test]
fn decoding_error_on_oversized_offset_word() {
    let key = JointPublicKey::new(valid_key_bytes());
    let mut blob = encode_task(&key, &deck(1), &fe(0));
    // corrupt the array-offset word's top byte
    blob[36] = 0x01;
    assert!(matches!(decode_task(&blob), Err(TaskError::Decoding)));
}
