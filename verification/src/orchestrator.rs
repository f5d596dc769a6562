//! The shuffle orchestration pipeline.
//!
//! One task runs decode -> proving parameters -> key refresh -> prove ->
//! commitment -> encode, in that order, with every failure fatal. The two
//! network calls (fetch and submit) stay outside this library; the pipeline
//! takes the fetched bytes and hands back the bytes to submit.

use vstd::prelude::*;

use crate::cards::{
    deck_tokens, deck_wf, CurvePoint, FieldElement, MaskedCard, N_CARDS_PUBLIC,
};
use crate::codec::{
    decode_task, encode_response, frame_ok, input_seg_ok, key_token, n_card_tokens, pkc_wf,
    pkc_tokens, publics_ok, publics_seg, response_bytes, task_decodable, TaskError,
};
use crate::cards::lemma_deck_tokens_take_step;
use crate::crypto::{
    anemoi_digest, card_coords, card_group_points, card_point, commitment_hash, group_card,
    joint_key_point, key_encoding_valid, key_share_coords, prove_shuffle_call, refresh_key,
    shuffle_params, GroupCard,
};
use rand_chacha::ChaCha20Rng;
use vstd::arithmetic::div_mod::lemma_fundamental_div_mod;

verus! {

/// The tokens that enter the hash commitment: the flattened coordinates of
/// exactly the private suffix of the deck — every card from position
/// `N_CARDS_PUBLIC` on, in wire token order — and never the public prefix.
pub open spec fn commitment_input(d: Seq<MaskedCard>) -> Seq<Seq<u8>> {
    if d.len() <= N_CARDS_PUBLIC {
        Seq::empty()
    } else {
        deck_tokens(d.skip(N_CARDS_PUBLIC as int))
    }
}

/// The commitment digest a deck binds its private suffix to.
pub open spec fn deck_commitment(d: Seq<MaskedCard>) -> Seq<u8> {
    commitment_hash(commitment_input(d))
}

/// The token views of a sequence of field elements.
pub open spec fn fe_views(s: Seq<FieldElement>) -> Seq<Seq<u8>> {
    Seq::new(s.len(), |i: int| s[i].bytes@)
}

/// Copies one token.
fn copy_token(f: &FieldElement) -> (r: FieldElement)
    requires
        f.wf(),
    ensures
        r.wf(),
        r.bytes@ == f.bytes@,
{
    let mut bytes: Vec<u8> = Vec::new();
    crate::codec::push_bytes(&mut bytes, &f.bytes);
    FieldElement { bytes }
}

/// Computes the hash commitment of a deck: the digest over the flattened
/// coordinates of the private suffix only.
pub fn commitment(deck: &Vec<MaskedCard>) -> (r: FieldElement)
    requires
        deck_wf(deck@),
    ensures
        r.wf(),
        r.bytes@ == deck_commitment(deck@),
{
    let n = deck.len();
    let mut inputs: Vec<FieldElement> = Vec::new();
    if n > N_CARDS_PUBLIC {
        let ghost suf = deck@.skip(N_CARDS_PUBLIC as int);
        let mut c: usize = N_CARDS_PUBLIC;
        proof {
            assert(suf.take(0) =~= Seq::<MaskedCard>::empty());
            assert(fe_views(inputs@) =~= deck_tokens(suf.take(0)));
        }
        while c < n
            invariant
                N_CARDS_PUBLIC <= c <= n,
                n == deck@.len(),
                n > N_CARDS_PUBLIC,
                deck_wf(deck@),
                suf == deck@.skip(N_CARDS_PUBLIC as int),
                forall|k: int| 0 <= k < inputs@.len() ==> inputs@[k].wf(),
                fe_views(inputs@) == deck_tokens(suf.take(c - N_CARDS_PUBLIC)),
            decreases n - c,
        {
            let card = &deck[c];
            inputs.push(copy_token(&card.e2.x));
            inputs.push(copy_token(&card.e2.y));
            inputs.push(copy_token(&card.e1.x));
            inputs.push(copy_token(&card.e1.y));
            proof {
                let j = c - N_CARDS_PUBLIC;
                assert(suf[j as int] == deck@[c as int]);
                lemma_deck_tokens_take_step(suf, j as int);
                assert(fe_views(inputs@) =~= deck_tokens(suf.take(j + 1)));
            }
            c = c + 1;
        }
        proof {
            assert(suf.take((n - N_CARDS_PUBLIC) as int) =~= suf);
        }
    }
    let r = anemoi_digest(&inputs);
    proof {
        assert(Seq::new(inputs@.len(), |i: int| inputs@[i].bytes@) =~= commitment_input(deck@));
    }
    r
}

/// Runs one fetched task blob end to end: decode the joint key and deck,
/// materialize proving parameters for the deck's size, refresh them against
/// the joint key, prove the re-masking, commit to the new deck's private
/// suffix, and encode the response. The caller performs the surrounding
/// network I/O and supplies the randomness source.
///
/// On success the output is exactly a response blob for some re-masked deck
/// of the same length, the commitment over its private suffix, the refreshed
/// key shares and the proof bytes. Which error comes back on which input is
/// pinned down for everything this library decides; `Proving` reports what
/// the collaborators refused.
#[verifier::loop_isolation(false)]
pub fn process_task(b: &Vec<u8>, rng: &mut ChaCha20Rng) -> (r: Result<Vec<u8>, TaskError>)
    ensures
        match r {
            Ok(out) => {
                &&& task_decodable(b@)
                &&& exists|nd: Seq<MaskedCard>, pkc: Seq<CurvePoint>, pf: Seq<u8>|
                    {
                        &&& 4 * nd.len() == n_card_tokens(publics_seg(b@))
                        &&& out@ == response_bytes(
                            deck_tokens(nd),
                            deck_commitment(nd),
                            pkc_tokens(pkc),
                            pf,
                        )
                    }
            },
            Err(e) => match e {
                TaskError::Frame => !frame_ok(b@),
                TaskError::Decoding => frame_ok(b@) && !(input_seg_ok(b@) && publics_ok(
                    publics_seg(b@),
                )),
                TaskError::KeyDeserialization => frame_ok(b@) && input_seg_ok(b@) && publics_ok(
                    publics_seg(b@),
                ) && !key_encoding_valid(key_token(b@)),
                TaskError::DeckLength => frame_ok(b@) && input_seg_ok(b@) && publics_ok(
                    publics_seg(b@),
                ) && key_encoding_valid(key_token(b@)) && !crate::codec::deck_len_ok(
                    publics_seg(b@),
                ),
                TaskError::Proving => task_decodable(b@),
                TaskError::Network => false,
            },
        },
{
    let decoded = match decode_task(b) {
        Ok(kd) => kd,
        Err(e) => {
            return Err(e);
        },
    };
    let key = decoded.0;
    let deck = decoded.1;
    let n = deck.len();
    let key_pt = match joint_key_point(&key) {
        Ok(p) => p,
        Err(_) => {
            proof {
                assert(false);
            }
            return Err(TaskError::Proving);
        },
    };
    let mut gcards: Vec<GroupCard> = Vec::new();
    let mut i: usize = 0;
    while i < n
        invariant
            0 <= i <= n,
            n == deck@.len(),
            deck_wf(deck@),
        decreases n - i,
    {
        let c = &deck[i];
        let e1 = match card_point(&c.e1.x, &c.e1.y) {
            Some(p) => p,
            None => {
                return Err(TaskError::Proving);
            },
        };
        let e2 = match card_point(&c.e2.x, &c.e2.y) {
            Some(p) => p,
            None => {
                return Err(TaskError::Proving);
            },
        };
        gcards.push(group_card(&e1, &e2));
        i = i + 1;
    }
    let mut params = match shuffle_params(n) {
        Ok(p) => p,
        Err(e) => {
            return Err(e);
        },
    };
    let pkc_raw = match refresh_key(&mut params, &key_pt) {
        Ok(v) => v,
        Err(e) => {
            return Err(e);
        },
    };
    let proved = match prove_shuffle_call(rng, &key_pt, &gcards, &params) {
        Ok(t) => t,
        Err(e) => {
            return Err(e);
        },
    };
    let proof_bytes = proved.0;
    let new_gcards = proved.1;
    if new_gcards.len() != n {
        return Err(TaskError::Proving);
    }
    let mut new_deck: Vec<MaskedCard> = Vec::new();
    let mut i: usize = 0;
    while i < n
        invariant
            0 <= i <= n,
            new_deck@.len() == i,
            n == new_gcards@.len(),
            deck_wf(new_deck@),
        decreases n - i,
    {
        let pts = card_group_points(&new_gcards[i]);
        let c1 = match card_coords(&pts.0) {
            Some(c) => c,
            None => {
                return Err(TaskError::Proving);
            },
        };
        let c2 = match card_coords(&pts.1) {
            Some(c) => c,
            None => {
                return Err(TaskError::Proving);
            },
        };
        new_deck.push(MaskedCard { e1: c1, e2: c2 });
        i = i + 1;
    }
    let mut pkc: Vec<CurvePoint> = Vec::new();
    let npkc = pkc_raw.len();
    let mut i: usize = 0;
    while i < npkc
        invariant
            0 <= i <= npkc,
            npkc == pkc_raw@.len(),
            pkc@.len() == i,
            pkc_wf(pkc@),
        decreases npkc - i,
    {
        let c = match key_share_coords(&pkc_raw[i]) {
            Some(c) => c,
            None => {
                return Err(TaskError::Proving);
            },
        };
        pkc.push(c);
        i = i + 1;
    }
    // The response must fit an addressable buffer; a collaborator output
    // past that is unusable.
    if n > (usize::MAX - 255) / 128 {
        return Err(TaskError::Proving);
    }
    proof {
        lemma_fundamental_div_mod((usize::MAX - 255) as int, 128);
    }
    let budget = usize::MAX - 255 - 128 * n;
    if pkc.len() > budget / 64 {
        return Err(TaskError::Proving);
    }
    proof {
        lemma_fundamental_div_mod(budget as int, 64);
    }
    let budget2 = budget - 64 * pkc.len();
    if proof_bytes.len() > budget2 {
        return Err(TaskError::Proving);
    }
    let digest = commitment(&new_deck);
    let out = encode_response(&new_deck, &digest, &pkc, &proof_bytes);
    proof {
        assert(4 * new_deck@.len() == n_card_tokens(publics_seg(b@)));
        assert(out@ == response_bytes(
            deck_tokens(new_deck@),
            deck_commitment(new_deck@),
            pkc_tokens(pkc@),
            proof_bytes@,
        ));
    }
    Ok(out)
}

} // verus!
