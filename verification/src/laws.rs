//! The codec's laws, proved once and for all inputs.

use vstd::prelude::*;

use crate::bytes::{
    be_bytes, be_val, lemma_be_bytes_len, lemma_be_val_of_be_bytes, lemma_pow256_increases,
    lemma_pow256_small, pow256,
};
use crate::cards::{deck_tokens, deck_wf, lemma_deck_tokens_index, MaskedCard, N_CARDS_PUBLIC};
use crate::codec::{
    arr_offset, card_token_at, cat, deck_len_ok, frame_ok, input_seg, input_seg_ok, key_token,
    n_card_tokens, publics_bytes, publics_ok, publics_seg, task_bytes, task_decodable,
};
use crate::crypto::key_encoding_valid;
use crate::orchestrator::{commitment_input, deck_commitment};

verus! {

proof fn lemma_cat_len_uniform(toks: Seq<Seq<u8>>)
    requires
        forall|i: int| 0 <= i < toks.len() ==> #[trigger] toks[i].len() == 32,
    ensures
        cat(toks).len() == 32 * toks.len(),
    decreases toks.len(),
{
    if toks.len() > 0 {
        lemma_cat_len_uniform(toks.drop_last());
    }
}

proof fn lemma_cat_index_uniform(toks: Seq<Seq<u8>>, i: int)
    requires
        forall|k: int| 0 <= k < toks.len() ==> #[trigger] toks[k].len() == 32,
        0 <= i < toks.len(),
    ensures
        cat(toks).subrange(32 * i, 32 * i + 32) == toks[i],
    decreases toks.len(),
{
    lemma_cat_len_uniform(toks);
    lemma_cat_len_uniform(toks.drop_last());
    if i == toks.len() - 1 {
        assert(cat(toks).subrange(32 * i, 32 * i + 32) =~= toks[i]);
    } else {
        lemma_cat_index_uniform(toks.drop_last(), i);
        assert(cat(toks).subrange(32 * i, 32 * i + 32) =~= cat(toks.drop_last()).subrange(
            32 * i,
            32 * i + 32,
        ));
    }
}

/// Round trip: a request blob built by `encode_task` from any well-formed
/// joint key, deck and digest token satisfies every check of `decode_task`,
/// and parses back to the same key token and the same card tokens — so, by
/// `decode_task`'s contract, to a deck whose every coordinate equals the
/// one encoded. The digest token is carried without being read, and the
/// reversed card field order is applied symmetrically.
pub proof fn lemma_task_round_trip(key: Seq<u8>, d: Seq<MaskedCard>, digest: Seq<u8>)
    requires
        key.len() == 32,
        digest.len() == 32,
        deck_wf(d),
        key_encoding_valid(key),
        4 * d.len() < pow256(32),
    ensures
        task_decodable(task_bytes(key, deck_tokens(d), digest)),
        key_token(task_bytes(key, deck_tokens(d), digest)) == key,
        n_card_tokens(publics_seg(task_bytes(key, deck_tokens(d), digest))) == 4 * d.len(),
        forall|i: int|
            0 <= i < 4 * d.len() ==> card_token_at(
                publics_seg(task_bytes(key, deck_tokens(d), digest)),
                i,
            ) == deck_tokens(d)[i],
{
    let toks = deck_tokens(d);
    assert forall|i: int| 0 <= i < toks.len() implies #[trigger] toks[i].len() == 32 by {
        let j = i / 4;
        lemma_deck_tokens_index(d, j);
        assert(toks[i] == crate::cards::card_tokens(d[j])[i % 4]);
    }
    lemma_cat_len_uniform(toks);
    let pb = publics_bytes(toks, digest);
    let tb = task_bytes(key, toks, digest);
    lemma_be_bytes_len(32, 4);
    lemma_be_bytes_len(64, 32);
    lemma_be_bytes_len(toks.len() as nat, 32);
    lemma_be_bytes_len(128, 32);
    lemma_pow256_small();
    lemma_pow256_increases(4, 32);
    assert(tb.len() == 36 + pb.len());
    assert(pb.len() == 96 + 32 * toks.len());
    // the frame: the prefix declares the 32-byte key segment
    assert(tb.subrange(0, 4) =~= be_bytes(32, 4));
    lemma_be_val_of_be_bytes(32, 4);
    assert(crate::codec::prefix_val(tb) == 32);
    assert(frame_ok(tb));
    assert(input_seg(tb) =~= key);
    assert(input_seg_ok(tb));
    assert(key_token(tb) =~= key);
    // the publics segment parses back
    let p = publics_seg(tb);
    assert(p =~= pb);
    assert(p.subrange(0, 32) =~= be_bytes(64, 32));
    lemma_be_val_of_be_bytes(64, 32);
    assert(arr_offset(p) == 64);
    assert(p.subrange(64, 96) =~= be_bytes(toks.len() as nat, 32));
    lemma_be_val_of_be_bytes(toks.len() as nat, 32);
    assert(n_card_tokens(p) == toks.len());
    assert(toks.len() == 4 * d.len());
    assert(publics_ok(p));
    assert(4 * d.len() % 4 == 0) by (nonlinear_arith);
    assert(deck_len_ok(p));
    assert(task_decodable(tb));
    // each card token reads back unchanged
    assert forall|i: int| 0 <= i < 4 * d.len() implies card_token_at(p, i) == toks[i] by {
        lemma_cat_index_uniform(toks, i);
        assert(card_token_at(p, i) =~= cat(toks).subrange(32 * i, 32 * i + 32));
    }
}

/// The commitment excludes the public prefix: two decks of one length that
/// agree on every card from position `N_CARDS_PUBLIC` on have the same
/// commitment, however their public prefixes differ. (That changing a
/// private card changes the digest holds only with overwhelming
/// probability, a property of the hash collaborator outside this library's
/// scope.)
pub proof fn lemma_commitment_ignores_public_prefix(d1: Seq<MaskedCard>, d2: Seq<MaskedCard>)
    requires
        d1.len() == d2.len(),
        forall|i: int| N_CARDS_PUBLIC <= i < d1.len() ==> d1[i] == d2[i],
    ensures
        deck_commitment(d1) == deck_commitment(d2),
{
    if d1.len() <= N_CARDS_PUBLIC {
    } else {
        assert(d1.skip(N_CARDS_PUBLIC as int) =~= d2.skip(N_CARDS_PUBLIC as int));
        assert(commitment_input(d1) == commitment_input(d2));
    }
}

} // verus!
