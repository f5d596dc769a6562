//! The task wire codec.
//!
//! Request blob: a 4-byte big-endian length `L`, then `L` bytes holding the
//! joint-key token, then the publics segment: a token array of card tokens
//! (four per card, reversed field order) followed by one digest token.
//! Response blob: the new card-token array, the digest token, the refreshed
//! key-share token array (two tokens per entry, natural order) and the proof
//! as an opaque, zero-padded byte string. Arrays and byte strings follow the
//! structured token encoding: a head of 32-byte words (offsets for the
//! dynamic parts, values for the static ones) followed by the dynamic parts,
//! each a length word and its padded payload.

use vstd::prelude::*;

use crate::bytes::{be_bytes, be_val, push_be_bytes, read_be_u64, read_word_u64};
use vstd::arithmetic::div_mod::lemma_fundamental_div_mod;
use crate::cards::{card_tokens, deck_tokens, deck_wf, lemma_deck_tokens_len,
    lemma_deck_tokens_take_step, CurvePoint, FieldElement, JointPublicKey, MaskedCard,
    TOKEN_BYTES};
use crate::crypto::{joint_key_point, key_encoding_valid};

verus! {

/// Why a task could not be handled. Every error is fatal: the worker
/// submits nothing and leaves the task for the scheduler to re-dispatch.
#[derive(Clone, Copy, PartialEq, Eq, Debug, Structural)]
pub enum TaskError {
    /// The declared length prefix exceeds the buffer, or the buffer cannot
    /// hold a prefix at all.
    Frame,
    /// A segment does not match the expected token schema.
    Decoding,
    /// The card-token array length is not a multiple of four.
    DeckLength,
    /// The joint-key bytes do not decode to a valid point.
    KeyDeserialization,
    /// The external proof system failed, or handed back a point without
    /// affine coordinates.
    Proving,
    /// Transport failure or a non-success response status; raised only by
    /// the unverified network shell around this library.
    Network,
}

/// Concatenation of a sequence of byte strings.
pub open spec fn cat(toks: Seq<Seq<u8>>) -> Seq<u8>
    decreases toks.len(),
{
    if toks.len() == 0 {
        Seq::empty()
    } else {
        cat(toks.drop_last()) + toks.last()
    }
}

pub proof fn lemma_cat_append(x: Seq<Seq<u8>>, y: Seq<Seq<u8>>)
    ensures
        cat(x + y) == cat(x) + cat(y),
    decreases y.len(),
{
    if y.len() == 0 {
        assert(x + y =~= x);
        assert(cat(x) + cat(y) =~= cat(x));
    } else {
        assert((x + y).drop_last() =~= x + y.drop_last());
        lemma_cat_append(x, y.drop_last());
        assert((x + y).last() == y.last());
        assert((cat(x) + cat(y.drop_last())) + y.last() =~= cat(x) + (cat(y.drop_last())
            + y.last()));
    }
}

pub proof fn lemma_cat4(a: Seq<u8>, b: Seq<u8>, c: Seq<u8>, d: Seq<u8>)
    ensures
        cat(seq![a, b, c, d]) == a + b + c + d,
{
    let s = seq![a, b, c, d];
    assert(cat(Seq::<Seq<u8>>::empty()) =~= Seq::<u8>::empty());
    assert(s.drop_last() =~= seq![a, b, c]);
    assert(seq![a, b, c].drop_last() =~= seq![a, b]);
    assert(seq![a, b].drop_last() =~= seq![a]);
    assert(seq![a].drop_last() =~= Seq::<Seq<u8>>::empty());
    assert(cat(seq![a]) =~= a);
    assert(cat(seq![a, b]) =~= a + b);
    assert(cat(seq![a, b, c]) =~= a + b + c);
    assert(cat(s) =~= a + b + c + d);
}

pub proof fn lemma_cat2(a: Seq<u8>, b: Seq<u8>)
    ensures
        cat(seq![a, b]) == a + b,
{
    assert(cat(Seq::<Seq<u8>>::empty()) =~= Seq::<u8>::empty());
    assert(seq![a, b].drop_last() =~= seq![a]);
    assert(seq![a].drop_last() =~= Seq::<Seq<u8>>::empty());
    assert(cat(seq![a]) =~= a);
    assert(cat(seq![a, b]) =~= a + b);
}

/// The publics segment: the offset word of the card-token array, the digest
/// token, then the array as a length word and its flattened tokens.
pub open spec fn publics_bytes(toks: Seq<Seq<u8>>, digest: Seq<u8>) -> Seq<u8> {
    be_bytes(64, 32) + digest + be_bytes(toks.len() as nat, 32) + cat(toks)
}

/// A whole request blob: the 4-byte big-endian length of the key segment
/// (always one 32-byte token), the key token, then the publics segment.
pub open spec fn task_bytes(key: Seq<u8>, toks: Seq<Seq<u8>>, digest: Seq<u8>) -> Seq<u8> {
    be_bytes(32, 4) + key + publics_bytes(toks, digest)
}

/// `n` zero bytes.
pub open spec fn zeros(n: nat) -> Seq<u8> {
    Seq::new(n, |i: int| 0u8)
}

/// How many zero bytes pad a byte string of length `n` to a word boundary.
pub open spec fn pad_len(n: nat) -> nat {
    (((32 - n % 32) % 32) as nat)
}

/// A whole response blob. The head holds, in order: the offset of the
/// card-token array, the digest token, the offset of the key-share array and
/// the offset of the proof bytes; the dynamic parts follow in that order,
/// each led by its length word.
pub open spec fn response_bytes(
    card_toks: Seq<Seq<u8>>,
    digest: Seq<u8>,
    pkc_toks: Seq<Seq<u8>>,
    proof: Seq<u8>,
) -> Seq<u8> {
    let off_b = 160 + 32 * card_toks.len();
    let off_p = off_b + 32 + 32 * pkc_toks.len();
    be_bytes(128, 32) + digest + be_bytes(off_b as nat, 32) + be_bytes(off_p as nat, 32)
        + be_bytes(card_toks.len() as nat, 32) + cat(card_toks) + be_bytes(
        pkc_toks.len() as nat,
        32,
    ) + cat(pkc_toks) + be_bytes(proof.len() as nat, 32) + proof + zeros(pad_len(proof.len()))
}

/// The wire tokens of the refreshed key shares: an (x, y) pair per entry,
/// natural order.
pub open spec fn pkc_tokens(s: Seq<CurvePoint>) -> Seq<Seq<u8>> {
    Seq::new(
        s.len() * 2,
        |i: int|
            if i % 2 == 0 {
                s[i / 2].x.bytes@
            } else {
                s[i / 2].y.bytes@
            },
    )
}

pub open spec fn pkc_wf(s: Seq<CurvePoint>) -> bool {
    forall|i: int| 0 <= i < s.len() ==> s[i].wf()
}

pub proof fn lemma_pkc_tokens_take_step(s: Seq<CurvePoint>, j: int)
    requires
        0 <= j < s.len(),
    ensures
        pkc_tokens(s.take(j + 1)) == pkc_tokens(s.take(j)) + seq![s[j].x.bytes@, s[j].y.bytes@],
{
    let lhs = pkc_tokens(s.take(j + 1));
    let rhs = pkc_tokens(s.take(j)) + seq![s[j].x.bytes@, s[j].y.bytes@];
    assert forall|i: int| 0 <= i < 2 * j + 2 implies lhs[i] == rhs[i] by {
        assert(0 <= i / 2 <= j);
        assert(s.take(j + 1)[i / 2] == s[i / 2]);
        if i < 2 * j {
            assert(i / 2 < j);
            assert(s.take(j)[i / 2] == s[i / 2]);
        } else {
            assert(i / 2 == j);
            assert(i % 2 == i - 2 * j);
        }
    }
    assert(lhs =~= rhs);
}

/// Appends a byte string.
pub fn push_bytes(out: &mut Vec<u8>, src: &Vec<u8>)
    ensures
        final(out)@ == old(out)@ + src@,
{
    let n = src.len();
    let mut i: usize = 0;
    proof {
        assert(out@ =~= old(out)@ + src@.take(0));
    }
    while i < n
        invariant
            0 <= i <= n,
            n == src@.len(),
            out@ == old(out)@ + src@.take(i as int),
        decreases n - i,
    {
        out.push(src[i]);
        proof {
            assert(old(out)@ + src@.take(i + 1) =~= (old(out)@ + src@.take(i as int)).push(
                src@[i as int],
            ));
        }
        i = i + 1;
    }
    proof {
        assert(src@.take(n as int) =~= src@);
    }
}

/// Appends the four tokens of each card, in deck order.
fn push_deck_tokens(out: &mut Vec<u8>, deck: &Vec<MaskedCard>)
    requires
        deck_wf(deck@),
    ensures
        final(out)@ == old(out)@ + cat(deck_tokens(deck@)),
{
    let n = deck.len();
    let mut i: usize = 0;
    proof {
        assert(deck@.take(0) =~= Seq::<MaskedCard>::empty());
        assert(out@ =~= old(out)@ + cat(deck_tokens(deck@.take(0))));
    }
    while i < n
        invariant
            0 <= i <= n,
            n == deck@.len(),
            deck_wf(deck@),
            out@ == old(out)@ + cat(deck_tokens(deck@.take(i as int))),
        decreases n - i,
    {
        let c = &deck[i];
        push_bytes(out, &c.e2.x.bytes);
        push_bytes(out, &c.e2.y.bytes);
        push_bytes(out, &c.e1.x.bytes);
        push_bytes(out, &c.e1.y.bytes);
        proof {
            lemma_deck_tokens_take_step(deck@, i as int);
            lemma_cat_append(deck_tokens(deck@.take(i as int)), card_tokens(deck@[i as int]));
            lemma_cat4(
                deck@[i as int].e2.x.bytes@,
                deck@[i as int].e2.y.bytes@,
                deck@[i as int].e1.x.bytes@,
                deck@[i as int].e1.y.bytes@,
            );
            assert(card_tokens(deck@[i as int]) =~= seq![
                deck@[i as int].e2.x.bytes@,
                deck@[i as int].e2.y.bytes@,
                deck@[i as int].e1.x.bytes@,
                deck@[i as int].e1.y.bytes@,
            ]);
            assert(out@ =~= old(out)@ + cat(deck_tokens(deck@.take(i + 1))));
        }
        i = i + 1;
    }
    proof {
        assert(deck@.take(n as int) =~= deck@);
    }
}

/// Encodes a request blob: the request-side inverse of `decode_task`, used
/// by the synthetic task generator. The digest token is carried verbatim
/// (callers pass a derived commitment or a placeholder); `decode_task`
/// accepts it without reading it.
pub fn encode_task(key: &JointPublicKey, deck: &Vec<MaskedCard>, digest: &FieldElement) -> (out:
    Vec<u8>)
    requires
        key.wf(),
        digest.wf(),
        deck_wf(deck@),
        104 + 128 * deck@.len() <= usize::MAX,
    ensures
        out@ == task_bytes(key.bytes@, deck_tokens(deck@), digest.bytes@),
{
    let mut out: Vec<u8> = Vec::new();
    push_be_bytes(&mut out, 32, 4);
    push_bytes(&mut out, &key.bytes);
    push_be_bytes(&mut out, 64, 32);
    push_bytes(&mut out, &digest.bytes);
    let n_tokens: u64 = (deck.len() as u64) * 4;
    push_be_bytes(&mut out, n_tokens, 32);
    push_deck_tokens(&mut out, deck);
    proof {
        lemma_deck_tokens_len(deck@);
        assert(out@ =~= task_bytes(key.bytes@, deck_tokens(deck@), digest.bytes@));
    }
    out
}

} // verus!
// The request-blob parse, as spec functions over the raw bytes. `decode_task`
// is contracted against these exactly.

verus! {

/// The 4-byte big-endian length prefix's value.
pub open spec fn prefix_val(b: Seq<u8>) -> nat {
    be_val(b.subrange(0, 4))
}

/// The frame is sound: the buffer holds a prefix, and the declared input
/// segment does not run past it.
pub open spec fn frame_ok(b: Seq<u8>) -> bool {
    b.len() >= 4 && 4 + prefix_val(b) <= b.len()
}

/// The input segment: the declared number of bytes after the prefix.
pub open spec fn input_seg(b: Seq<u8>) -> Seq<u8> {
    b.subrange(4, 4 + prefix_val(b) as int)
}

/// The publics segment: everything after the input segment.
pub open spec fn publics_seg(b: Seq<u8>) -> Seq<u8> {
    b.subrange(4 + prefix_val(b) as int, b.len() as int)
}

/// The input segment can hold its one key token.
pub open spec fn input_seg_ok(b: Seq<u8>) -> bool {
    prefix_val(b) >= 32
}

/// The joint-key token: the input segment's first 32 bytes.
pub open spec fn key_token(b: Seq<u8>) -> Seq<u8> {
    input_seg(b).take(32)
}

/// The declared offset of the card-token array within the publics segment.
pub open spec fn arr_offset(p: Seq<u8>) -> nat {
    be_val(p.subrange(0, 32))
}

/// The declared card-token count of the publics segment.
pub open spec fn n_card_tokens(p: Seq<u8>) -> nat {
    be_val(p.subrange(arr_offset(p) as int, arr_offset(p) as int + 32))
}

/// The publics segment matches the schema: a head of two words, an array
/// offset landing inside the segment, and an array that fits behind it.
pub open spec fn publics_ok(p: Seq<u8>) -> bool {
    &&& p.len() >= 64
    &&& arr_offset(p) + 32 <= p.len()
    &&& arr_offset(p) + 32 + 32 * n_card_tokens(p) <= p.len()
}

/// Card token `i` of the publics segment.
pub open spec fn card_token_at(p: Seq<u8>, i: int) -> Seq<u8> {
    p.subrange(
        arr_offset(p) as int + 32 + 32 * i,
        arr_offset(p) as int + 64 + 32 * i,
    )
}

/// The card tokens divide into whole cards.
pub open spec fn deck_len_ok(p: Seq<u8>) -> bool {
    n_card_tokens(p) % 4 == 0
}

/// All the conditions under which a request blob decodes.
pub open spec fn task_decodable(b: Seq<u8>) -> bool {
    &&& frame_ok(b)
    &&& input_seg_ok(b)
    &&& publics_ok(publics_seg(b))
    &&& key_encoding_valid(key_token(b))
    &&& deck_len_ok(publics_seg(b))
}

/// Copies one 32-byte token out of the buffer.
pub fn read_token(b: &Vec<u8>, at: usize) -> (t: FieldElement)
    requires
        at + TOKEN_BYTES <= b@.len(),
    ensures
        t.wf(),
        t.bytes@ == b@.subrange(at as int, at + TOKEN_BYTES),
{
    let blen = b.len();
    let mut bytes: Vec<u8> = Vec::new();
    let mut i: usize = 0;
    proof {
        assert(bytes@ =~= b@.subrange(at as int, at as int));
    }
    while i < TOKEN_BYTES
        invariant
            0 <= i <= TOKEN_BYTES,
            at + TOKEN_BYTES <= b@.len(),
            b@.len() == blen,
            bytes@ == b@.subrange(at as int, at + i),
        decreases TOKEN_BYTES - i,
    {
        bytes.push(b[at + i]);
        proof {
            assert(b@.subrange(at as int, at + i + 1) =~= b@.subrange(at as int, at + i).push(
                b@[at + i],
            ));
        }
        i = i + 1;
    }
    FieldElement { bytes }
}

/// Decodes a request blob into the joint key and the deck.
///
/// The digest token is accepted but not read. The result is pinned down
/// exactly: which error comes back on which malformed input, and, on
/// success, that every decoded card carries the four tokens of its wire
/// group, with `(e2.x, e2.y, e1.x, e1.y)` read back into the natural
/// (e1, e2) pair — the field order is undone, not repeated.
pub fn decode_task(b: &Vec<u8>) -> (r: Result<(JointPublicKey, Vec<MaskedCard>), TaskError>)
    ensures
        match r {
            Ok(kd) => {
                &&& task_decodable(b@)
                &&& kd.0.wf()
                &&& kd.0.bytes@ == key_token(b@)
                &&& deck_wf(kd.1@)
                &&& 4 * kd.1@.len() == n_card_tokens(publics_seg(b@))
                &&& forall|j: int|
                    0 <= j < kd.1@.len() ==> {
                        &&& kd.1@[j].e2.x.bytes@ == card_token_at(publics_seg(b@), 4 * j)
                        &&& kd.1@[j].e2.y.bytes@ == card_token_at(publics_seg(b@), 4 * j + 1)
                        &&& kd.1@[j].e1.x.bytes@ == card_token_at(publics_seg(b@), 4 * j + 2)
                        &&& kd.1@[j].e1.y.bytes@ == card_token_at(publics_seg(b@), 4 * j + 3)
                    }
            },
            Err(e) => match e {
                TaskError::Frame => !frame_ok(b@),
                TaskError::Decoding => frame_ok(b@) && !(input_seg_ok(b@) && publics_ok(
                    publics_seg(b@),
                )),
                TaskError::KeyDeserialization => frame_ok(b@) && input_seg_ok(b@) && publics_ok(
                    publics_seg(b@),
                ) && !key_encoding_valid(key_token(b@)),
                TaskError::DeckLength => frame_ok(b@) && input_seg_ok(b@) && publics_ok(
                    publics_seg(b@),
                ) && key_encoding_valid(key_token(b@)) && !deck_len_ok(publics_seg(b@)),
                _ => false,
            },
        },
{
    let blen = b.len();
    if blen < 4 {
        return Err(TaskError::Frame);
    }
    let lval = read_be_u64(b, 0, 4);
    if lval > (blen as u64) - 4 {
        return Err(TaskError::Frame);
    }
    let l = lval as usize;
    let ps = 4 + l;
    let plen = blen - ps;
    let ghost p = publics_seg(b@);
    proof {
        assert(p =~= b@.subrange(ps as int, blen as int));
    }
    if l < 32 {
        return Err(TaskError::Decoding);
    }
    if plen < 64 {
        return Err(TaskError::Decoding);
    }
    let off: usize;
    match read_word_u64(b, ps) {
        Some(v) => {
            proof {
                assert(b@.subrange(ps as int, ps + 32) =~= p.subrange(0, 32));
            }
            if v > (plen as u64) - 32 {
                return Err(TaskError::Decoding);
            }
            off = v as usize;
        },
        None => {
            proof {
                assert(b@.subrange(ps as int, ps + 32) =~= p.subrange(0, 32));
            }
            return Err(TaskError::Decoding);
        },
    }
    let avail = plen - off - 32;
    let ntok: usize;
    match read_word_u64(b, ps + off) {
        Some(v) => {
            proof {
                assert(b@.subrange(ps + off, ps + off + 32) =~= p.subrange(
                    off as int,
                    off + 32,
                ));
                lemma_fundamental_div_mod(avail as int, 32);
            }
            if v > (avail / 32) as u64 {
                return Err(TaskError::Decoding);
            }
            ntok = v as usize;
        },
        None => {
            proof {
                assert(b@.subrange(ps + off, ps + off + 32) =~= p.subrange(
                    off as int,
                    off + 32,
                ));
            }
            return Err(TaskError::Decoding);
        },
    }
    let keyfe = read_token(b, 4);
    proof {
        assert(b@.subrange(4, 36) =~= key_token(b@));
    }
    let key = JointPublicKey { bytes: keyfe.bytes };
    match joint_key_point(&key) {
        Ok(_) => {},
        Err(_) => {
            return Err(TaskError::KeyDeserialization);
        },
    }
    if ntok % 4 != 0 {
        return Err(TaskError::DeckLength);
    }
    let ncards = ntok / 4;
    let base = ps + off + 32;
    let mut deck: Vec<MaskedCard> = Vec::new();
    let mut c: usize = 0;
    while c < ncards
        invariant
            0 <= c <= ncards,
            deck@.len() == c,
            b@.len() == blen,
            ps + off + 32 == base,
            base + 32 * ntok <= blen,
            ntok == 4 * ncards,
            p == publics_seg(b@),
            ps == 4 + prefix_val(b@),
            ps + 64 <= blen,
            p == b@.subrange(ps as int, blen as int),
            arr_offset(p) == off,
            deck_wf(deck@),
            forall|j: int|
                0 <= j < c ==> {
                    &&& deck@[j].e2.x.bytes@ == card_token_at(p, 4 * j)
                    &&& deck@[j].e2.y.bytes@ == card_token_at(p, 4 * j + 1)
                    &&& deck@[j].e1.x.bytes@ == card_token_at(p, 4 * j + 2)
                    &&& deck@[j].e1.y.bytes@ == card_token_at(p, 4 * j + 3)
                },
        decreases ncards - c,
    {
        let t0 = read_token(b, base + 128 * c);
        let t1 = read_token(b, base + 128 * c + 32);
        let t2 = read_token(b, base + 128 * c + 64);
        let t3 = read_token(b, base + 128 * c + 96);
        let card = MaskedCard {
            e1: CurvePoint { x: t2, y: t3 },
            e2: CurvePoint { x: t0, y: t1 },
        };
        deck.push(card);
        proof {
            assert(card_token_at(p, 4 * c) =~= b@.subrange(
                base + 128 * c,
                base + 128 * c + 32,
            ));
            assert(card_token_at(p, 4 * c + 1) =~= b@.subrange(
                base + 128 * c + 32,
                base + 128 * c + 64,
            ));
            assert(card_token_at(p, 4 * c + 2) =~= b@.subrange(
                base + 128 * c + 64,
                base + 128 * c + 96,
            ));
            assert(card_token_at(p, 4 * c + 3) =~= b@.subrange(
                base + 128 * c + 96,
                base + 128 * c + 128,
            ));
        }
        c = c + 1;
    }
    Ok((key, deck))
}

} // verus!
// The response side: one encoder, no length prefix.

verus! {

/// Appends the (x, y) token pair of each refreshed key share, natural order.
fn push_pkc_tokens(out: &mut Vec<u8>, pkc: &Vec<CurvePoint>)
    requires
        pkc_wf(pkc@),
    ensures
        final(out)@ == old(out)@ + cat(pkc_tokens(pkc@)),
{
    let n = pkc.len();
    let mut i: usize = 0;
    proof {
        assert(pkc@.take(0) =~= Seq::<CurvePoint>::empty());
        assert(out@ =~= old(out)@ + cat(pkc_tokens(pkc@.take(0))));
    }
    while i < n
        invariant
            0 <= i <= n,
            n == pkc@.len(),
            pkc_wf(pkc@),
            out@ == old(out)@ + cat(pkc_tokens(pkc@.take(i as int))),
        decreases n - i,
    {
        let e = &pkc[i];
        push_bytes(out, &e.x.bytes);
        push_bytes(out, &e.y.bytes);
        proof {
            lemma_pkc_tokens_take_step(pkc@, i as int);
            lemma_cat_append(
                pkc_tokens(pkc@.take(i as int)),
                seq![pkc@[i as int].x.bytes@, pkc@[i as int].y.bytes@],
            );
            lemma_cat2(pkc@[i as int].x.bytes@, pkc@[i as int].y.bytes@);
            assert(out@ =~= old(out)@ + cat(pkc_tokens(pkc@.take(i + 1))));
        }
        i = i + 1;
    }
    proof {
        assert(pkc@.take(n as int) =~= pkc@);
    }
}

/// Appends the zero bytes that pad a byte string of length `n` to a word
/// boundary.
fn push_padding(out: &mut Vec<u8>, n: usize)
    ensures
        final(out)@ == old(out)@ + zeros(pad_len(n as nat)),
{
    let rem = n % 32;
    let pad: usize = if rem == 0 {
        0
    } else {
        32 - rem
    };
    assert(pad == pad_len(n as nat));
    let mut j: usize = 0;
    proof {
        assert(out@ =~= old(out)@ + zeros(0));
    }
    while j < pad
        invariant
            0 <= j <= pad,
            out@ == old(out)@ + zeros(j as nat),
        decreases pad - j,
    {
        out.push(0u8);
        proof {
            assert(old(out)@ + zeros((j + 1) as nat) =~= (old(out)@ + zeros(j as nat)).push(0u8));
        }
        j = j + 1;
    }
}

/// Encodes a response blob in the fixed order: the re-masked card tokens
/// (reversed field order within each card), the digest token, the refreshed
/// key-share tokens (natural order), and the opaque proof bytes. Unlike the
/// request, the response carries no length prefix.
pub fn encode_response(
    deck: &Vec<MaskedCard>,
    digest: &FieldElement,
    pkc: &Vec<CurvePoint>,
    proof: &Vec<u8>,
) -> (out: Vec<u8>)
    requires
        digest.wf(),
        deck_wf(deck@),
        pkc_wf(pkc@),
        255 + 128 * deck@.len() + 64 * pkc@.len() + proof@.len() <= usize::MAX,
    ensures
        out@ == response_bytes(deck_tokens(deck@), digest.bytes@, pkc_tokens(pkc@), proof@),
{
    let na: usize = deck.len() * 4;
    let nb: usize = pkc.len() * 2;
    let off_b: usize = 160 + 32 * na;
    let off_p: usize = off_b + 32 + 32 * nb;
    let mut out: Vec<u8> = Vec::new();
    push_be_bytes(&mut out, 128, 32);
    push_bytes(&mut out, &digest.bytes);
    push_be_bytes(&mut out, off_b as u64, 32);
    push_be_bytes(&mut out, off_p as u64, 32);
    push_be_bytes(&mut out, na as u64, 32);
    push_deck_tokens(&mut out, deck);
    push_be_bytes(&mut out, nb as u64, 32);
    push_pkc_tokens(&mut out, pkc);
    push_be_bytes(&mut out, proof.len() as u64, 32);
    push_bytes(&mut out, proof);
    push_padding(&mut out, proof.len());
    proof {
        lemma_deck_tokens_len(deck@);
        assert(pkc_tokens(pkc@).len() == 2 * pkc@.len());
        assert(out@ =~= response_bytes(
            deck_tokens(deck@),
            digest.bytes@,
            pkc_tokens(pkc@),
            proof@,
        ));
    }
    out
}

} // verus!
