//! Data model of the deck: field elements, curve points, masked cards.
//!
//! Every value is carried as its fixed-width wire representation (32-byte
//! big-endian tokens), so the codec's layout and ordering conventions can be
//! stated and proved exactly. Whether a coordinate pair lies on the curve is
//! the point-decoding collaborator's concern, not this model's.

use vstd::prelude::*;

verus! {

/// Byte width of one wire token: a 256-bit unsigned big-endian integer.
pub const TOKEN_BYTES: usize = 32;

/// Number of leading deck entries that are publicly known and therefore
/// excluded from the hash commitment.
pub const N_CARDS_PUBLIC: usize = 17;

/// A field element, held as its 32-byte big-endian encoding (one wire token).
pub struct FieldElement {
    pub bytes: Vec<u8>,
}

impl FieldElement {
    /// Well-formed: exactly one token wide.
    pub open spec fn wf(&self) -> bool {
        self.bytes@.len() == TOKEN_BYTES
    }

    /// Builds a field element from its 32 bytes.
    pub fn new(bytes: Vec<u8>) -> (r: FieldElement)
        requires
            bytes@.len() == TOKEN_BYTES,
        ensures
            r.wf(),
            r.bytes@ == bytes@,
    {
        FieldElement { bytes }
    }

    /// The all-zero field element, used as a placeholder digest token.
    pub fn zero() -> (r: FieldElement)
        ensures
            r.wf(),
            r.bytes@ == Seq::new(TOKEN_BYTES as nat, |i: int| 0u8),
    {
        let mut bytes: Vec<u8> = Vec::new();
        let mut i: usize = 0;
        while i < TOKEN_BYTES
            invariant
                0 <= i <= TOKEN_BYTES,
                bytes@ == Seq::new(i as nat, |j: int| 0u8),
            decreases TOKEN_BYTES - i,
        {
            bytes.push(0u8);
            proof {
                assert(bytes@ =~= Seq::new((i + 1) as nat, |j: int| 0u8));
            }
            i = i + 1;
        }
        FieldElement { bytes }
    }
}

/// An affine curve point, as an (x, y) pair of field elements.
pub struct CurvePoint {
    pub x: FieldElement,
    pub y: FieldElement,
}

impl CurvePoint {
    pub open spec fn wf(&self) -> bool {
        self.x.wf() && self.y.wf()
    }
}

/// An ElGamal-style ciphertext over one card: the pair (e1, e2).
///
/// On the wire a card's tokens always appear in the order
/// `(e2.x, e2.y, e1.x, e1.y)` — reversed relative to the pair's natural
/// (e1, e2) order. This reversal is a load-bearing protocol convention;
/// `card_tokens` is its single point of definition.
pub struct MaskedCard {
    pub e1: CurvePoint,
    pub e2: CurvePoint,
}

impl MaskedCard {
    pub open spec fn wf(&self) -> bool {
        self.e1.wf() && self.e2.wf()
    }
}

/// The joint public key of all parties: one opaque serialized group element,
/// carried on the wire as a single token.
pub struct JointPublicKey {
    pub bytes: Vec<u8>,
}

impl JointPublicKey {
    pub open spec fn wf(&self) -> bool {
        self.bytes@.len() == TOKEN_BYTES
    }

    /// Builds a joint key from its 32 serialized bytes.
    pub fn new(bytes: Vec<u8>) -> (r: JointPublicKey)
        requires
            bytes@.len() == TOKEN_BYTES,
        ensures
            r.wf(),
            r.bytes@ == bytes@,
    {
        JointPublicKey { bytes }
    }
}

/// The four wire tokens of one card, in the protocol's reversed field order.
pub open spec fn card_tokens(c: MaskedCard) -> Seq<Seq<u8>> {
    seq![c.e2.x.bytes@, c.e2.y.bytes@, c.e1.x.bytes@, c.e1.y.bytes@]
}

/// The flattened wire tokens of a deck: four per card, cards in order.
pub open spec fn deck_tokens(d: Seq<MaskedCard>) -> Seq<Seq<u8>> {
    Seq::new(d.len() * 4, |i: int| card_tokens(d[i / 4])[i % 4])
}

/// Every card of the deck is well-formed.
pub open spec fn deck_wf(d: Seq<MaskedCard>) -> bool {
    forall|i: int| 0 <= i < d.len() ==> d[i].wf()
}

/// Card field ordering: the four tokens of a card are exactly
/// `(e2.x, e2.y, e1.x, e1.y)`, and they pin the card down — two cards with
/// the same tokens have the same coordinates, so nothing is swapped.
pub proof fn lemma_card_token_order(c: MaskedCard, d: MaskedCard)
    ensures
        card_tokens(c)[0] == c.e2.x.bytes@,
        card_tokens(c)[1] == c.e2.y.bytes@,
        card_tokens(c)[2] == c.e1.x.bytes@,
        card_tokens(c)[3] == c.e1.y.bytes@,
        card_tokens(c) == card_tokens(d) ==> c.e1.x.bytes@ == d.e1.x.bytes@
            && c.e1.y.bytes@ == d.e1.y.bytes@ && c.e2.x.bytes@ == d.e2.x.bytes@
            && c.e2.y.bytes@ == d.e2.y.bytes@,
{
    if card_tokens(c) == card_tokens(d) {
        assert(card_tokens(c)[0] == card_tokens(d)[0]);
        assert(card_tokens(c)[1] == card_tokens(d)[1]);
        assert(card_tokens(c)[2] == card_tokens(d)[2]);
        assert(card_tokens(c)[3] == card_tokens(d)[3]);
    }
}

/// The tokens of a deck's card `j` sit at flat positions `4j .. 4j + 4`.
pub proof fn lemma_deck_tokens_index(d: Seq<MaskedCard>, j: int)
    requires
        0 <= j < d.len(),
    ensures
        deck_tokens(d)[4 * j] == d[j].e2.x.bytes@,
        deck_tokens(d)[4 * j + 1] == d[j].e2.y.bytes@,
        deck_tokens(d)[4 * j + 2] == d[j].e1.x.bytes@,
        deck_tokens(d)[4 * j + 3] == d[j].e1.y.bytes@,
{
    assert((4 * j) / 4 == j && (4 * j) % 4 == 0);
    assert((4 * j + 1) / 4 == j && (4 * j + 1) % 4 == 1);
    assert((4 * j + 2) / 4 == j && (4 * j + 2) % 4 == 2);
    assert((4 * j + 3) / 4 == j && (4 * j + 3) % 4 == 3);
}

/// Extending a deck prefix by one card appends that card's four tokens.
pub proof fn lemma_deck_tokens_take_step(d: Seq<MaskedCard>, j: int)
    requires
        0 <= j < d.len(),
    ensures
        deck_tokens(d.take(j + 1)) == deck_tokens(d.take(j)) + card_tokens(d[j]),
{
    let lhs = deck_tokens(d.take(j + 1));
    let rhs = deck_tokens(d.take(j)) + card_tokens(d[j]);
    assert forall|i: int| 0 <= i < 4 * j + 4 implies lhs[i] == rhs[i] by {
        assert(0 <= i / 4 <= j);
        assert(0 <= i % 4 < 4);
        assert(d.take(j + 1)[i / 4] == d[i / 4]);
        if i < 4 * j {
            assert(i / 4 < j);
            assert(d.take(j)[i / 4] == d[i / 4]);
        } else {
            assert(i / 4 == j);
            assert(i % 4 == i - 4 * j);
        }
    }
    assert(lhs =~= rhs);
}

/// A deck's token sequence determines the deck's length.
pub proof fn lemma_deck_tokens_len(d: Seq<MaskedCard>)
    ensures
        deck_tokens(d).len() == 4 * d.len(),
{
}

} // verus!
