use vstd::prelude::*;
use crate::card::{Card, card_index};

verus! {

/// Whether bit `i` of `bits` is set.
pub open spec fn bit_set(bits: u64, i: nat) -> bool {
    i < 64 && (bits >> (i as u64)) & 1u64 == 1u64
}

/// A set of cards held as a 52-bit mask: bit `card_index(c)` is set exactly when `c` is in it.
#[derive(Clone, Copy, Debug, PartialEq, Eq, Structural)]
pub struct CardSet {
    pub bits: u64,
}

proof fn lemma_bit_or(bits: u64, i: u64, j: u64)
    requires
        i < 64,
        j < 64,
    ensures
        ((bits | (1u64 << i)) >> j) & 1u64 == 1u64 <==> ((bits >> j) & 1u64 == 1u64 || i == j),
{
    assert(((bits | (1u64 << i)) >> j) & 1u64 == 1u64 <==> ((bits >> j) & 1u64 == 1u64 || i == j))
        by (bit_vector)
        requires i < 64, j < 64;
}

proof fn lemma_or_below(bits: u64, i: u64)
    requires
        i < 52,
    ensures
        bits < 0x10000000000000 ==> (bits | (1u64 << i)) < 0x10000000000000,
{
    assert(bits < 0x10000000000000 ==> (bits | (1u64 << i)) < 0x10000000000000)
        by (bit_vector)
        requires i < 52;
}

proof fn lemma_full_bit(j: u64)
    requires
        j < 52,
    ensures
        (0xFFFFFFFFFFFFFu64 >> j) & 1u64 == 1u64,
{
    assert((0xFFFFFFFFFFFFFu64 >> j) & 1u64 == 1u64) by (bit_vector)
        requires j < 52;
}

proof fn lemma_bit_zero(j: u64)
    ensures
        (0u64 >> j) & 1u64 != 1u64,
{
    assert((0u64 >> j) & 1u64 != 1u64) by (bit_vector);
}

/// The cards whose bits are set in a mask.
pub open spec fn cards_of_bits(bits: u64) -> Set<Card> {
    Set::new(|c: Card| bit_set(bits, card_index(c)))
}

impl View for CardSet {
    type V = Set<Card>;

    open spec fn view(&self) -> Set<Card> {
        cards_of_bits(self.bits)
    }
}

impl CardSet {
    /// The empty set.
    pub fn empty() -> (r: CardSet)
        ensures
            r@ == Set::<Card>::empty(),
            r.bits == 0,
    {
        let r = CardSet { bits: 0 };
        assert forall|c: Card| !r@.contains(c) by {
            lemma_bit_zero(card_index(c) as u64);
        }
        assert(r@ =~= Set::<Card>::empty());
        r
    }

    /// All 52 cards.
    pub fn full() -> (r: CardSet)
        ensures
            forall|c: Card| r@.contains(c),
    {
        let r = CardSet { bits: 0xFFFFFFFFFFFFF };
        assert forall|c: Card| r@.contains(c) by {
            lemma_full_bit(card_index(c) as u64);
        }
        r
    }

    /// Membership test.
    pub fn contains(&self, c: Card) -> (r: bool)
        ensures
            r == self@.contains(c),
    {
        let i = c.index();
        (self.bits >> i) & 1 == 1
    }

    /// The set with `c` added.
    pub fn insert(&self, c: Card) -> (r: CardSet)
        ensures
            self.bits < 0x10000000000000 ==> r.bits < 0x10000000000000,
            r@ == self@.insert(c),
            r.bits == self.bits | (1u64 << (card_index(c) as u64)),
    {
        let i = c.index();
        let r = CardSet { bits: self.bits | (1u64 << i) };
        assert forall|d: Card| r@.contains(d) == self@.insert(c).contains(d) by {
            lemma_bit_or(self.bits, i as u64, card_index(d) as u64);
            crate::card::lemma_card_index_injective(c, d);
        }
        assert(r@ =~= self@.insert(c));
        proof {
            lemma_or_below(self.bits, i as u64);
        }
        r
    }
}

} // verus!
