use vstd::prelude::*;
use vstd::string::StringExecFns;
use vstd::set_lib::{lemma_len_subset, lemma_subset_equality};
use dealrs::deck::CardMask;
use dealrs::hand::Best5;
use dealrs::hand::Hand::{
    Flush, FourOfAKind, FullHouse, HighCard, OnePair, Straight, StraightFlush, ThreeOfAKind, TwoPair,
};
use dealrs::hand::refbest5::RefBest5;
use crate::card::{Card, Rank, Suit, rank_index, suit_index, rank_at, suit_at};
use crate::cardset::{CardSet, cards_of_bits};

verus! {

/// What dealrs's reference classifier returns for a set of cards: the cards it marks as
/// used, the position of the `Hand` variant (HighCard 0 to StraightFlush 8), and the
/// variant's first and second fields as numbers (a rank as its index, a rank mask as its
/// bits, 0 where there is no such field). For `HighCard` both numbers are 0: its kickers
/// are the ranks of the used cards, which the library reads off those cards.
pub uninterp spec fn classifier_of(cards: Set<Card>) -> (Set<Card>, u8, u64, u64);

/// Relies on `RefBest5::best5` of dealrs. Every mask it builds is an intersection with the
/// cards given, at most five of them; every rank mask in the `Hand` comes from `unsuited`,
/// `topn` or `from_multi` and so holds 13 bits; a rank converts to its index, which is its
/// discriminant; the result depends on the cards alone.
#[verifier::external_body]
fn ref_best5(cards: u64) -> (r: (u64, (u8, u64, u64)))
    requires
        cards < 0x10000000000000,
    ensures
        (cards_of_bits(r.0), r.1.0, r.1.1, r.1.2) == classifier_of(cards_of_bits(cards)),
        cards_of_bits(r.0).subset_of(cards_of_bits(cards)),
        cards_of_bits(r.0).finite(),
        cards_of_bits(r.0).len() <= 5,
        r.1.0 < 9,
        r.1.1 < 8192,
        r.1.2 < 8192,
{
    let (used, hand) = RefBest5 {}.best5(CardMask::from_bits(cards));
    (used.to_bits(), match hand {
        HighCard { .. } => (0, 0, 0),
        OnePair { pair, kickers } => (1, pair as u64, kickers.to_bits()),
        TwoPair { pairs, kickers } => (2, pairs.to_bits(), kickers.to_bits()),
        ThreeOfAKind { trip, kickers } => (3, trip as u64, kickers.to_bits()),
        Straight { top } => (4, top as u64, 0),
        Flush { ranks } => (5, ranks.to_bits(), 0),
        FullHouse { trip, pair } => (6, trip as u64, pair as u64),
        FourOfAKind { quad, kickers } => (7, quad as u64, kickers.to_bits()),
        StraightFlush { top } => (8, top as u64, 0)
    })
}

/// The nine hand categories, weakest first.
#[derive(Clone, Copy, Debug, PartialEq, Eq, Structural)]
pub enum HandKind {
    HighCard,
    OnePair,
    TwoPair,
    ThreeOfAKind,
    Straight,
    Flush,
    FullHouse,
    FourOfAKind,
    StraightFlush,
}

/// The category at a position below 9.
pub open spec fn kind_at(i: nat) -> HandKind {
    if i == 0 { HandKind::HighCard }
    else if i == 1 { HandKind::OnePair }
    else if i == 2 { HandKind::TwoPair }
    else if i == 3 { HandKind::ThreeOfAKind }
    else if i == 4 { HandKind::Straight }
    else if i == 5 { HandKind::Flush }
    else if i == 6 { HandKind::FullHouse }
    else if i == 7 { HandKind::FourOfAKind }
    else { HandKind::StraightFlush }
}

/// Position of a category, weakest (HighCard) 0 to strongest (StraightFlush) 8.
pub open spec fn kind_index(k: HandKind) -> nat {
    match k {
        HandKind::HighCard => 0,
        HandKind::OnePair => 1,
        HandKind::TwoPair => 2,
        HandKind::ThreeOfAKind => 3,
        HandKind::Straight => 4,
        HandKind::Flush => 5,
        HandKind::FullHouse => 6,
        HandKind::FourOfAKind => 7,
        HandKind::StraightFlush => 8,
    }
}

impl HandKind {
    pub fn from_code(code: u8) -> (r: HandKind)
        requires
            code < 9,
        ensures
            kind_index(r) == code,
            r == kind_at(code as nat),
    {
        if code == 0 { HandKind::HighCard }
        else if code == 1 { HandKind::OnePair }
        else if code == 2 { HandKind::TwoPair }
        else if code == 3 { HandKind::ThreeOfAKind }
        else if code == 4 { HandKind::Straight }
        else if code == 5 { HandKind::Flush }
        else if code == 6 { HandKind::FullHouse }
        else if code == 7 { HandKind::FourOfAKind }
        else { HandKind::StraightFlush }
    }
}

/// A hand category with its tie-break fields. `primary` and `secondary` are, by kind:
/// HighCard: kicker rank mask, 0; OnePair: pair rank, kicker rank mask; TwoPair: pair rank
/// mask, kicker rank mask; ThreeOfAKind: trip rank, kicker rank mask; Straight and
/// StraightFlush: top rank (Five for the ace-low wheel), 0; Flush: rank mask, 0; FullHouse:
/// trip rank, pair rank; FourOfAKind: quad rank, kicker rank mask. A rank is its index (Two 0
/// to Ace 12); a rank mask has bit `i` set for the rank of index `i`.
#[derive(Clone, Copy, Debug, PartialEq, Eq, Structural)]
pub struct HandCategory {
    pub kind: HandKind,
    pub primary: u16,
    pub secondary: u16,
}

/// The category that the classifier's numbers stand for.
pub open spec fn category_of_codes(kind: u8, primary: u64, secondary: u64) -> HandCategory {
    HandCategory { kind: kind_at(kind as nat), primary: primary as u16, secondary: secondary as u16 }
}

/// Whether some card of `s` has the rank of index `i`.
pub open spec fn has_rank(s: Set<Card>, i: nat) -> bool {
    exists|c: Card| s.contains(c) && rank_index(c.rank) == i
}

/// The mask of the ranks below index `n` present in `s`: bit `i` set for rank index `i`.
pub open spec fn rank_mask_below(s: Set<Card>, n: nat) -> u16
    decreases n,
{
    if n == 0 {
        0
    } else if has_rank(s, (n - 1) as nat) {
        rank_mask_below(s, (n - 1) as nat) | (1u16 << ((n - 1) as u16))
    } else {
        rank_mask_below(s, (n - 1) as nat)
    }
}

/// The category the classifier gives a set of cards; a high card's kickers are the ranks of
/// the five cards it uses.
pub open spec fn classified_category(cards: Set<Card>) -> HandCategory {
    let t = classifier_of(cards);
    if t.1 == 0 {
        HandCategory { kind: HandKind::HighCard, primary: rank_mask_below(t.0, 13), secondary: 0 }
    } else {
        category_of_codes(t.1, t.2, t.3)
    }
}

proof fn lemma_or_rank_bit(m: u16, i: u16)
    requires
        i < 13,
        m < (1u16 << i),
    ensures
        (m | (1u16 << i)) < (1u16 << ((i + 1) as u16)),
        m < (1u16 << ((i + 1) as u16)),
{
    assert((m | (1u16 << i)) < (1u16 << ((i + 1) as u16)) && m < (1u16 << ((i + 1) as u16)))
        by (bit_vector)
        requires i < 13, m < (1u16 << i);
}

/// The mask of the ranks present in `cards`.
pub fn rank_mask_of(cards: &CardSet) -> (r: u16)
    ensures
        r == rank_mask_below(cards@, 13),
        r < 8192,
{
    let mut m: u16 = 0;
    let mut i: u8 = 0;
    proof {
        assert(0u16 < (1u16 << 0u16)) by (bit_vector);
    }
    while i < 13
        invariant
            i <= 13,
            m == rank_mask_below(cards@, i as nat),
            m < (1u16 << (i as u16)),
        decreases 13 - i,
    {
        let r = Rank::from_index(i);
        let found = cards.contains(Card::new(r, Suit::Spades)) || cards.contains(Card::new(r, Suit::Hearts))
            || cards.contains(Card::new(r, Suit::Clubs)) || cards.contains(Card::new(r, Suit::Diamonds));
        proof {
            if has_rank(cards@, i as nat) {
                let c = choose|c: Card| cards@.contains(c) && rank_index(c.rank) == i;
                assert(c == Card { rank: r, suit: c.suit });
            }
            lemma_or_rank_bit(m, i as u16);
        }
        if found {
            m = m | (1u16 << (i as u16));
        }
        i = i + 1;
    }
    proof {
        assert((1u16 << 13u16) == 8192) by (bit_vector);
    }
    m
}

impl HandCategory {
    /// The category with the classifier's numbers.
    pub fn from_codes(kind: u8, primary: u64, secondary: u64) -> (r: HandCategory)
        requires
            kind < 9,
            primary < 8192,
            secondary < 8192,
        ensures
            r == category_of_codes(kind, primary, secondary),
            r.wf(),
    {
        HandCategory { kind: HandKind::from_code(kind), primary: primary as u16, secondary: secondary as u16 }
    }

    pub open spec fn wf(self) -> bool {
        self.primary < 8192 && self.secondary < 8192
    }

    /// The total order on categories as one number: the kind decides, then `primary`,
    /// then `secondary`.
    pub open spec fn strength(self) -> nat {
        kind_index(self.kind) * 67108864 + self.primary as nat * 8192 + self.secondary as nat
    }

    /// `strength` computed.
    pub fn strength_value(&self) -> (r: u32)
        requires
            self.wf(),
        ensures
            r as nat == self.strength(),
    {
        let k: u32 = match self.kind {
            HandKind::HighCard => 0,
            HandKind::OnePair => 1,
            HandKind::TwoPair => 2,
            HandKind::ThreeOfAKind => 3,
            HandKind::Straight => 4,
            HandKind::Flush => 5,
            HandKind::FullHouse => 6,
            HandKind::FourOfAKind => 7,
            HandKind::StraightFlush => 8,
        };
        k * 67108864 + (self.primary as u32) * 8192 + self.secondary as u32
    }
}

/// The card that comes `k`-th when the universe is walked from the highest rank down, the
/// four suits of each rank in index order.
pub open spec fn card_in_rank_order(k: nat) -> Card {
    Card { rank: rank_at((12 - k / 4) as nat), suit: suit_at(k % 4) }
}

/// Where a card comes in that walk.
pub open spec fn rank_order_of(c: Card) -> nat {
    ((12 - rank_index(c.rank)) * 4 + suit_index(c.suit)) as nat
}

proof fn lemma_rank_order(c: Card, k: nat)
    ensures
        card_in_rank_order(rank_order_of(c)) == c,
        rank_order_of(c) < 52,
        k < 52 ==> rank_order_of(card_in_rank_order(k)) == k,
{
}

/// The classifier's cards filled up with cards of `cards` not yet in it, in the walk order
/// of `card_in_rank_order` (highest rank first, suits in index order), until it holds five
/// cards or all of `cards`.
pub open spec fn is_best5_completion(cards: Set<Card>, core: Set<Card>, r: Set<Card>) -> bool {
    &&& core.subset_of(r)
    &&& r.subset_of(cards)
    &&& r.finite()
    &&& r.len() == if cards.len() >= 5 { 5 } else { cards.len() }
    &&& forall|c: Card, d: Card|
        r.contains(c) && !core.contains(c) && cards.contains(d) && !r.contains(d)
            ==> rank_order_of(c) < rank_order_of(d)
}

/// There is only one completion of given cards and classifier cards.
pub proof fn lemma_completion_unique(cards: Set<Card>, core: Set<Card>, r1: Set<Card>, r2: Set<Card>)
    requires
        is_best5_completion(cards, core, r1),
        is_best5_completion(cards, core, r2),
    ensures
        r1 == r2,
{
    if !r2.subset_of(r1) {
        let d = choose|d: Card| r2.contains(d) && !r1.contains(d);
        if !r1.subset_of(r2) {
            let c = choose|c: Card| r1.contains(c) && !r2.contains(c);
            assert(rank_order_of(c) < rank_order_of(d));
            assert(rank_order_of(d) < rank_order_of(c));
        } else {
            lemma_subset_equality(r1, r2);
        }
    } else {
        lemma_subset_equality(r2, r1);
    }
}

/// Fills `core` up to five cards of `cards`, taking the highest ranks first (suits in index
/// order among equal ranks).
pub fn complete_best5(cards: &CardSet, core: &CardSet) -> (r: CardSet)
    requires
        cards@.finite(),
        core@.subset_of(cards@),
        core@.len() <= 5,
    ensures
        is_best5_completion(cards@, core@, r@),
{
    proof { lemma_len_subset(core@, cards@); }
    let mut best = *core;
    let mut count: usize = 0;
    let mut k: u8 = 0;
    proof {
        assert(core@.filter(|c: Card| rank_order_of(c) < 0) =~= Set::<Card>::empty());
    }
    // count the classifier's cards
    while k < 52
        invariant
            k <= 52,
            core@.finite(),
            core@.len() <= 5,
            best == *core,
            count as nat == core@.filter(|c: Card| rank_order_of(c) < k).len(),
        decreases 52 - k,
    {
        let c = Card::new(Rank::from_index(12 - k / 4), Suit::from_index(k % 4));
        proof {
            lemma_rank_order(c, k as nat);
            let before = core@.filter(|d: Card| rank_order_of(d) < k);
            let after = core@.filter(|d: Card| rank_order_of(d) < k + 1);
            if core@.contains(c) {
                assert(after =~= before.insert(c));
            } else {
                assert(after =~= before);
            }
            lemma_len_subset(after, core@);
        }
        if core.contains(c) {
            count = count + 1;
        }
        k = k + 1;
    }
    proof {
        assert forall|d: Card| core@.contains(d) implies rank_order_of(d) < 52 by {
            lemma_rank_order(d, 0);
        }
        assert(core@.filter(|c: Card| rank_order_of(c) < 52) =~= core@);
    }
    k = 0;
    while k < 52
        invariant
            k <= 52,
            cards@.finite(),
            core@.subset_of(best@),
            best@.subset_of(cards@),
            best@.finite(),
            count as nat == best@.len(),
            count <= 5,
            count < 5 ==> forall|j: nat| j < k && cards@.contains(card_in_rank_order(j))
                ==> #[trigger] best@.contains(card_in_rank_order(j)),
            forall|c: Card| best@.contains(c) && !core@.contains(c) ==> rank_order_of(c) < k,
            forall|c: Card, d: Card|
                best@.contains(c) && !core@.contains(c) && cards@.contains(d) && !best@.contains(d)
                    ==> rank_order_of(c) < rank_order_of(d),
        decreases 52 - k,
    {
        let c = Card::new(Rank::from_index(12 - k / 4), Suit::from_index(k % 4));
        proof {
            lemma_rank_order(c, k as nat);
        }
        if count < 5 && cards.contains(c) && !best.contains(c) {
            best = best.insert(c);
            count = count + 1;
            proof {
                assert forall|e: Card, d: Card|
                    best@.contains(e) && !core@.contains(e) && cards@.contains(d) && !best@.contains(d)
                        implies rank_order_of(e) < rank_order_of(d) by {
                    lemma_rank_order(d, 0);
                    lemma_rank_order(e, 0);
                    if rank_order_of(d) < k {
                        assert(best@.contains(card_in_rank_order(rank_order_of(d))));
                    }
                }
            }
        } else {
            proof {
                assert forall|e: Card, d: Card|
                    best@.contains(e) && !core@.contains(e) && cards@.contains(d) && !best@.contains(d)
                        implies rank_order_of(e) < rank_order_of(d) by {
                }
            }
        }
        k = k + 1;
    }
    proof {
        lemma_len_subset(best@, cards@);
        if count < 5 {
            assert forall|d: Card| cards@.contains(d) implies best@.contains(d) by {
                lemma_rank_order(d, 0);
                assert(best@.contains(card_in_rank_order(rank_order_of(d))));
            }
            assert(best@ =~= cards@);
        }
    }
    best
}

/// One dealt hand with its classification.
#[derive(Debug)]
pub struct HandResult {
    /// The cards in the order they were drawn.
    pub cards: Vec<Card>,
    /// The five cards that make the hand's best combination.
    pub best5: CardSet,
    pub category: HandCategory,
}

/// The label shown for a rank field: the rank's character, or "?" for a value that is no rank.
pub open spec fn rank_label(i: u16) -> Seq<char> {
    if i < 13 { crate::card::rank_text(rank_at(i as nat)) } else { "?"@ }
}

/// The human-readable name of a category.
pub open spec fn display_name(c: HandCategory) -> Seq<char> {
    match c.kind {
        HandKind::StraightFlush => "Straight Flush ("@ + rank_label(c.primary) + ")"@,
        HandKind::FourOfAKind => "Four of a Kind ("@ + rank_label(c.primary) + "s)"@,
        HandKind::FullHouse => "Full House ("@ + rank_label(c.primary) + "s over "@
            + rank_label(c.secondary) + "s)"@,
        HandKind::Flush => "Flush"@,
        HandKind::Straight => "Straight ("@ + rank_label(c.primary) + ")"@,
        HandKind::ThreeOfAKind => "Three of a Kind ("@ + rank_label(c.primary) + "s)"@,
        HandKind::TwoPair => "Two Pair"@,
        HandKind::OnePair => "Pair of "@ + rank_label(c.primary) + "s"@,
        HandKind::HighCard => "High Card"@,
    }
}

/// The style classes of a hand's frame, by category.
pub open spec fn color_class(k: HandKind) -> Seq<char> {
    match k {
        HandKind::StraightFlush => "bg-purple-100 border-purple-400"@,
        HandKind::FourOfAKind => "bg-red-100 border-red-400"@,
        HandKind::FullHouse => "bg-orange-100 border-orange-400"@,
        HandKind::Flush => "bg-blue-100 border-blue-400"@,
        HandKind::Straight => "bg-green-100 border-green-400"@,
        HandKind::ThreeOfAKind => "bg-yellow-100 border-yellow-400"@,
        HandKind::TwoPair => "bg-indigo-100 border-indigo-400"@,
        HandKind::OnePair => "bg-gray-100 border-gray-400"@,
        HandKind::HighCard => "bg-slate-50 border-slate-300"@,
    }
}

/// The style classes of a hand's category badge.
pub open spec fn badge_class(k: HandKind) -> Seq<char> {
    match k {
        HandKind::StraightFlush => "bg-purple-500 text-white"@,
        HandKind::FourOfAKind => "bg-red-500 text-white"@,
        HandKind::FullHouse => "bg-orange-500 text-white"@,
        HandKind::Flush => "bg-blue-500 text-white"@,
        HandKind::Straight => "bg-green-500 text-white"@,
        HandKind::ThreeOfAKind => "bg-yellow-500 text-black"@,
        HandKind::TwoPair => "bg-indigo-500 text-white"@,
        HandKind::OnePair => "bg-gray-500 text-white"@,
        HandKind::HighCard => "bg-slate-400 text-white"@,
    }
}

fn rank_label_text(i: u16) -> (r: &'static str)
    ensures
        r@ == rank_label(i),
{
    if i < 13 {
        Rank::from_index(i as u8).text()
    } else {
        "?"
    }
}

impl HandResult {
    /// Every card distinct, at least five of them, and five of them marked as the best.
    pub open spec fn wf(&self) -> bool {
        &&& self.cards@.no_duplicates()
        &&& self.cards@.len() >= 5
        &&& self.best5@.subset_of(self.cards@.to_set())
        &&& self.best5@.finite()
        &&& self.best5@.len() == 5
        &&& self.category.wf()
    }

    /// Classifies a drawn hand. There is none for fewer than five cards (the classifier is
    /// not called then) or for a hand that repeats a card.
    pub fn new(cards: Vec<Card>) -> (r: Option<HandResult>)
        ensures
            r.is_some() <==> (cards@.len() >= 5 && cards@.no_duplicates()),
            r matches Some(h) ==> {
                &&& h.wf()
                &&& h.cards@ == cards@
                &&& h.category == classified_category(cards@.to_set())
                &&& is_best5_completion(cards@.to_set(), classifier_of(cards@.to_set()).0, h.best5@)
            },
    {
        if cards.len() < 5 {
            return None;
        }
        let mut set = CardSet::empty();
        let mut i: usize = 0;
        while i < cards.len()
            invariant
                i <= cards@.len(),
                set@.finite(),
                set@.len() == i,
                set.bits < 0x10000000000000,
                forall|c: Card| set@.contains(c) <==> exists|j: int| 0 <= j < i && cards@[j] == c,
                forall|a: int, b: int| 0 <= a < b < i ==> cards@[a] != cards@[b],
            decreases cards@.len() - i,
        {
            let c = cards[i];
            if set.contains(c) {
                proof {
                    let j = choose|j: int| 0 <= j < i && cards@[j] == c;
                    assert(cards@[j] == cards@[i as int]);
                }
                return None;
            }
            set = set.insert(c);
            proof {
                assert(cards@.subrange(0, i + 1).drop_last() =~= cards@.subrange(0, i as int));
                assert forall|d: Card| set@.contains(d) implies exists|j: int| 0 <= j < i + 1 && cards@[j] == d by {
                    if d == c {
                        assert(cards@[i as int] == d);
                    }
                }
            }
            i = i + 1;
        }
        proof {
            assert(cards@.subrange(0, i as int) =~= cards@);
            assert(set@ =~= cards@.to_set());
        }
        let (used_bits, (kind, primary, secondary)) = ref_best5(set.bits);
        let used = CardSet { bits: used_bits };
        let best5 = complete_best5(&set, &used);
        let category = if kind == 0 {
            HandCategory { kind: HandKind::HighCard, primary: rank_mask_of(&used), secondary: 0 }
        } else {
            HandCategory::from_codes(kind, primary, secondary)
        };
        Some(HandResult { cards, best5, category })
    }

    /// Whether `card` is one of the best five.
    pub fn is_highlighted(&self, card: Card) -> (r: bool)
        ensures
            r == self.best5@.contains(card),
    {
        self.best5.contains(card)
    }

    pub fn hand_color_class(&self) -> (r: &'static str)
        ensures
            r@ == color_class(self.category.kind),
    {
        match self.category.kind {
            HandKind::StraightFlush => "bg-purple-100 border-purple-400",
            HandKind::FourOfAKind => "bg-red-100 border-red-400",
            HandKind::FullHouse => "bg-orange-100 border-orange-400",
            HandKind::Flush => "bg-blue-100 border-blue-400",
            HandKind::Straight => "bg-green-100 border-green-400",
            HandKind::ThreeOfAKind => "bg-yellow-100 border-yellow-400",
            HandKind::TwoPair => "bg-indigo-100 border-indigo-400",
            HandKind::OnePair => "bg-gray-100 border-gray-400",
            HandKind::HighCard => "bg-slate-50 border-slate-300",
        }
    }

    pub fn rank_badge_class(&self) -> (r: &'static str)
        ensures
            r@ == badge_class(self.category.kind),
    {
        match self.category.kind {
            HandKind::StraightFlush => "bg-purple-500 text-white",
            HandKind::FourOfAKind => "bg-red-500 text-white",
            HandKind::FullHouse => "bg-orange-500 text-white",
            HandKind::Flush => "bg-blue-500 text-white",
            HandKind::Straight => "bg-green-500 text-white",
            HandKind::ThreeOfAKind => "bg-yellow-500 text-black",
            HandKind::TwoPair => "bg-indigo-500 text-white",
            HandKind::OnePair => "bg-gray-500 text-white",
            HandKind::HighCard => "bg-slate-400 text-white",
        }
    }

    pub fn hand_display_name(&self) -> (r: String)
        ensures
            r@ == display_name(self.category),
    {
        let c = self.category;
        match c.kind {
            HandKind::StraightFlush => {
                String::from_str("Straight Flush (").concat(rank_label_text(c.primary)).concat(")")
            },
            HandKind::FourOfAKind => {
                String::from_str("Four of a Kind (").concat(rank_label_text(c.primary)).concat("s)")
            },
            HandKind::FullHouse => {
                String::from_str("Full House (").concat(rank_label_text(c.primary)).concat(
                    "s over ",
                ).concat(rank_label_text(c.secondary)).concat("s)")
            },
            HandKind::Flush => String::from_str("Flush"),
            HandKind::Straight => {
                String::from_str("Straight (").concat(rank_label_text(c.primary)).concat(")")
            },
            HandKind::ThreeOfAKind => {
                String::from_str("Three of a Kind (").concat(rank_label_text(c.primary)).concat("s)")
            },
            HandKind::TwoPair => String::from_str("Two Pair"),
            HandKind::OnePair => {
                String::from_str("Pair of ").concat(rank_label_text(c.primary)).concat("s")
            },
            HandKind::HighCard => String::from_str("High Card"),
        }
    }
}

} // verus!
