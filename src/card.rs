use vstd::prelude::*;

verus! {

/// The thirteen ranks, from lowest to highest.
#[derive(Clone, Copy, Debug, PartialEq, Eq, Structural)]
pub enum Rank {
    Two,
    Three,
    Four,
    Five,
    Six,
    Seven,
    Eight,
    Nine,
    Ten,
    Jack,
    Queen,
    King,
    Ace,
}

/// The four suits, in the order the card indices use.
#[derive(Clone, Copy, Debug, PartialEq, Eq, Structural)]
pub enum Suit {
    Spades,
    Hearts,
    Clubs,
    Diamonds,
}

/// One card of the 52-card universe.
#[derive(Clone, Copy, Debug, PartialEq, Eq, Structural)]
pub struct Card {
    pub rank: Rank,
    pub suit: Suit,
}

/// Position of a rank in ascending order: Two is 0, Ace is 12.
pub open spec fn rank_index(r: Rank) -> nat {
    match r {
        Rank::Two => 0,
        Rank::Three => 1,
        Rank::Four => 2,
        Rank::Five => 3,
        Rank::Six => 4,
        Rank::Seven => 5,
        Rank::Eight => 6,
        Rank::Nine => 7,
        Rank::Ten => 8,
        Rank::Jack => 9,
        Rank::Queen => 10,
        Rank::King => 11,
        Rank::Ace => 12,
    }
}

/// Position of a suit: Spades 0, Hearts 1, Clubs 2, Diamonds 3.
pub open spec fn suit_index(s: Suit) -> nat {
    match s {
        Suit::Spades => 0,
        Suit::Hearts => 1,
        Suit::Clubs => 2,
        Suit::Diamonds => 3,
    }
}

/// The rank with a given position.
pub open spec fn rank_at(i: nat) -> Rank {
    if i == 0 { Rank::Two }
    else if i == 1 { Rank::Three }
    else if i == 2 { Rank::Four }
    else if i == 3 { Rank::Five }
    else if i == 4 { Rank::Six }
    else if i == 5 { Rank::Seven }
    else if i == 6 { Rank::Eight }
    else if i == 7 { Rank::Nine }
    else if i == 8 { Rank::Ten }
    else if i == 9 { Rank::Jack }
    else if i == 10 { Rank::Queen }
    else if i == 11 { Rank::King }
    else { Rank::Ace }
}

/// The suit with a given position.
pub open spec fn suit_at(i: nat) -> Suit {
    if i == 0 { Suit::Spades }
    else if i == 1 { Suit::Hearts }
    else if i == 2 { Suit::Clubs }
    else { Suit::Diamonds }
}

/// Index of a card in the 52-card universe: rank position plus 13 times suit position.
pub open spec fn card_index(c: Card) -> nat {
    rank_index(c.rank) + 13 * suit_index(c.suit)
}

pub proof fn lemma_card_index_injective(a: Card, b: Card)
    ensures
        card_index(a) < 52,
        card_index(a) == card_index(b) ==> a == b,
{
}

impl Rank {
    /// Position of this rank (Two is 0, Ace is 12).
    pub fn index(self) -> (r: u8)
        ensures
            r as nat == rank_index(self),
    {
        match self {
            Rank::Two => 0,
            Rank::Three => 1,
            Rank::Four => 2,
            Rank::Five => 3,
            Rank::Six => 4,
            Rank::Seven => 5,
            Rank::Eight => 6,
            Rank::Nine => 7,
            Rank::Ten => 8,
            Rank::Jack => 9,
            Rank::Queen => 10,
            Rank::King => 11,
            Rank::Ace => 12,
        }
    }

    /// The rank at a position below 13.
    pub fn from_index(i: u8) -> (r: Rank)
        requires
            i < 13,
        ensures
            r == rank_at(i as nat),
            rank_index(r) == i,
    {
        if i == 0 { Rank::Two }
        else if i == 1 { Rank::Three }
        else if i == 2 { Rank::Four }
        else if i == 3 { Rank::Five }
        else if i == 4 { Rank::Six }
        else if i == 5 { Rank::Seven }
        else if i == 6 { Rank::Eight }
        else if i == 7 { Rank::Nine }
        else if i == 8 { Rank::Ten }
        else if i == 9 { Rank::Jack }
        else if i == 10 { Rank::Queen }
        else if i == 11 { Rank::King }
        else { Rank::Ace }
    }

    /// The one-character label of this rank ("2" to "9", "T", "J", "Q", "K", "A").
    pub fn text(self) -> (r: &'static str)
        ensures
            r@ == rank_text(self),
    {
        match self {
            Rank::Two => "2",
            Rank::Three => "3",
            Rank::Four => "4",
            Rank::Five => "5",
            Rank::Six => "6",
            Rank::Seven => "7",
            Rank::Eight => "8",
            Rank::Nine => "9",
            Rank::Ten => "T",
            Rank::Jack => "J",
            Rank::Queen => "Q",
            Rank::King => "K",
            Rank::Ace => "A",
        }
    }
}

/// The one-character label of a rank.
pub open spec fn rank_text(r: Rank) -> Seq<char> {
    match r {
        Rank::Two => "2"@,
        Rank::Three => "3"@,
        Rank::Four => "4"@,
        Rank::Five => "5"@,
        Rank::Six => "6"@,
        Rank::Seven => "7"@,
        Rank::Eight => "8"@,
        Rank::Nine => "9"@,
        Rank::Ten => "T"@,
        Rank::Jack => "J"@,
        Rank::Queen => "Q"@,
        Rank::King => "K"@,
        Rank::Ace => "A"@,
    }
}

impl Suit {
    /// Position of this suit (Spades 0, Hearts 1, Clubs 2, Diamonds 3).
    pub fn index(self) -> (r: u8)
        ensures
            r as nat == suit_index(self),
    {
        match self {
            Suit::Spades => 0,
            Suit::Hearts => 1,
            Suit::Clubs => 2,
            Suit::Diamonds => 3,
        }
    }

    /// The suit at a position below 4.
    pub fn from_index(i: u8) -> (r: Suit)
        requires
            i < 4,
        ensures
            r == suit_at(i as nat),
            suit_index(r) == i,
    {
        if i == 0 { Suit::Spades }
        else if i == 1 { Suit::Hearts }
        else if i == 2 { Suit::Clubs }
        else { Suit::Diamonds }
    }
}

impl Card {
    pub fn new(rank: Rank, suit: Suit) -> (r: Card)
        ensures
            r.rank == rank,
            r.suit == suit,
    {
        Card { rank, suit }
    }

    /// Index of this card in the 52-card universe.
    pub fn index(self) -> (r: u8)
        ensures
            r as nat == card_index(self),
            r < 52,
    {
        self.rank.index() + 13 * self.suit.index()
    }

    /// The card with a given index below 52.
    pub fn from_index(i: u8) -> (r: Card)
        requires
            i < 52,
        ensures
            card_index(r) == i,
    {
        Card { rank: Rank::from_index(i % 13), suit: Suit::from_index(i / 13) }
    }
}

} // verus!
