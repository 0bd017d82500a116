use vstd::prelude::*;
use vstd::string::StringExecFns;
use crate::card::{Card, Rank, Suit, rank_index};

verus! {

/// Columns of the sprite grid: column 0 holds the specials, 1 to 13 the ranks.
pub const GRID_COLS: i32 = 14;
/// Rows of the sprite grid.
pub const GRID_ROWS: i32 = 6;
/// Width of one tile, in source pixels.
pub const TILE_W: i32 = 56;
/// Height of one tile, in source pixels.
pub const TILE_H: i32 = 80;

/// The tiles of column 0 that are no card of the deck.
#[derive(Clone, Copy, Debug, PartialEq, Eq, Structural)]
pub enum Special {
    EmptyCard,
    EmptySpace,
    RedBack,
    BlueBack,
    Joker,
    JokerAlt,
}

/// Which tile to render.
#[derive(Clone, Copy, Debug, PartialEq, Eq, Structural)]
pub enum CardKind {
    Normal(Card),
    /// Specials live in column 0, one per row.
    Special(Special),
}

/// A tile's place in the grid.
#[derive(Clone, Copy, Debug, PartialEq, Eq, Structural)]
pub struct AtlasPos {
    pub row: i32,
    pub col: i32,
}

/// What a card is rendered from: its kind and extra style classes.
pub struct CardProps {
    pub kind: CardKind,
    pub class: Option<String>,
}

/// A rendered card: the front and back tiles and the wrapper's style classes.
pub struct CardView {
    pub front: AtlasPos,
    pub back: AtlasPos,
    /// Background-position numerators of the front tile (see `background_position`).
    pub front_offset: (i32, i32),
    /// Background-position numerators of the back tile.
    pub back_offset: (i32, i32),
    /// Background size of both faces, in percent: the whole sheet.
    pub sheet_size: (i32, i32),
    /// Aspect ratio of the wrapper, width to height.
    pub aspect: (i32, i32),
    pub wrapper_class: String,
}

pub open spec fn suit_row_spec(s: Suit) -> int {
    match s {
        Suit::Hearts => 0,
        Suit::Spades => 1,
        Suit::Diamonds => 2,
        Suit::Clubs => 3,
    }
}

/// Ace is column 1, Two to King columns 2 to 13.
pub open spec fn rank_col_spec(r: Rank) -> int {
    if r == Rank::Ace { 1 } else { rank_index(r) as int + 2 }
}

pub open spec fn special_row_spec(s: Special) -> int {
    match s {
        Special::EmptyCard => 0,
        Special::EmptySpace => 1,
        Special::RedBack => 2,
        Special::BlueBack => 3,
        Special::Joker => 4,
        Special::JokerAlt => 5,
    }
}

/// The grid place of a tile: suit row and rank column for a card, column 0 for a special.
pub open spec fn atlas_pos_spec(k: CardKind) -> (int, int) {
    match k {
        CardKind::Normal(c) => (suit_row_spec(c.suit), rank_col_spec(c.rank)),
        CardKind::Special(s) => (special_row_spec(s), 0),
    }
}

/// Row of a suit: Hearts 0, Spades 1, Diamonds 2, Clubs 3.
pub fn suit_row(s: Suit) -> (r: i32)
    ensures
        r == suit_row_spec(s),
{
    match s {
        Suit::Hearts => 0,
        Suit::Spades => 1,
        Suit::Diamonds => 2,
        Suit::Clubs => 3,
    }
}

/// Column of a rank; column 0 is reserved for specials.
pub fn rank_col(r: Rank) -> (c: i32)
    ensures
        c == rank_col_spec(r),
{
    match r {
        Rank::Ace => 1,
        Rank::Two => 2,
        Rank::Three => 3,
        Rank::Four => 4,
        Rank::Five => 5,
        Rank::Six => 6,
        Rank::Seven => 7,
        Rank::Eight => 8,
        Rank::Nine => 9,
        Rank::Ten => 10,
        Rank::Jack => 11,
        Rank::Queen => 12,
        Rank::King => 13,
    }
}

/// Row of a special tile in column 0.
pub fn special_row(s: Special) -> (r: i32)
    ensures
        r == special_row_spec(s),
{
    match s {
        Special::EmptyCard => 0,
        Special::EmptySpace => 1,
        Special::RedBack => 2,
        Special::BlueBack => 3,
        Special::Joker => 4,
        Special::JokerAlt => 5,
    }
}

/// The grid place of a tile.
pub fn atlas_position(kind: CardKind) -> (r: AtlasPos)
    ensures
        (r.row as int, r.col as int) == atlas_pos_spec(kind),
{
    match kind {
        CardKind::Normal(c) => AtlasPos { row: suit_row(c.suit), col: rank_col(c.rank) },
        CardKind::Special(s) => AtlasPos { row: special_row(s), col: 0 },
    }
}

/// Every tile, card or special, has its own place inside the 6 by 14 grid; cards fill
/// columns 1 to 13 of rows 0 to 3, specials column 0.
pub proof fn lemma_atlas_total(a: CardKind, b: CardKind)
    ensures
        0 <= atlas_pos_spec(a).0 < GRID_ROWS,
        0 <= atlas_pos_spec(a).1 < GRID_COLS,
        a is Normal ==> atlas_pos_spec(a).0 < 4 && atlas_pos_spec(a).1 >= 1,
        a is Special ==> atlas_pos_spec(a).1 == 0,
        a != b ==> atlas_pos_spec(a) != atlas_pos_spec(b),
{
}

/// The background-position numerators of a tile, in percent: the horizontal one is over
/// `GRID_COLS - 1`, the vertical one over `GRID_ROWS - 1`.
pub fn background_position(pos: AtlasPos) -> (r: (i32, i32))
    requires
        0 <= pos.row < GRID_ROWS,
        0 <= pos.col < GRID_COLS,
    ensures
        r.0 == pos.col * 100,
        r.1 == pos.row * 100,
{
    (pos.col * 100, pos.row * 100)
}

/// The background size of the sprite sheet, in percent of one tile.
pub fn background_size() -> (r: (i32, i32))
    ensures
        r.0 == GRID_COLS * 100,
        r.1 == GRID_ROWS * 100,
{
    (GRID_COLS * 100, GRID_ROWS * 100)
}

/// The front tile of the card, the red back as its back, both faces sized to the 1400% by
/// 600% sheet, a 56:80 wrapper, and "card-wrapper " followed by the extra classes (none
/// when absent).
#[allow(non_snake_case)]
pub fn CardComponent(props: CardProps) -> (r: CardView)
    ensures
        (r.front.row as int, r.front.col as int) == atlas_pos_spec(props.kind),
        (r.back.row as int, r.back.col as int) == atlas_pos_spec(CardKind::Special(Special::RedBack)),
        r.front_offset.0 == r.front.col * 100,
        r.front_offset.1 == r.front.row * 100,
        r.back_offset.0 == r.back.col * 100,
        r.back_offset.1 == r.back.row * 100,
        r.sheet_size == (1400i32, 600i32),
        r.aspect == (56i32, 80i32),
        r.wrapper_class@ == "card-wrapper "@ + match props.class {
            Some(c) => c@,
            None => Seq::<char>::empty(),
        },
{
    let front = atlas_position(props.kind);
    let back = AtlasPos { row: special_row(Special::RedBack), col: 0 };
    let front_offset = background_position(front);
    let back_offset = background_position(back);
    let sheet_size = background_size();
    let base = String::from_str("card-wrapper ");
    let wrapper_class = match &props.class {
        Some(c) => base.concat(c.as_str()),
        None => {
            proof {
                assert(base@ + Seq::<char>::empty() =~= base@);
            }
            base
        },
    };
    CardView { front, back, front_offset, back_offset, sheet_size, aspect: (TILE_W, TILE_H), wrapper_class }
}

} // verus!
