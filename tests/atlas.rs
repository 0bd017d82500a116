use dealrs_web::atlas::{
    atlas_position, background_position, background_size, rank_col, special_row, suit_row,
    AtlasPos, CardComponent, CardKind, CardProps, Special,
};
use dealrs_web::card::{Card, Rank, Suit};

#[test]
fn atlas_scenario_coordinates() {
    let ah = atlas_position(CardKind::Normal(Card::new(Rank::Ace, Suit::Hearts)));
    assert_eq!(ah, AtlasPos { row: 0, col: 1 });
    let kc = atlas_position(CardKind::Normal(Card::new(Rank::King, Suit::Clubs)));
    assert_eq!(kc, AtlasPos { row: 3, col: 13 });
    let joker = atlas_position(CardKind::Special(Special::Joker));
    assert_eq!(joker, AtlasPos { row: 4, col: 0 });
}

#[test]
fn atlas_is_total_and_unique() {
    let mut seen = Vec::new();
    for i in 0..52u8 {
        let p = atlas_position(CardKind::Normal(Card::from_index(i)));
        assert!((0..4).contains(&p.row) && (1..14).contains(&p.col));
        seen.push(p);
    }
    for s in [
        Special::EmptyCard,
        Special::EmptySpace,
        Special::RedBack,
        Special::BlueBack,
        Special::Joker,
        Special::JokerAlt,
    ] {
        let p = atlas_position(CardKind::Special(s));
        assert_eq!(p.col, 0);
        assert_eq!(p.row, special_row(s));
        seen.push(p);
    }
    for i in 0..seen.len() {
        for j in i + 1..seen.len() {
            assert_ne!(seen[i], seen[j]);
        }
    }
}

#[test]
fn rows_and_columns() {
    assert_eq!(suit_row(Suit::Hearts), 0);
    assert_eq!(suit_row(Suit::Spades), 1);
    assert_eq!(suit_row(Suit::Diamonds), 2);
    assert_eq!(suit_row(Suit::Clubs), 3);
    assert_eq!(rank_col(Rank::Ace), 1);
    assert_eq!(rank_col(Rank::Two), 2);
    assert_eq!(rank_col(Rank::Ten), 10);
    assert_eq!(rank_col(Rank::King), 13);
    assert_eq!(special_row(Special::EmptyCard), 0);
    assert_eq!(special_row(Special::JokerAlt), 5);
}

#[test]
fn background_geometry() {
    assert_eq!(background_size(), (1400, 600));
    assert_eq!(background_position(AtlasPos { row: 3, col: 13 }), (1300, 300));
    assert_eq!(background_position(AtlasPos { row: 0, col: 0 }), (0, 0));
}

#[test]
fn card_component_views() {
    let v = CardComponent(CardProps {
        kind: CardKind::Normal(Card::new(Rank::Queen, Suit::Diamonds)),
        class: Some("opacity-60".to_string()),
    });
    assert_eq!(v.front, AtlasPos { row: 2, col: 12 });
    assert_eq!(v.back, AtlasPos { row: 2, col: 0 });
    assert_eq!(v.wrapper_class, "card-wrapper opacity-60");
    assert_eq!(v.front_offset, (1200, 200));
    assert_eq!(v.back_offset, (0, 200));
    assert_eq!(v.sheet_size, (1400, 600));
    assert_eq!(v.aspect, (56, 80));
    let w = CardComponent(CardProps { kind: CardKind::Special(Special::BlueBack), class: None });
    assert_eq!(w.front, AtlasPos { row: 3, col: 0 });
    assert_eq!(w.wrapper_class, "card-wrapper ");
}
