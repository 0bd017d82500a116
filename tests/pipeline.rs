use dealrs::deck::{sample_cards_ordered, CardMask};
use dealrs::rng_from_seed;
use dealrs_web::card::{Card, Rank, Suit};
use dealrs_web::deal::{
    handle_deal, seed_from_input, DealAction, DealConfig, DealError, DealSession,
};
use dealrs_web::hand::{complete_best5, HandKind, HandResult};
use dealrs_web::cardset::CardSet;
use dealrs_web::ranking::rank;

fn card(text: &str) -> Card {
    let b = text.as_bytes();
    let rank = match b[0] {
        b'2' => Rank::Two,
        b'3' => Rank::Three,
        b'4' => Rank::Four,
        b'5' => Rank::Five,
        b'6' => Rank::Six,
        b'7' => Rank::Seven,
        b'8' => Rank::Eight,
        b'9' => Rank::Nine,
        b'T' => Rank::Ten,
        b'J' => Rank::Jack,
        b'Q' => Rank::Queen,
        b'K' => Rank::King,
        _ => Rank::Ace,
    };
    let suit = match b[1] {
        b's' => Suit::Spades,
        b'h' => Suit::Hearts,
        b'c' => Suit::Clubs,
        _ => Suit::Diamonds,
    };
    Card::new(rank, suit)
}

fn cards(list: &[&str]) -> Vec<Card> {
    list.iter().map(|t| card(t)).collect()
}

fn best_of(h: &HandResult) -> Vec<Card> {
    h.cards.iter().copied().filter(|c| h.is_highlighted(*c)).collect()
}

/// Runs a deal session with dealrs's seeded sampler and returns the draws it recorded.
fn seeded_draws(seed: &str, num_hands: usize, per_hand: usize) -> Vec<Vec<Card>> {
    let mut rng = rng_from_seed(seed_from_input(seed));
    let mut session = DealSession::start(DealConfig::new(num_hands, per_hand).unwrap());
    while let DealAction::Draw { universe, count } = session.next_action() {
        let drawn = sample_cards_ordered(CardMask::from_bits(universe.bits), count, &mut rng)
            .into_iter()
            .map(|c| Card::from_index(c.to_index()))
            .collect();
        session.record_draw(drawn);
    }
    session.draws
}

#[test]
fn card_index_matches_dealrs() {
    for i in 0..52u8 {
        let d = dealrs::deck::Card::from_index(i);
        let c = Card::from_index(i);
        assert_eq!(c.index(), i);
        assert_eq!(c.rank.index(), d.rank().to_index());
        assert_eq!(c.suit.index(), d.suit().to_index());
    }
}

#[test]
fn four_of_a_kind_with_kicker() {
    let h = HandResult::new(cards(&["As", "2h", "Ah", "Ac", "3c", "Ad", "Ks"])).unwrap();
    assert_eq!(h.category.kind, HandKind::FourOfAKind);
    assert_eq!(h.category.primary, 12);
    assert_eq!(h.category.secondary, 1 << 11);
    assert_eq!(best_of(&h), cards(&["As", "Ah", "Ac", "Ad", "Ks"]));
    assert_eq!(h.hand_display_name(), "Four of a Kind (As)");
    assert_eq!(h.hand_color_class(), "bg-red-100 border-red-400");
    assert_eq!(h.rank_badge_class(), "bg-red-500 text-white");
}

#[test]
fn one_pair_takes_three_highest_kickers() {
    let h = HandResult::new(cards(&["9s", "2h", "9d", "Kc", "4d", "Jh", "7c"])).unwrap();
    assert_eq!(h.category.kind, HandKind::OnePair);
    assert_eq!(h.category.primary, 7);
    assert_eq!(h.hand_display_name(), "Pair of 9s");
    assert_eq!(best_of(&h), cards(&["9s", "9d", "Kc", "Jh", "7c"]));
    assert!(!h.is_highlighted(card("2h")));
    assert_eq!(h.rank_badge_class(), "bg-gray-500 text-white");
}

#[test]
fn full_house_and_straights_are_named() {
    let fh = HandResult::new(cards(&["Ts", "Th", "Tc", "4d", "4h", "2c", "9s"])).unwrap();
    assert_eq!(fh.category.kind, HandKind::FullHouse);
    assert_eq!(fh.hand_display_name(), "Full House (Ts over 4s)");
    assert_eq!(best_of(&fh).len(), 5);
    let wheel = HandResult::new(cards(&["As", "2h", "3c", "4d", "5h", "9c", "Jd"])).unwrap();
    assert_eq!(wheel.category.kind, HandKind::Straight);
    assert_eq!(wheel.hand_display_name(), "Straight (5)");
    let sf = HandResult::new(cards(&["9h", "Th", "Jh", "Qh", "Kh", "2c", "2d"])).unwrap();
    assert_eq!(sf.hand_display_name(), "Straight Flush (K)");
    assert_eq!(sf.hand_color_class(), "bg-purple-100 border-purple-400");
    let high = HandResult::new(cards(&["2s", "5h", "9c", "Jd", "Kh"])).unwrap();
    assert_eq!(high.hand_display_name(), "High Card");
    assert_eq!(high.category.kind, HandKind::HighCard);
    assert_eq!(high.category.primary, 1 + 8 + 128 + 512 + 2048);
    assert_eq!(high.category.secondary, 0);
    let high7 = HandResult::new(cards(&["Qs", "2s", "5h", "9c", "Jd", "Kh", "3d"])).unwrap();
    // dealrs's reference classifier takes the five highest card indices for a high card
    assert_eq!(high7.category.primary, 2 + 8 + 128 + 512 + 2048);
    assert_eq!(best_of(&high7), cards(&["5h", "9c", "Jd", "Kh", "3d"]));
    assert_eq!(best_of(&high).len(), 5);
}

#[test]
fn too_few_cards_give_no_result() {
    assert!(HandResult::new(cards(&["As", "Kd"])).is_none());
    assert!(HandResult::new(cards(&["As", "Kd", "Qs", "Jh"])).is_none());
    assert!(HandResult::new(Vec::new()).is_none());
}

#[test]
fn repeated_card_gives_no_result() {
    assert!(HandResult::new(cards(&["As", "Kd", "Qs", "Jh", "As"])).is_none());
}

#[test]
fn two_cards_per_hand_are_omitted() {
    let draws = seeded_draws("fixed-seed-1", 3, 2);
    assert_eq!(draws.len(), 3);
    assert!(handle_deal(draws).is_empty());
}

#[test]
fn seeded_deal_repeats_exactly() {
    let a = seeded_draws("fixed-seed-1", 1, 7);
    let b = seeded_draws("fixed-seed-1", 1, 7);
    assert_eq!(a, b);
    assert_eq!(a[0].len(), 7);
    let ra = handle_deal(a);
    let rb = handle_deal(b);
    assert_eq!(ra.len(), 1);
    assert_eq!(ra[0].cards, rb[0].cards);
    assert_eq!(ra[0].category, rb[0].category);
}

#[test]
fn seeded_hands_have_distinct_cards() {
    for h in handle_deal(seeded_draws("distinct", 20, 9)) {
        for i in 0..h.cards.len() {
            for j in i + 1..h.cards.len() {
                assert_ne!(h.cards[i], h.cards[j]);
            }
        }
        assert_eq!(best_of(&h).len(), 5);
    }
}

#[test]
fn ranking_is_strongest_first_and_stable() {
    let pair_low = cards(&["3s", "3h", "9c", "Jd", "Kh"]);
    let quads = cards(&["7s", "7h", "7c", "7d", "2h"]);
    let pair_low_again = cards(&["3c", "3d", "9s", "Jh", "Kd"]);
    let high = cards(&["2s", "5h", "9c", "Jd", "Kh"]);
    let out = handle_deal(vec![pair_low.clone(), quads.clone(), pair_low_again.clone(), high.clone()]);
    assert_eq!(out.len(), 4);
    assert_eq!(out[0].cards, quads);
    assert_eq!(out[1].cards, pair_low);
    assert_eq!(out[2].cards, pair_low_again);
    assert_eq!(out[3].cards, high);
    for w in out.windows(2) {
        assert!(w[0].category.strength_value() >= w[1].category.strength_value());
    }
}

#[test]
fn rank_of_empty_and_seeded_batch() {
    assert!(rank(Vec::new()).is_empty());
    let out = handle_deal(seeded_draws("batch", 30, 7));
    assert_eq!(out.len(), 30);
    for w in out.windows(2) {
        assert!(w[0].category.strength_value() >= w[1].category.strength_value());
    }
}

#[test]
fn complete_best5_fills_by_rank() {
    let mut all = CardSet::empty();
    for c in cards(&["2s", "Ah", "7c", "Qd", "3h", "Kc"]) {
        all = all.insert(c);
    }
    let core = CardSet::empty().insert(card("2s"));
    let r = complete_best5(&all, &core);
    for c in cards(&["2s", "Ah", "Kc", "Qd", "7c"]) {
        assert!(r.contains(c));
    }
    assert!(!r.contains(card("3h")));
    let small = CardSet::empty().insert(card("2s")).insert(card("9d"));
    let r2 = complete_best5(&small, &CardSet::empty());
    assert_eq!(r2, small);
}

#[test]
fn deal_config_limits() {
    assert_eq!(DealConfig::new(3, 0), Err(DealError::InvalidCount));
    assert_eq!(DealConfig::new(3, 53), Err(DealError::InvalidCount));
    let c = DealConfig::new(2, 52).unwrap();
    assert_eq!((c.num_hands, c.cards_per_hand), (2, 52));
    let d = DealConfig::default_config();
    assert_eq!((d.num_hands, d.cards_per_hand), (3, 7));
}

#[test]
fn seed_text_empty_means_entropy() {
    assert_eq!(seed_from_input(""), None);
    assert_eq!(seed_from_input("fixed-seed-1"), Some("fixed-seed-1".to_string()));
    assert_eq!(seed_from_input("späť"), Some("späť".to_string()));
}

#[test]
fn fixed_seed_golden_hand() {
    let draws = seeded_draws("fixed-seed-1", 1, 7);
    let got: Vec<u8> = draws[0].iter().map(|c| c.index()).collect();
    assert_eq!(got, vec![19, 25, 14, 48, 26, 41, 35]);
    assert_eq!(draws[0], cards(&["8h", "Ah", "3h", "Jd", "2c", "4d", "Jc"]));
    let out = handle_deal(draws);
    assert_eq!(out.len(), 1);
    assert_eq!(out[0].category.kind, HandKind::OnePair);
    assert_eq!(out[0].hand_display_name(), "Pair of Js");
    assert_eq!(best_of(&out[0]), cards(&["8h", "Ah", "Jd", "4d", "Jc"]));
}

#[test]
fn same_cards_in_another_order_classify_alike() {
    let a = HandResult::new(cards(&["9s", "2h", "9d", "Kc", "4d", "Jh", "7c"])).unwrap();
    let b = HandResult::new(cards(&["7c", "Jh", "4d", "Kc", "9d", "2h", "9s"])).unwrap();
    assert_eq!(a.category, b.category);
    assert_eq!(a.best5, b.best5);
}

#[test]
fn best_five_ties_take_suits_in_order() {
    let h = HandResult::new(cards(&["Ad", "Ah", "7c", "7h", "5s", "5d", "2c"])).unwrap();
    assert_eq!(h.category.kind, HandKind::TwoPair);
    assert_eq!(best_of(&h), cards(&["Ad", "Ah", "7c", "7h", "5s"]));
}

#[test]
fn session_draws_each_hand_from_a_full_deck() {
    let mut session = DealSession::start(DealConfig::new(2, 7).unwrap());
    for _ in 0..2 {
        match session.next_action() {
            DealAction::Draw { universe, count } => {
                assert_eq!(count, 7);
                assert_eq!(universe, CardSet::full());
                assert_eq!(universe.bits, (1u64 << 52) - 1);
            }
            DealAction::Finish => panic!("finished early"),
        }
        session.record_draw(cards(&["As", "Ks", "Qs", "Js", "Ts", "2h", "3h"]));
    }
    assert_eq!(session.next_action(), DealAction::Finish);
    let out = session.finish();
    assert_eq!(out.len(), 2);
    assert_eq!(out[0].hand_display_name(), "Straight Flush (A)");
}

#[test]
fn session_with_no_hands_finishes_at_once() {
    let session = DealSession::start(DealConfig::new(0, 7).unwrap());
    assert_eq!(session.next_action(), DealAction::Finish);
    assert!(session.finish().is_empty());
}

#[test]
fn seeded_deal_keeps_every_hand() {
    let draws = seeded_draws("keep-all", 12, 5);
    assert_eq!(draws.len(), 12);
    assert_eq!(handle_deal(draws).len(), 12);
}
