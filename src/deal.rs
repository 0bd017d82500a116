use vstd::prelude::*;
use crate::card::Card;
use crate::cardset::CardSet;
use crate::hand::{
    HandResult, is_best5_completion, classifier_of, classified_category, lemma_completion_unique,
};
use crate::ranking::{rank, is_stable_ranking, strengths, lemma_ranking_unique};

verus! {

/// Why a deal is refused.
#[derive(Clone, Copy, Debug, PartialEq, Eq, Structural)]
pub enum DealError {
    /// Cards per hand is zero or more than the 52 cards of the universe.
    InvalidCount,
}

/// The controls of a deal.
#[derive(Clone, Copy, Debug, PartialEq, Eq, Structural)]
pub struct DealConfig {
    pub num_hands: usize,
    pub cards_per_hand: usize,
}

impl DealConfig {
    /// A deal of `num_hands` hands of `cards_per_hand` cards each, each hand drawn from a
    /// fresh full universe; refused unless 1 <= `cards_per_hand` <= 52.
    pub fn new(num_hands: usize, cards_per_hand: usize) -> (r: Result<DealConfig, DealError>)
        ensures
            r is Ok <==> 1 <= cards_per_hand <= 52,
            r matches Ok(c) ==> c.num_hands == num_hands && c.cards_per_hand == cards_per_hand,
            r matches Err(e) ==> e == DealError::InvalidCount,
    {
        if cards_per_hand == 0 || cards_per_hand > 52 {
            Err(DealError::InvalidCount)
        } else {
            Ok(DealConfig { num_hands, cards_per_hand })
        }
    }

    /// The controls shown before any input: three hands of seven cards.
    pub fn default_config() -> (r: DealConfig)
        ensures
            r.num_hands == 3,
            r.cards_per_hand == 7,
    {
        DealConfig { num_hands: 3, cards_per_hand: 7 }
    }
}

/// The seed a text field stands for: none when it is empty, else the text itself.
pub fn seed_from_input(text: &str) -> (r: Option<String>)
    ensures
        r is None <==> text@.len() == 0,
        r matches Some(s) ==> s@ == text@,
{
    if text.is_empty() {
        None
    } else {
        Some(text.to_owned())
    }
}

/// Whether a drawn hand can be classified: five cards or more, none repeated.
pub open spec fn classifiable(d: Seq<Card>) -> bool {
    d.len() >= 5 && d.no_duplicates()
}

/// The drawn hands that can be classified, in draw order.
pub open spec fn kept_draws(draws: Seq<Vec<Card>>) -> Seq<Vec<Card>> {
    draws.filter(|d: Vec<Card>| classifiable(d@))
}

/// `h` is the classification of the drawn hand `d`.
pub open spec fn classifies(h: HandResult, d: Seq<Card>) -> bool {
    &&& h.wf()
    &&& h.cards@ == d
    &&& h.category == classified_category(d.to_set())
    &&& is_best5_completion(d.to_set(), classifier_of(d.to_set()).0, h.best5@)
}

/// Two hand results with the same cards, category and best five.
pub open spec fn same_hand(a: HandResult, b: HandResult) -> bool {
    a.cards@ == b.cards@ && a.category == b.category && a.best5@ == b.best5@
}

/// Classification depends on the set of cards alone: the same cards drawn in another order
/// get the same category and the same best five.
pub proof fn lemma_classification_order_free(a: Seq<Card>, b: Seq<Card>, ha: HandResult, hb: HandResult)
    requires
        a.to_set() == b.to_set(),
        classifies(ha, a),
        classifies(hb, b),
    ensures
        ha.category == hb.category,
        ha.best5@ == hb.best5@,
{
    lemma_completion_unique(a.to_set(), classifier_of(a.to_set()).0, ha.best5@, hb.best5@);
}

/// `r` is what a deal of `draws` gives: the classifiable draws classified in draw order,
/// then ranked stably from strongest to weakest.
pub open spec fn is_deal_outcome(draws: Seq<Vec<Card>>, r: Seq<HandResult>) -> bool {
    exists|built: Seq<HandResult>, perm: Seq<int>|
        built.len() == kept_draws(draws).len()
        && (forall|i: int| 0 <= i < built.len()
            ==> classifies(#[trigger] built[i], kept_draws(draws)[i]@))
        && is_stable_ranking(strengths(built), perm)
        && r == perm.map_values(|i: int| built[i])
}

/// Dealing is deterministic: the same draws give the same hands in the same order, each
/// with the same category and best five.
pub proof fn lemma_deal_deterministic(draws: Seq<Vec<Card>>, r1: Seq<HandResult>, r2: Seq<HandResult>)
    requires
        is_deal_outcome(draws, r1),
        is_deal_outcome(draws, r2),
    ensures
        r1.len() == r2.len(),
        forall|i: int| 0 <= i < r1.len() ==> same_hand(#[trigger] r1[i], r2[i]),
{
    let (b1, p1) = choose|b1: Seq<HandResult>, p1: Seq<int>|
        b1.len() == kept_draws(draws).len()
        && (forall|i: int| 0 <= i < b1.len()
            ==> classifies(#[trigger] b1[i], kept_draws(draws)[i]@))
        && is_stable_ranking(strengths(b1), p1)
        && r1 == p1.map_values(|i: int| b1[i]);
    let (b2, p2) = choose|b2: Seq<HandResult>, p2: Seq<int>|
        b2.len() == kept_draws(draws).len()
        && (forall|i: int| 0 <= i < b2.len()
            ==> classifies(#[trigger] b2[i], kept_draws(draws)[i]@))
        && is_stable_ranking(strengths(b2), p2)
        && r2 == p2.map_values(|i: int| b2[i]);
    assert forall|i: int| 0 <= i < b1.len() implies same_hand(#[trigger] b1[i], b2[i]) by {
        let d = kept_draws(draws)[i]@;
        lemma_completion_unique(d.to_set(), classifier_of(d.to_set()).0, b1[i].best5@, b2[i].best5@);
    }
    assert(strengths(b1) =~= strengths(b2)) by {
        assert forall|i: int| 0 <= i < b1.len() implies strengths(b1)[i] == strengths(b2)[i] by {
            assert(same_hand(b1[i], b2[i]));
        }
    }
    lemma_ranking_unique(strengths(b1), p1, p2);
    assert forall|i: int| 0 <= i < r1.len() implies same_hand(#[trigger] r1[i], r2[i]) by {
        assert(0 <= p1[i] < b1.len());
        assert(same_hand(b1[p1[i]], b2[p1[i]]));
    }
}

/// Classifies each drawn hand and ranks the results, strongest first. A hand that cannot be
/// classified (fewer than five cards, or a repeated card) is left out; the classifier is
/// never called on it.
pub fn handle_deal(draws: Vec<Vec<Card>>) -> (r: Vec<HandResult>)
    ensures
        is_deal_outcome(draws@, r@),
        forall|i: int| 0 <= i < r@.len() ==> #[trigger] r@[i].wf(),
        forall|i: int| 0 <= i < r@.len() - 1
            ==> #[trigger] r@[i].category.strength() >= r@[i + 1].category.strength(),
{
    let ghost all = draws@;
    let ghost n = all.len();
    let mut draws = draws;
    // move the hands, last first, so that popping them again yields draw order
    let mut taken: Vec<Vec<Card>> = Vec::new();
    while draws.len() > 0
        invariant
            n == all.len(),
            draws@.len() + taken@.len() == n,
            forall|t: int| 0 <= t < draws@.len() ==> #[trigger] draws@[t] == all[t],
            forall|t: int| 0 <= t < taken@.len() ==> #[trigger] taken@[t] == all[n - 1 - t],
        decreases draws@.len(),
    {
        let d = draws.pop().unwrap();
        taken.push(d);
    }
    let mut results: Vec<HandResult> = Vec::new();
    let ghost mut j: int = 0;
    proof {
        assert(all.subrange(0, 0) =~= Seq::<Vec<Card>>::empty());
        reveal(Seq::filter);
    }
    while taken.len() > 0
        invariant
            n == all.len(),
            0 <= j <= n,
            taken@.len() == n - j,
            forall|t: int| 0 <= t < taken@.len() ==> #[trigger] taken@[t] == all[n - 1 - t],
            results@.len() == kept_draws(all.subrange(0, j)).len(),
            forall|k: int| 0 <= k < results@.len()
                ==> classifies(#[trigger] results@[k], kept_draws(all.subrange(0, j))[k]@),
        decreases taken@.len(),
    {
        let d = taken.pop().unwrap();
        let ghost dv = d;
        proof {
            assert(dv == all[j]);
            assert(all.subrange(0, j + 1).drop_last() =~= all.subrange(0, j));
            assert(all.subrange(0, j + 1).last() == dv);
        }
        match HandResult::new(d) {
            Some(h) => {
                results.push(h);
            },
            None => {},
        }
        proof {
            let prev = kept_draws(all.subrange(0, j));
            let next = kept_draws(all.subrange(0, j + 1));
            reveal(Seq::filter);
            if classifiable(dv@) {
                assert(next == prev.push(dv));
            } else {
                assert(next == prev);
            }
            j = j + 1;
        }
    }
    proof {
        assert(all.subrange(0, n as int) =~= all);
    }
    rank(results)
}

/// With every draw classifiable, every draw is kept.
proof fn lemma_kept_all(draws: Seq<Vec<Card>>)
    requires
        forall|i: int| 0 <= i < draws.len() ==> classifiable(#[trigger] draws[i]@),
    ensures
        kept_draws(draws) == draws,
    decreases draws.len(),
{
    reveal(Seq::filter);
    if draws.len() > 0 {
        lemma_kept_all(draws.drop_last());
        assert(draws.drop_last().push(draws.last()) =~= draws);
    }
}

/// A deal whose draws all hold `k` distinct cards, `k` at least 5, keeps every hand: the
/// ranked list has one hand per draw.
pub proof fn lemma_full_draws_all_kept(draws: Seq<Vec<Card>>, r: Seq<HandResult>, k: nat)
    requires
        5 <= k,
        forall|i: int| 0 <= i < draws.len()
            ==> (#[trigger] draws[i]@).len() == k && draws[i]@.no_duplicates(),
        is_deal_outcome(draws, r),
    ensures
        r.len() == draws.len(),
{
    assert forall|i: int| 0 <= i < draws.len() implies classifiable(#[trigger] draws[i]@) by {
        assert(draws[i]@.len() == k);
    }
    lemma_kept_all(draws);
}

/// What a deal in progress asks of the card sampler next.
#[derive(Clone, Copy, Debug, PartialEq, Eq, Structural)]
pub enum DealAction {
    /// Draw `count` distinct cards, in draw order, from `universe`.
    Draw { universe: CardSet, count: usize },
    /// All hands are drawn: call `finish`.
    Finish,
}

/// A deal in progress: its controls and the hands drawn so far, in draw order.
pub struct DealSession {
    pub config: DealConfig,
    pub draws: Vec<Vec<Card>>,
}

impl DealSession {
    pub open spec fn wf(&self) -> bool {
        self.draws@.len() <= self.config.num_hands
    }

    /// A deal with nothing drawn yet.
    pub fn start(config: DealConfig) -> (r: DealSession)
        ensures
            r.config == config,
            r.draws@.len() == 0,
            r.wf(),
    {
        DealSession { config, draws: Vec::new() }
    }

    /// Until `num_hands` hands are drawn, a draw of `cards_per_hand` cards from a fresh full
    /// universe (hands of one deal may share cards); then the end.
    pub fn next_action(&self) -> (a: DealAction)
        requires
            self.wf(),
        ensures
            self.draws@.len() < self.config.num_hands ==> (a matches DealAction::Draw { universe, count }
                && count == self.config.cards_per_hand
                && forall|c: Card| universe@.contains(c)),
            self.draws@.len() == self.config.num_hands ==> a == DealAction::Finish,
    {
        if self.draws.len() < self.config.num_hands {
            DealAction::Draw { universe: CardSet::full(), count: self.config.cards_per_hand }
        } else {
            DealAction::Finish
        }
    }

    /// Records the hand the sampler drew for the last `Draw`.
    pub fn record_draw(&mut self, cards: Vec<Card>)
        requires
            old(self).draws@.len() < old(self).config.num_hands,
        ensures
            final(self).config == old(self).config,
            final(self).draws@ == old(self).draws@.push(cards),
            final(self).wf(),
    {
        self.draws.push(cards);
    }

    /// The hands drawn, classified and ranked strongest first.
    pub fn finish(self) -> (r: Vec<HandResult>)
        ensures
            is_deal_outcome(self.draws@, r@),
            forall|i: int| 0 <= i < r@.len() ==> #[trigger] r@[i].wf(),
    {
        handle_deal(self.draws)
    }
}

} // verus!
