use vstd::prelude::*;
use vstd::pervasive::VecAdditionalExecFns;
use vstd::string::*;

use crate::card::card::Card;
use crate::card::cardvalue::CardValue;
use crate::card::cardvalue::ord_value;
use crate::card::cardvalue::value_ord;
use crate::card::suit::Suit;
use crate::hand_ranks::HandRanking;
use crate::hand_ranks::ranking_strength;

verus! {

/// Errors raised while validating a card collection before classification.
#[derive(Debug, PartialEq, Eq, Structural)]
pub enum HandError {
    NotEnoughCards,
    TooManyCards,
    DuplicateCards,
}

/// Descriptive text of each validation error.
pub open spec fn hand_error_text(e: HandError) -> Seq<char> {
    match e {
        HandError::NotEnoughCards => "Not enough cards"@,
        HandError::TooManyCards => "Too many cards"@,
        HandError::DuplicateCards => "Duplicate cards"@,
    }
}

impl HandError {
    /// The error's descriptive text.
    pub fn to_string(&self) -> (r: String)
        ensures
            r@ == hand_error_text(*self),
    {
        match self {
            HandError::NotEnoughCards => String::from_str("Not enough cards"),
            HandError::TooManyCards => String::from_str("Too many cards"),
            HandError::DuplicateCards => String::from_str("Duplicate cards"),
        }
    }
}

// ---------------------------------------------------------------------------
// Derived views of a hand and counting over them
// ---------------------------------------------------------------------------

/// The values of a hand's cards, in hand order.
pub open spec fn values_of(s: Seq<Card>) -> Seq<CardValue> {
    s.map_values(|c: Card| c.value)
}

/// The suits of a hand's cards, in hand order.
pub open spec fn suits_of(s: Seq<Card>) -> Seq<Suit> {
    s.map_values(|c: Card| c.suit)
}

/// How many values in the sequence have ordinal `k`.
pub open spec fn vcount(vs: Seq<CardValue>, k: int) -> int
    decreases vs.len(),
{
    if vs.len() == 0 {
        0
    } else {
        vcount(vs.drop_last(), k) + if value_ord(vs.last()) == k {
            1int
        } else {
            0int
        }
    }
}

/// The sum of the ordinals of all values in the sequence.
pub open spec fn vsum(vs: Seq<CardValue>) -> int
    decreases vs.len(),
{
    if vs.len() == 0 {
        0
    } else {
        vsum(vs.drop_last()) + value_ord(vs.last())
    }
}

/// How many entries of the sequence equal `x`.
pub open spec fn count_entries(cs: Seq<i32>, x: i32) -> int
    decreases cs.len(),
{
    if cs.len() == 0 {
        0
    } else {
        count_entries(cs.drop_last(), x) + if cs.last() == x {
            1int
        } else {
            0int
        }
    }
}

/// How often a card occurs in a hand.
pub open spec fn card_count(s: Seq<Card>, c: Card) -> int
    decreases s.len(),
{
    if s.len() == 0 {
        0
    } else {
        card_count(s.drop_last(), c) + if s.last() == c {
            1int
        } else {
            0int
        }
    }
}

/// Multiplicity of the value with ordinal `k` in a hand.
pub open spec fn value_count(s: Seq<Card>, k: int) -> int {
    vcount(values_of(s), k)
}

/// Sum of the value ordinals of a hand.
pub open spec fn value_sum(s: Seq<Card>) -> int {
    vsum(values_of(s))
}

/// How many value ordinals in `2..k` have multiplicity exactly two in the
/// hand.
pub open spec fn num_pair_values(s: Seq<Card>, k: int) -> int
    decreases k,
{
    if k <= 2 {
        0
    } else {
        num_pair_values(s, k - 1) + if value_count(s, k - 1) == 2 {
            1int
        } else {
            0int
        }
    }
}

// ---------------------------------------------------------------------------
// The classification predicates
// ---------------------------------------------------------------------------

/// Whether two cards at distinct positions are equal.
pub open spec fn has_duplicate(s: Seq<Card>) -> bool {
    exists|i: int, j: int| 0 <= i < j < s.len() && s[i] == s[j]
}

/// Whether each of the five ordinals `lo..lo + 5` occurs exactly once.
pub open spec fn window_ones(vs: Seq<CardValue>, lo: int) -> bool {
    forall|k: int| lo <= k < lo + 5 ==> #[trigger] vcount(vs, k) == 1
}

/// The wheel: Ace together with Two through Five, each exactly once.
pub open spec fn wheel_vals(vs: Seq<CardValue>) -> bool {
    vcount(vs, 14) == 1 && vcount(vs, 2) == 1 && vcount(vs, 3) == 1 && vcount(vs, 4) == 1
        && vcount(vs, 5) == 1
}

/// A straight over a value view: five consecutive ordinals each once, or the
/// wheel, the sole exception where Ace plays low.
pub open spec fn straight_vals(vs: Seq<CardValue>) -> bool {
    (exists|lo: int| 2 <= lo <= 10 && #[trigger] window_ones(vs, lo)) || wheel_vals(vs)
}

/// Whether all suits in the view are identical.
pub open spec fn all_same_suit(ss: Seq<Suit>) -> bool {
    forall|i: int, j: int| 0 <= i < ss.len() && 0 <= j < ss.len() ==> ss[i] == ss[j]
}

/// Some value has multiplicity exactly two. True also when a full house is
/// present.
pub open spec fn pair_spec(s: Seq<Card>) -> bool {
    exists|k: int| 2 <= k <= 14 && #[trigger] value_count(s, k) == 2
}

/// Exactly two distinct values have multiplicity two.
pub open spec fn two_pair_spec(s: Seq<Card>) -> bool {
    num_pair_values(s, 15) == 2
}

/// Some value has multiplicity exactly three. True also when a full house is
/// present.
pub open spec fn three_of_a_kind_spec(s: Seq<Card>) -> bool {
    exists|k: int| 2 <= k <= 14 && #[trigger] value_count(s, k) == 3
}

/// Some value has multiplicity exactly four.
pub open spec fn four_of_a_kind_spec(s: Seq<Card>) -> bool {
    exists|k: int| 2 <= k <= 14 && #[trigger] value_count(s, k) == 4
}

/// Five cards of sequential value (or the wheel).
pub open spec fn straight_spec(s: Seq<Card>) -> bool {
    straight_vals(values_of(s))
}

/// Five cards of one suit.
pub open spec fn flush_spec(s: Seq<Card>) -> bool {
    all_same_suit(suits_of(s))
}

/// A pair and a three of a kind together; derived, not independently
/// detected.
pub open spec fn full_house_spec(s: Seq<Card>) -> bool {
    pair_spec(s) && three_of_a_kind_spec(s)
}

/// A straight whose cards share one suit.
pub open spec fn straight_flush_spec(s: Seq<Card>) -> bool {
    straight_spec(s) && flush_spec(s)
}

/// A straight flush whose ordinals sum to 60: only the ten-to-ace straight
/// sums to 60, which distinguishes the ace-high straight from the wheel.
pub open spec fn royal_spec(s: Seq<Card>) -> bool {
    straight_spec(s) && value_sum(s) == 60 && flush_spec(s)
}

/// Counting value ordinals with multiplicity two over a growing prefix of
/// the ordinal range characterizes zero, one and two such ordinals exactly.
#[verifier::rlimit(100)]
proof fn lemma_num_pair_prefix(s: Seq<Card>, m: int)
    requires
        2 <= m <= 15,
    ensures
        num_pair_values(s, m) >= 0,
        (num_pair_values(s, m) == 0 <==> (forall|k: int|
            2 <= k < m ==> #[trigger] value_count(s, k) != 2)),
        (num_pair_values(s, m) == 1 <==> (exists|k1: int|
            2 <= k1 < m && #[trigger] value_count(s, k1) == 2 && (forall|k: int|
                2 <= k < m && #[trigger] value_count(s, k) == 2 ==> k == k1))),
        (num_pair_values(s, m) == 2 <==> (exists|k1: int, k2: int|
            2 <= k1 < k2 < m && #[trigger] value_count(s, k1) == 2 && #[trigger] value_count(
                s,
                k2,
            ) == 2 && (forall|k: int| 2 <= k < m && value_count(s, k) == 2 ==> k == k1 || k
                == k2))),
    decreases m,
{
    if m > 2 {
        lemma_num_pair_prefix(s, m - 1);
    }
}

/// What `two_pair_spec` says: exactly two distinct values have multiplicity
/// two — two such values exist and any value with multiplicity two is one of
/// them.
pub proof fn lemma_two_pair_characterization(s: Seq<Card>)
    ensures
        two_pair_spec(s) <==> (exists|k1: int, k2: int|
            2 <= k1 < k2 <= 14 && #[trigger] value_count(s, k1) == 2 && #[trigger] value_count(
                s,
                k2,
            ) == 2 && (forall|k: int| 2 <= k <= 14 && value_count(s, k) == 2 ==> k == k1 || k
                == k2)),
{
    lemma_num_pair_prefix(s, 15);
}

/// Whether a ranking's defining predicate holds of the hand. `HighCard` has
/// no predicate: it is the default when nothing else is satisfied.
pub open spec fn rank_satisfied(rk: HandRanking, s: Seq<Card>) -> bool {
    match rk {
        HandRanking::HighCard => false,
        HandRanking::Pair => pair_spec(s),
        HandRanking::TwoPair => two_pair_spec(s),
        HandRanking::ThreeOfAKind => three_of_a_kind_spec(s),
        HandRanking::Straight => straight_spec(s),
        HandRanking::Flush => flush_spec(s),
        HandRanking::FullHouse => full_house_spec(s),
        HandRanking::FourOfAKind => four_of_a_kind_spec(s),
        HandRanking::StraightFlush => straight_flush_spec(s),
        HandRanking::RoyalStraightFlush => royal_spec(s),
    }
}

/// The strongest satisfied ranking of a five-card hand, `HighCard` when no
/// predicate is satisfied. The branches are ordered strongest first, so this
/// is the maximum of the satisfied set under the strength order.
pub open spec fn ranking_spec(s: Seq<Card>) -> HandRanking {
    if royal_spec(s) {
        HandRanking::RoyalStraightFlush
    } else if straight_flush_spec(s) {
        HandRanking::StraightFlush
    } else if four_of_a_kind_spec(s) {
        HandRanking::FourOfAKind
    } else if full_house_spec(s) {
        HandRanking::FullHouse
    } else if flush_spec(s) {
        HandRanking::Flush
    } else if straight_spec(s) {
        HandRanking::Straight
    } else if three_of_a_kind_spec(s) {
        HandRanking::ThreeOfAKind
    } else if two_pair_spec(s) {
        HandRanking::TwoPair
    } else if pair_spec(s) {
        HandRanking::Pair
    } else {
        HandRanking::HighCard
    }
}

/// Whether a ranking's defining predicate holds of the derived views of a
/// hand: the value sequence, the suit sequence and the multiplicity vector.
pub open spec fn view_satisfied(
    rk: HandRanking,
    vs: Seq<CardValue>,
    ss: Seq<Suit>,
    cs: Seq<i32>,
) -> bool {
    match rk {
        HandRanking::HighCard => false,
        HandRanking::Pair => cs.contains(2i32),
        HandRanking::TwoPair => count_entries(cs, 2) == 2,
        HandRanking::ThreeOfAKind => cs.contains(3i32),
        HandRanking::Straight => straight_vals(vs),
        HandRanking::Flush => all_same_suit(ss),
        HandRanking::FullHouse => cs.contains(2i32) && cs.contains(3i32),
        HandRanking::FourOfAKind => cs.contains(4i32),
        HandRanking::StraightFlush => straight_vals(vs) && all_same_suit(ss),
        HandRanking::RoyalStraightFlush => straight_vals(vs) && vsum(vs) == 60 && all_same_suit(
            ss,
        ),
    }
}

/// What validation yields: too many cards over five, not enough under five,
/// duplicates among exactly five, otherwise acceptance.
pub open spec fn validate_spec(s: Seq<Card>) -> Result<(), HandError> {
    if s.len() > 5 {
        Err(HandError::TooManyCards)
    } else if s.len() < 5 {
        Err(HandError::NotEnoughCards)
    } else if has_duplicate(s) {
        Err(HandError::DuplicateCards)
    } else {
        Ok(())
    }
}

/// What evaluation yields: the validation error if any, otherwise the
/// strongest satisfied ranking. Evaluation is a pure function of the card
/// sequence, so repeated evaluation of the same hand is deterministic.
pub open spec fn evaluate_spec(s: Seq<Card>) -> Result<HandRanking, HandError> {
    if s.len() > 5 {
        Err(HandError::TooManyCards)
    } else if s.len() < 5 {
        Err(HandError::NotEnoughCards)
    } else if has_duplicate(s) {
        Err(HandError::DuplicateCards)
    } else {
        Ok(ranking_spec(s))
    }
}

// ---------------------------------------------------------------------------
// Counting helpers
// ---------------------------------------------------------------------------

/// Count how many values in the vector have ordinal `k`.
fn count_value(card_ranks: &Vec<CardValue>, k: u8) -> (r: usize)
    ensures
        r as int == vcount(card_ranks@, k as int),
{
    let mut i: usize = 0;
    let mut n: usize = 0;
    while i < card_ranks.len()
        invariant
            i <= card_ranks@.len(),
            n <= i,
            n as int == vcount(card_ranks@.subrange(0, i as int), k as int),
        decreases card_ranks@.len() - i,
    {
        proof {
            assert(card_ranks@.subrange(0, i as int + 1).drop_last() =~= card_ranks@.subrange(
                0,
                i as int,
            ));
        }
        if card_ranks[i].ordinal() == k {
            n += 1;
        }
        i += 1;
    }
    proof {
        assert(card_ranks@.subrange(0, card_ranks@.len() as int) =~= card_ranks@);
    }
    n
}

/// Sum the ordinals of the values in the vector.
fn sum_values(card_ranks: &Vec<CardValue>) -> (r: u32)
    requires
        card_ranks@.len() <= 5,
    ensures
        r as int == vsum(card_ranks@),
{
    let mut i: usize = 0;
    let mut n: u32 = 0;
    while i < card_ranks.len()
        invariant
            i <= card_ranks@.len(),
            card_ranks@.len() <= 5,
            n <= 14 * i,
            n as int == vsum(card_ranks@.subrange(0, i as int)),
        decreases card_ranks@.len() - i,
    {
        proof {
            assert(card_ranks@.subrange(0, i as int + 1).drop_last() =~= card_ranks@.subrange(
                0,
                i as int,
            ));
        }
        let o = card_ranks[i].ordinal();
        assert(o <= 14);
        n += o as u32;
        i += 1;
    }
    proof {
        assert(card_ranks@.subrange(0, card_ranks@.len() as int) =~= card_ranks@);
    }
    n
}

/// Whether the multiplicity vector holds an entry equal to `x`.
fn counts_contain(counts: &Vec<i32>, x: i32) -> (r: bool)
    ensures
        r == counts@.contains(x),
{
    let mut i: usize = 0;
    while i < counts.len()
        invariant
            i <= counts@.len(),
            forall|j: int| 0 <= j < i ==> counts@[j] != x,
        decreases counts@.len() - i,
    {
        if counts[i] == x {
            return true;
        }
        i += 1;
    }
    false
}

// ---------------------------------------------------------------------------
// The predicate evaluators
// ---------------------------------------------------------------------------

/// Whether some multiplicity entry is exactly two.
pub fn is_pair(count: &Vec<i32>) -> (r: bool)
    ensures
        r == count@.contains(2i32),
{
    counts_contain(count, 2)
}

/// Whether some multiplicity entry is exactly three.
pub fn is_three_of_a_kind(counts: &Vec<i32>) -> (r: bool)
    ensures
        r == counts@.contains(3i32),
{
    counts_contain(counts, 3)
}

/// Whether some multiplicity entry is exactly four.
pub fn is_four_of_a_kind(counts: &Vec<i32>) -> (r: bool)
    ensures
        r == counts@.contains(4i32),
{
    counts_contain(counts, 4)
}

/// Whether exactly two multiplicity entries are two.
pub fn is_two_pair(counts: &Vec<i32>) -> (r: bool)
    ensures
        r == (count_entries(counts@, 2) == 2),
{
    let mut i: usize = 0;
    let mut n: usize = 0;
    while i < counts.len()
        invariant
            i <= counts@.len(),
            n <= i,
            n as int == count_entries(counts@.subrange(0, i as int), 2),
        decreases counts@.len() - i,
    {
        proof {
            assert(counts@.subrange(0, i as int + 1).drop_last() =~= counts@.subrange(
                0,
                i as int,
            ));
        }
        if counts[i] == 2 {
            n += 1;
        }
        i += 1;
    }
    proof {
        assert(counts@.subrange(0, counts@.len() as int) =~= counts@);
    }
    n == 2
}

/// Whether the values form a straight: five consecutive ordinals each once,
/// or the wheel.
pub fn is_straight(card_ranks: &Vec<CardValue>) -> (r: bool)
    ensures
        r == straight_vals(card_ranks@),
{
    let mut lo: u8 = 2;
    while lo <= 10
        invariant
            2 <= lo <= 11,
            forall|l: int| 2 <= l < lo ==> !#[trigger] window_ones(card_ranks@, l),
        decreases 11 - lo as int,
    {
        let c0 = count_value(card_ranks, lo);
        let c1 = count_value(card_ranks, lo + 1);
        let c2 = count_value(card_ranks, lo + 2);
        let c3 = count_value(card_ranks, lo + 3);
        let c4 = count_value(card_ranks, lo + 4);
        if c0 == 1 && c1 == 1 && c2 == 1 && c3 == 1 && c4 == 1 {
            proof {
                assert forall|k: int| lo <= k < lo + 5 implies #[trigger] vcount(card_ranks@, k)
                    == 1 by {
                    assert(k == lo || k == lo + 1 || k == lo + 2 || k == lo + 3 || k == lo + 4);
                }
                assert(window_ones(card_ranks@, lo as int));
            }
            return true;
        }
        proof {
            if window_ones(card_ranks@, lo as int) {
                assert(vcount(card_ranks@, lo as int) == 1);
                assert(vcount(card_ranks@, lo as int + 1) == 1);
                assert(vcount(card_ranks@, lo as int + 2) == 1);
                assert(vcount(card_ranks@, lo as int + 3) == 1);
                assert(vcount(card_ranks@, lo as int + 4) == 1);
            }
        }
        lo += 1;
    }
    let w0 = count_value(card_ranks, 14);
    let w1 = count_value(card_ranks, 2);
    let w2 = count_value(card_ranks, 3);
    let w3 = count_value(card_ranks, 4);
    let w4 = count_value(card_ranks, 5);
    if w0 == 1 && w1 == 1 && w2 == 1 && w3 == 1 && w4 == 1 {
        return true;
    }
    proof {
        assert(!wheel_vals(card_ranks@));
    }
    false
}

/// Whether all suits are identical.
pub fn is_flush(suits: &Vec<Suit>) -> (r: bool)
    ensures
        r == all_same_suit(suits@),
{
    if suits.len() == 0 {
        return true;
    }
    let first = suits[0];
    let mut i: usize = 1;
    while i < suits.len()
        invariant
            1 <= i <= suits@.len(),
            suits@.len() > 0,
            first == suits@[0],
            forall|j: int| 0 <= j < i ==> #[trigger] suits@[j] == suits@[0],
        decreases suits@.len() - i,
    {
        if suits[i] != first {
            return false;
        }
        i += 1;
    }
    true
}

/// Whether the hand is a royal straight flush: a straight whose ordinals sum
/// to 60 (so it is the ten-to-ace straight, not the wheel), all in one suit.
pub fn is_royal_straight_flush(card_ranks: &Vec<CardValue>, suits: &Vec<Suit>) -> (r: bool)
    requires
        card_ranks@.len() <= 5,
    ensures
        r == (straight_vals(card_ranks@) && vsum(card_ranks@) == 60 && all_same_suit(suits@)),
{
    let is_royal_straight = is_straight(card_ranks) && sum_values(card_ranks) == 60;
    is_royal_straight && is_flush(suits)
}

// ---------------------------------------------------------------------------
// Facts connecting the derived views back to the hand
// ---------------------------------------------------------------------------

/// Scanning the multiplicity vector of a hand slot by slot counts exactly the
/// value ordinals with multiplicity two.
proof fn lemma_count_entries_hist(cs: Seq<i32>, s: Seq<Card>, n: int)
    requires
        cs.len() == 13,
        forall|k: int| 2 <= k < 15 ==> #[trigger] cs[k - 2] as int == value_count(s, k),
        0 <= n <= 13,
    ensures
        count_entries(cs.subrange(0, n), 2) == num_pair_values(s, n + 2),
    decreases n,
{
    if n == 0 {
        assert(cs.subrange(0, 0).len() == 0);
    } else {
        lemma_count_entries_hist(cs, s, n - 1);
        assert(cs.subrange(0, n).drop_last() =~= cs.subrange(0, n - 1));
        assert(cs.subrange(0, n).last() == cs[n - 1]);
        assert(cs[n + 1 - 2] as int == value_count(s, n + 1));
    }
}

/// In the classification chain, the chosen ranking is satisfied (unless it is
/// the `HighCard` default) and outranks every satisfied ranking.
proof fn lemma_ranking_spec_max(s: Seq<Card>)
    ensures
        forall|rk: HandRanking| #[trigger]
            rank_satisfied(rk, s) ==> ranking_strength(rk) <= ranking_strength(ranking_spec(s)),
        ranking_spec(s) == HandRanking::HighCard || rank_satisfied(ranking_spec(s), s),
{
}

// ---------------------------------------------------------------------------
// Permutation invariance
// ---------------------------------------------------------------------------

/// Dropping the last card drops the last entry of both derived views.
proof fn lemma_views_drop_last(s: Seq<Card>)
    requires
        s.len() > 0,
    ensures
        values_of(s.drop_last()) == values_of(s).drop_last(),
        suits_of(s.drop_last()) == suits_of(s).drop_last(),
        values_of(s).last() == s.last().value,
        suits_of(s).last() == s.last().suit,
{
    assert(values_of(s.drop_last()) =~= values_of(s).drop_last());
    assert(suits_of(s.drop_last()) =~= suits_of(s).drop_last());
}

/// A card's count is nonnegative, and positive exactly when the card occurs.
proof fn lemma_card_count_pos(s: Seq<Card>, c: Card)
    ensures
        card_count(s, c) >= 0,
        card_count(s, c) > 0 <==> s.contains(c),
    decreases s.len(),
{
    if s.len() > 0 {
        let dl = s.drop_last();
        lemma_card_count_pos(dl, c);
        if s.last() == c {
            assert(s[s.len() - 1] == c);
            assert(s.contains(c));
        }
        if dl.contains(c) {
            let i = choose|i: int| 0 <= i < dl.len() && dl[i] == c;
            assert(s[i] == c);
            assert(s.contains(c));
        }
        if s.contains(c) && s.last() != c {
            let i = choose|i: int| 0 <= i < s.len() && s[i] == c;
            assert(dl[i] == c);
            assert(dl.contains(c));
        }
    }
}

/// A card's count in a hand is its count in the hand's multiset, so counts
/// are oblivious to the order of the cards.
proof fn lemma_card_count_multiset(s: Seq<Card>, c: Card)
    ensures
        card_count(s, c) == s.to_multiset().count(c),
    decreases s.len(),
{
    broadcast use vstd::seq_lib::group_to_multiset_ensures;

    if s.len() == 0 {
        assert(!s.contains(c));
        assert(s.to_multiset().count(c) == 0);
    } else {
        let dl = s.drop_last();
        lemma_card_count_multiset(dl, c);
        assert(s =~= dl.push(s.last()));
        assert(dl.push(s.last()).to_multiset() =~= dl.to_multiset().insert(s.last()));
    }
}

/// The multiplicity of a value is the sum of the counts of the four cards
/// carrying that value, one per suit.
proof fn lemma_value_count_decomp(s: Seq<Card>, k: int)
    requires
        2 <= k <= 14,
    ensures
        value_count(s, k) == card_count(s, Card { value: ord_value(k), suit: Suit::Heart })
            + card_count(s, Card { value: ord_value(k), suit: Suit::Spade }) + card_count(
            s,
            Card { value: ord_value(k), suit: Suit::Diamond },
        ) + card_count(s, Card { value: ord_value(k), suit: Suit::Club }),
    decreases s.len(),
{
    if s.len() == 0 {
        assert(values_of(s).len() == 0);
    } else {
        lemma_value_count_decomp(s.drop_last(), k);
        lemma_views_drop_last(s);
        assert(value_ord(s.last().value) == k <==> s.last().value == ord_value(k));
    }
}

/// The ordinal sum of a hand is the count-weighted sum over the thirteen
/// ordinals, so it too is oblivious to the order of the cards.
proof fn lemma_value_sum_decomp(s: Seq<Card>)
    ensures
        value_sum(s) == 2 * value_count(s, 2) + 3 * value_count(s, 3) + 4 * value_count(s, 4) + 5
            * value_count(s, 5) + 6 * value_count(s, 6) + 7 * value_count(s, 7) + 8 * value_count(
            s,
            8,
        ) + 9 * value_count(s, 9) + 10 * value_count(s, 10) + 11 * value_count(s, 11) + 12
            * value_count(s, 12) + 13 * value_count(s, 13) + 14 * value_count(s, 14),
    decreases s.len(),
{
    if s.len() == 0 {
        assert(values_of(s).len() == 0);
    } else {
        lemma_value_sum_decomp(s.drop_last());
        lemma_views_drop_last(s);
    }
}

/// A hand holds a duplicate exactly when some card's count is at least two.
proof fn lemma_duplicate_count(s: Seq<Card>)
    ensures
        has_duplicate(s) <==> (exists|c: Card| card_count(s, c) >= 2),
    decreases s.len(),
{
    if s.len() == 0 {
        assert(forall|c: Card| card_count(s, c) == 0);
    } else {
        let dl = s.drop_last();
        let x = s.last();
        lemma_duplicate_count(dl);
        assert(forall|c: Card|
            #[trigger] card_count(s, c) == card_count(dl, c) + if x == c {
                1int
            } else {
                0int
            });
        if has_duplicate(s) {
            let (i, j) = choose|i: int, j: int| 0 <= i < j < s.len() && s[i] == s[j];
            if j == s.len() - 1 {
                assert(dl[i] == s[i]);
                assert(dl.contains(x));
                lemma_card_count_pos(dl, x);
                assert(card_count(s, x) >= 2);
            } else {
                assert(dl[i] == s[i] && dl[j] == s[j]);
                assert(has_duplicate(dl));
                let c = choose|c: Card| card_count(dl, c) >= 2;
                lemma_card_count_pos(dl, c);
                assert(card_count(s, c) >= 2);
            }
        }
        if exists|c: Card| card_count(s, c) >= 2 {
            let c = choose|c: Card| card_count(s, c) >= 2;
            lemma_card_count_pos(dl, c);
            if x == c {
                assert(card_count(dl, c) >= 1);
                assert(dl.contains(c));
                let i = choose|i: int| 0 <= i < dl.len() && dl[i] == c;
                assert(s[i] == c && s[s.len() - 1] == c);
                assert(has_duplicate(s));
            } else {
                assert(card_count(dl, c) >= 2);
                assert(has_duplicate(dl));
                let (i, j) = choose|i: int, j: int| 0 <= i < j < dl.len() && dl[i] == dl[j];
                assert(s[i] == dl[i] && s[j] == dl[j]);
                assert(has_duplicate(s));
            }
        }
    }
}

/// A flush carries over to any hand with the same card counts: every card of
/// the second hand occurs in the first, so all its suits agree too.
proof fn lemma_flush_transfer(s1: Seq<Card>, s2: Seq<Card>)
    requires
        forall|c: Card| #[trigger] card_count(s1, c) == card_count(s2, c),
        flush_spec(s1),
    ensures
        flush_spec(s2),
{
    assert forall|i: int, j: int|
        0 <= i < suits_of(s2).len() && 0 <= j < suits_of(s2).len() implies suits_of(s2)[i]
        == suits_of(s2)[j] by {
        let ci = s2[i];
        let cj = s2[j];
        assert(s2.contains(ci) && s2.contains(cj));
        lemma_card_count_pos(s2, ci);
        lemma_card_count_pos(s2, cj);
        lemma_card_count_pos(s1, ci);
        lemma_card_count_pos(s1, cj);
        let a = choose|a: int| 0 <= a < s1.len() && s1[a] == ci;
        let b = choose|b: int| 0 <= b < s1.len() && s1[b] == cj;
        assert(suits_of(s1)[a] == suits_of(s1)[b]);
    }
}

/// Equal value multiplicities give equal pair-value counts.
proof fn lemma_num_pair_transfer(s1: Seq<Card>, s2: Seq<Card>, k: int)
    requires
        0 <= k <= 15,
        forall|j: int| 2 <= j <= 14 ==> #[trigger] value_count(s1, j) == value_count(s2, j),
    ensures
        num_pair_values(s1, k) == num_pair_values(s2, k),
    decreases k,
{
    if k > 2 {
        lemma_num_pair_transfer(s1, s2, k - 1);
        assert(value_count(s1, k - 1) == value_count(s2, k - 1));
    }
}

/// Classification of a hand is identical regardless of the order the cards
/// are supplied in: two hands holding the same cards equally often validate
/// and classify exactly alike.
pub proof fn lemma_evaluate_permutation_invariant(s1: Seq<Card>, s2: Seq<Card>)
    requires
        s1.to_multiset() == s2.to_multiset(),
    ensures
        evaluate_spec(s1) == evaluate_spec(s2),
{
    broadcast use vstd::seq_lib::group_to_multiset_ensures;

    assert(s1.len() == s1.to_multiset().len());
    assert(s2.len() == s2.to_multiset().len());
    assert(s1.len() == s2.len());
    assert forall|c: Card| #[trigger] card_count(s1, c) == card_count(s2, c) by {
        lemma_card_count_multiset(s1, c);
        lemma_card_count_multiset(s2, c);
    }
    assert forall|j: int| 2 <= j <= 14 implies #[trigger] value_count(s1, j) == value_count(
        s2,
        j,
    ) by {
        lemma_value_count_decomp(s1, j);
        lemma_value_count_decomp(s2, j);
    }
    assert(pair_spec(s1) == pair_spec(s2)) by {
        if pair_spec(s1) {
            let k = choose|k: int| 2 <= k <= 14 && value_count(s1, k) == 2;
            assert(value_count(s2, k) == 2);
        }
        if pair_spec(s2) {
            let k = choose|k: int| 2 <= k <= 14 && value_count(s2, k) == 2;
            assert(value_count(s1, k) == 2);
        }
    }
    assert(three_of_a_kind_spec(s1) == three_of_a_kind_spec(s2)) by {
        if three_of_a_kind_spec(s1) {
            let k = choose|k: int| 2 <= k <= 14 && value_count(s1, k) == 3;
            assert(value_count(s2, k) == 3);
        }
        if three_of_a_kind_spec(s2) {
            let k = choose|k: int| 2 <= k <= 14 && value_count(s2, k) == 3;
            assert(value_count(s1, k) == 3);
        }
    }
    assert(four_of_a_kind_spec(s1) == four_of_a_kind_spec(s2)) by {
        if four_of_a_kind_spec(s1) {
            let k = choose|k: int| 2 <= k <= 14 && value_count(s1, k) == 4;
            assert(value_count(s2, k) == 4);
        }
        if four_of_a_kind_spec(s2) {
            let k = choose|k: int| 2 <= k <= 14 && value_count(s2, k) == 4;
            assert(value_count(s1, k) == 4);
        }
    }
    lemma_num_pair_transfer(s1, s2, 15);
    assert(two_pair_spec(s1) == two_pair_spec(s2));
    assert(straight_spec(s1) == straight_spec(s2)) by {
        assert(value_count(s1, 2) == value_count(s2, 2));
        assert(value_count(s1, 3) == value_count(s2, 3));
        assert(value_count(s1, 4) == value_count(s2, 4));
        assert(value_count(s1, 5) == value_count(s2, 5));
        assert(value_count(s1, 14) == value_count(s2, 14));
        assert(wheel_vals(values_of(s1)) == wheel_vals(values_of(s2)));
        if exists|lo: int| 2 <= lo <= 10 && #[trigger] window_ones(values_of(s1), lo) {
            let lo = choose|lo: int| 2 <= lo <= 10 && #[trigger] window_ones(values_of(s1), lo);
            assert forall|k: int| lo <= k < lo + 5 implies #[trigger] vcount(values_of(s2), k)
                == 1 by {
                assert(value_count(s1, k) == value_count(s2, k));
            }
            assert(window_ones(values_of(s2), lo));
        }
        if exists|lo: int| 2 <= lo <= 10 && #[trigger] window_ones(values_of(s2), lo) {
            let lo = choose|lo: int| 2 <= lo <= 10 && #[trigger] window_ones(values_of(s2), lo);
            assert forall|k: int| lo <= k < lo + 5 implies #[trigger] vcount(values_of(s1), k)
                == 1 by {
                assert(value_count(s1, k) == value_count(s2, k));
            }
            assert(window_ones(values_of(s1), lo));
        }
    }
    lemma_value_sum_decomp(s1);
    lemma_value_sum_decomp(s2);
    assert(value_sum(s1) == value_sum(s2));
    assert(flush_spec(s1) == flush_spec(s2)) by {
        if flush_spec(s1) {
            lemma_flush_transfer(s1, s2);
        }
        if flush_spec(s2) {
            lemma_flush_transfer(s2, s1);
        }
    }
    lemma_duplicate_count(s1);
    lemma_duplicate_count(s2);
    assert(has_duplicate(s1) == has_duplicate(s2)) by {
        if exists|c: Card| card_count(s1, c) >= 2 {
            let c = choose|c: Card| card_count(s1, c) >= 2;
            assert(card_count(s2, c) >= 2);
        }
        if exists|c: Card| card_count(s2, c) >= 2 {
            let c = choose|c: Card| card_count(s2, c) >= 2;
            assert(card_count(s1, c) >= 2);
        }
    }
    assert(ranking_spec(s1) == ranking_spec(s2));
}

// ---------------------------------------------------------------------------
// The classifier
// ---------------------------------------------------------------------------

/// Stateless classifier over a caller-owned card collection: validates the
/// collection and computes the strongest ranking the 5-card hand satisfies.
#[derive(Debug, PartialEq, Eq)]
pub struct Eval {
    hand: Vec<Card>,
}

impl View for Eval {
    type V = Seq<Card>;

    closed spec fn view(&self) -> Seq<Card> {
        self.hand@
    }
}

impl Eval {
    /// Wrap a card collection for evaluation.
    pub fn from(cards: Vec<Card>) -> (r: Eval)
        ensures
            r@ == cards@,
    {
        Eval { hand: cards }
    }

    /// Check that the hand holds exactly five pairwise-distinct cards.
    pub fn validate_hand(&self) -> (r: Result<(), HandError>)
        ensures
            r == validate_spec(self@),
    {
        if self.hand.len() > 5 {
            return Err(HandError::TooManyCards);
        }
        if self.hand.len() < 5 {
            return Err(HandError::NotEnoughCards);
        }
        let mut i: usize = 0;
        while i < self.hand.len()
            invariant
                i <= self.hand@.len(),
                self.hand@.len() == 5,
                forall|a: int, b: int|
                    0 <= a < b < self.hand@.len() && a < i ==> self.hand@[a] != self.hand@[b],
            decreases self.hand@.len() - i,
        {
            let mut j: usize = i + 1;
            while j < self.hand.len()
                invariant
                    i < j <= self.hand@.len(),
                    i < self.hand@.len(),
                    self.hand@.len() == 5,
                    forall|b: int| i < b < j ==> self.hand@[i as int] != self.hand@[b],
                decreases self.hand@.len() - j,
            {
                if self.hand[i] == self.hand[j] {
                    assert(has_duplicate(self@));
                    return Err(HandError::DuplicateCards);
                }
                j += 1;
            }
            i += 1;
        }
        assert(!has_duplicate(self@));
        Ok(())
    }

    /// Collect, weakest first, every ranking whose predicate the derived
    /// views satisfy. Predicates are evaluated independently, never
    /// short-circuited into each other: a full house also registers its pair
    /// and its three of a kind. `HighCard` is never collected; it is the
    /// default of an empty result.
    #[verifier::rlimit(50)]
    pub fn max_rank(
        &self,
        card_values: &Vec<CardValue>,
        suits: &Vec<Suit>,
        counts: &Vec<i32>,
    ) -> (r: Vec<HandRanking>)
        requires
            card_values@.len() <= 5,
        ensures
            forall|rk: HandRanking|
                r@.contains(rk) <==> view_satisfied(rk, card_values@, suits@, counts@),
            forall|a: int, b: int|
                0 <= a < b < r@.len() ==> ranking_strength(r@[a]) < ranking_strength(r@[b]),
    {
        let ghost vs = card_values@;
        let ghost ss = suits@;
        let ghost cs = counts@;
        let mut rankings: Vec<HandRanking> = Vec::new();
        if is_pair(counts) {
            rankings.push(HandRanking::Pair);
        }
        proof {
            broadcast use vstd::seq_lib::lemma_seq_contains_after_push;

            assert(forall|rk: HandRanking|
                rankings@.contains(rk) <==> (view_satisfied(rk, vs, ss, cs) && ranking_strength(
                    rk,
                ) <= 1));
            assert(forall|a: int|
                0 <= a < rankings@.len() ==> ranking_strength(rankings@[a]) <= 1);
            assert(forall|a: int, b: int|
                0 <= a < b < rankings@.len() ==> ranking_strength(rankings@[a])
                    < ranking_strength(rankings@[b]));
        }
        if is_two_pair(counts) {
            rankings.push(HandRanking::TwoPair);
        }
        proof {
            broadcast use vstd::seq_lib::lemma_seq_contains_after_push;

            assert(forall|rk: HandRanking|
                rankings@.contains(rk) <==> (view_satisfied(rk, vs, ss, cs) && ranking_strength(
                    rk,
                ) <= 2));
            assert(forall|a: int|
                0 <= a < rankings@.len() ==> ranking_strength(rankings@[a]) <= 2);
            assert(forall|a: int, b: int|
                0 <= a < b < rankings@.len() ==> ranking_strength(rankings@[a])
                    < ranking_strength(rankings@[b]));
        }
        if is_three_of_a_kind(counts) {
            rankings.push(HandRanking::ThreeOfAKind);
        }
        proof {
            broadcast use vstd::seq_lib::lemma_seq_contains_after_push;

            assert(forall|rk: HandRanking|
                rankings@.contains(rk) <==> (view_satisfied(rk, vs, ss, cs) && ranking_strength(
                    rk,
                ) <= 3));
            assert(forall|a: int|
                0 <= a < rankings@.len() ==> ranking_strength(rankings@[a]) <= 3);
            assert(forall|a: int, b: int|
                0 <= a < b < rankings@.len() ==> ranking_strength(rankings@[a])
                    < ranking_strength(rankings@[b]));
        }
        if is_straight(card_values) {
            rankings.push(HandRanking::Straight);
        }
        proof {
            broadcast use vstd::seq_lib::lemma_seq_contains_after_push;

            assert(forall|rk: HandRanking|
                rankings@.contains(rk) <==> (view_satisfied(rk, vs, ss, cs) && ranking_strength(
                    rk,
                ) <= 4));
            assert(forall|a: int|
                0 <= a < rankings@.len() ==> ranking_strength(rankings@[a]) <= 4);
            assert(forall|a: int, b: int|
                0 <= a < b < rankings@.len() ==> ranking_strength(rankings@[a])
                    < ranking_strength(rankings@[b]));
        }
        if is_flush(suits) {
            rankings.push(HandRanking::Flush);
        }
        proof {
            broadcast use vstd::seq_lib::lemma_seq_contains_after_push;

            assert(forall|rk: HandRanking|
                rankings@.contains(rk) <==> (view_satisfied(rk, vs, ss, cs) && ranking_strength(
                    rk,
                ) <= 5));
            assert(forall|a: int|
                0 <= a < rankings@.len() ==> ranking_strength(rankings@[a]) <= 5);
            assert(forall|a: int, b: int|
                0 <= a < b < rankings@.len() ==> ranking_strength(rankings@[a])
                    < ranking_strength(rankings@[b]));
        }
        if is_pair(counts) && is_three_of_a_kind(counts) {
            rankings.push(HandRanking::FullHouse);
        }
        proof {
            broadcast use vstd::seq_lib::lemma_seq_contains_after_push;

            assert(forall|rk: HandRanking|
                rankings@.contains(rk) <==> (view_satisfied(rk, vs, ss, cs) && ranking_strength(
                    rk,
                ) <= 6));
            assert(forall|a: int|
                0 <= a < rankings@.len() ==> ranking_strength(rankings@[a]) <= 6);
            assert(forall|a: int, b: int|
                0 <= a < b < rankings@.len() ==> ranking_strength(rankings@[a])
                    < ranking_strength(rankings@[b]));
        }
        if is_four_of_a_kind(counts) {
            rankings.push(HandRanking::FourOfAKind);
        }
        proof {
            broadcast use vstd::seq_lib::lemma_seq_contains_after_push;

            assert(forall|rk: HandRanking|
                rankings@.contains(rk) <==> (view_satisfied(rk, vs, ss, cs) && ranking_strength(
                    rk,
                ) <= 7));
            assert(forall|a: int|
                0 <= a < rankings@.len() ==> ranking_strength(rankings@[a]) <= 7);
            assert(forall|a: int, b: int|
                0 <= a < b < rankings@.len() ==> ranking_strength(rankings@[a])
                    < ranking_strength(rankings@[b]));
        }
        if is_straight(card_values) && is_flush(suits) {
            rankings.push(HandRanking::StraightFlush);
        }
        proof {
            broadcast use vstd::seq_lib::lemma_seq_contains_after_push;

            assert(forall|rk: HandRanking|
                rankings@.contains(rk) <==> (view_satisfied(rk, vs, ss, cs) && ranking_strength(
                    rk,
                ) <= 8));
            assert(forall|a: int|
                0 <= a < rankings@.len() ==> ranking_strength(rankings@[a]) <= 8);
            assert(forall|a: int, b: int|
                0 <= a < b < rankings@.len() ==> ranking_strength(rankings@[a])
                    < ranking_strength(rankings@[b]));
        }
        if is_royal_straight_flush(card_values, suits) {
            rankings.push(HandRanking::RoyalStraightFlush);
        }
        proof {
            broadcast use vstd::seq_lib::lemma_seq_contains_after_push;

            assert(forall|rk: HandRanking|
                rankings@.contains(rk) <==> (view_satisfied(rk, vs, ss, cs) && ranking_strength(
                    rk,
                ) <= 9));
            assert(forall|rk: HandRanking| ranking_strength(rk) <= 9);
            assert(forall|a: int, b: int|
                0 <= a < b < rankings@.len() ==> ranking_strength(rankings@[a])
                    < ranking_strength(rankings@[b]));
        }
        rankings
    }

    /// Classify the hand: validate it, derive the value, suit and
    /// multiplicity views, evaluate every predicate independently, and return
    /// the strongest satisfied ranking, `HighCard` when none is satisfied.
    pub fn evaluate(&self) -> (r: Result<HandRanking, HandError>)
        ensures
            r == evaluate_spec(self@),
    {
        if let Err(hand_error) = self.validate_hand() {
            return Err(hand_error);
        }
        let ghost s = self@;
        let mut card_values: Vec<CardValue> = Vec::new();
        let mut suits: Vec<Suit> = Vec::new();
        let mut i: usize = 0;
        while i < self.hand.len()
            invariant
                i <= self.hand@.len(),
                card_values@.len() == i,
                suits@.len() == i,
                forall|j: int| 0 <= j < i ==> #[trigger] card_values@[j] == self.hand@[j].value,
                forall|j: int| 0 <= j < i ==> #[trigger] suits@[j] == self.hand@[j].suit,
            decreases self.hand@.len() - i,
        {
            let c = self.hand[i];
            card_values.push(c.value);
            suits.push(c.suit);
            i += 1;
        }
        proof {
            assert(card_values@ =~= values_of(s));
            assert(suits@ =~= suits_of(s));
        }
        let mut counts: Vec<i32> = Vec::new();
        let mut z: usize = 0;
        while z < 13
            invariant
                z <= 13,
                counts@.len() == z,
                forall|j: int| 0 <= j < z ==> #[trigger] counts@[j] == 0i32,
            decreases 13 - z,
        {
            counts.push(0);
            z += 1;
        }
        proof {
            assert(card_values@.subrange(0, 0).len() == 0);
        }
        let mut t: usize = 0;
        while t < card_values.len()
            invariant
                t <= card_values@.len(),
                card_values@.len() <= 5,
                counts@.len() == 13,
                forall|k: int|
                    2 <= k < 15 ==> #[trigger] counts@[k - 2] as int == vcount(
                        card_values@.subrange(0, t as int),
                        k,
                    ),
                forall|j: int| 0 <= j < 13 ==> 0 <= #[trigger] counts@[j] as int <= t as int,
            decreases card_values@.len() - t,
        {
            proof {
                assert(card_values@.subrange(0, t as int + 1).drop_last() =~= card_values@.subrange(
                    0,
                    t as int,
                ));
            }
            let o = card_values[t].ordinal();
            let idx = (o - 2) as usize;
            let cur = counts[idx];
            counts.set(idx, cur + 1);
            t += 1;
        }
        proof {
            assert(card_values@.subrange(0, card_values@.len() as int) =~= card_values@);
        }
        let rankings = self.max_rank(&card_values, &suits, &counts);
        let mut best = HandRanking::HighCard;
        let mut m: usize = 0;
        while m < rankings.len()
            invariant
                m <= rankings@.len(),
                forall|j: int|
                    0 <= j < m ==> ranking_strength(#[trigger] rankings@[j]) <= ranking_strength(
                        best,
                    ),
                best == HandRanking::HighCard || rankings@.contains(best),
            decreases rankings@.len() - m,
        {
            let cand = rankings[m];
            if best.strength() <= cand.strength() {
                best = cand;
                proof {
                    assert(rankings@.contains(best));
                }
            }
            m += 1;
        }
        proof {
            let vs = card_values@;
            let ss = suits@;
            let cs = counts@;
            assert(vs == values_of(s));
            assert(ss == suits_of(s));
            assert(forall|k: int| 2 <= k < 15 ==> #[trigger] cs[k - 2] as int == value_count(s, k));
            // The multiplicity vector reflects the hand: transfer each
            // predicate from the views to the hand.
            assert(cs.contains(2i32) <==> pair_spec(s)) by {
                if cs.contains(2i32) {
                    let idx = choose|idx: int| 0 <= idx < cs.len() && cs[idx] == 2i32;
                    assert(cs[(idx + 2) - 2] as int == value_count(s, idx + 2));
                    assert(value_count(s, idx + 2) == 2);
                }
                if pair_spec(s) {
                    let k = choose|k: int| 2 <= k <= 14 && value_count(s, k) == 2;
                    assert(cs[k - 2] == 2i32);
                    assert(cs.contains(2i32));
                }
            }
            assert(cs.contains(3i32) <==> three_of_a_kind_spec(s)) by {
                if cs.contains(3i32) {
                    let idx = choose|idx: int| 0 <= idx < cs.len() && cs[idx] == 3i32;
                    assert(cs[(idx + 2) - 2] as int == value_count(s, idx + 2));
                    assert(value_count(s, idx + 2) == 3);
                }
                if three_of_a_kind_spec(s) {
                    let k = choose|k: int| 2 <= k <= 14 && value_count(s, k) == 3;
                    assert(cs[k - 2] == 3i32);
                    assert(cs.contains(3i32));
                }
            }
            assert(cs.contains(4i32) <==> four_of_a_kind_spec(s)) by {
                if cs.contains(4i32) {
                    let idx = choose|idx: int| 0 <= idx < cs.len() && cs[idx] == 4i32;
                    assert(cs[(idx + 2) - 2] as int == value_count(s, idx + 2));
                    assert(value_count(s, idx + 2) == 4);
                }
                if four_of_a_kind_spec(s) {
                    let k = choose|k: int| 2 <= k <= 14 && value_count(s, k) == 4;
                    assert(cs[k - 2] == 4i32);
                    assert(cs.contains(4i32));
                }
            }
            lemma_count_entries_hist(cs, s, 13);
            assert(cs.subrange(0, 13) =~= cs);
            assert((count_entries(cs, 2) == 2) <==> two_pair_spec(s));
            assert(forall|rk: HandRanking|
                view_satisfied(rk, vs, ss, cs) == rank_satisfied(rk, s));
            assert(forall|rk: HandRanking| rankings@.contains(rk) <==> rank_satisfied(rk, s));
            // The scan kept the strongest collected ranking; conclude that it
            // is exactly the specified classification.
            lemma_ranking_spec_max(s);
            if rankings@.len() == 0 {
                assert(forall|rk: HandRanking| !rankings@.contains(rk));
                assert(!pair_spec(s) && !two_pair_spec(s) && !three_of_a_kind_spec(s)
                    && !straight_spec(s) && !flush_spec(s) && !four_of_a_kind_spec(s)) by {
                    assert(!rankings@.contains(HandRanking::Pair));
                    assert(!rankings@.contains(HandRanking::TwoPair));
                    assert(!rankings@.contains(HandRanking::ThreeOfAKind));
                    assert(!rankings@.contains(HandRanking::Straight));
                    assert(!rankings@.contains(HandRanking::Flush));
                    assert(!rankings@.contains(HandRanking::FourOfAKind));
                }
                assert(ranking_spec(s) == HandRanking::HighCard);
                assert(best == HandRanking::HighCard);
            } else {
                assert(rankings@.contains(rankings@[0]));
                assert(rank_satisfied(rankings@[0], s));
                assert(rank_satisfied(ranking_spec(s), s)) by {
                    if ranking_spec(s) == HandRanking::HighCard {
                        assert(!rank_satisfied(rankings@[0], s));
                    }
                }
                assert(rankings@.contains(ranking_spec(s)));
                let mi = choose|mi: int|
                    0 <= mi < rankings@.len() && rankings@[mi] == ranking_spec(s);
                assert(ranking_strength(ranking_spec(s)) <= ranking_strength(best));
                assert(rankings@.contains(best));
                assert(rank_satisfied(best, s));
                assert(ranking_strength(best) <= ranking_strength(ranking_spec(s)));
                assert(best == ranking_spec(s));
            }
        }
        Ok(best)
    }
}

} // verus!
