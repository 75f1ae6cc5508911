use vstd::prelude::*;

verus! {

/// The ten standard hand classifications, from weakest to strongest.
///
/// The strength order is load-bearing: classification picks the strongest
/// satisfied ranking, so the order must match official poker hand strength.
/// To keep that order explicit rather than implicit in declaration position,
/// every comparison in the library goes through the integer table
/// [`ranking_strength`].
#[derive(Debug, PartialEq, Eq, Structural, Clone, Copy, PartialOrd, Ord)]
pub enum HandRanking {
    HighCard,
    Pair,
    TwoPair,
    ThreeOfAKind,
    Straight,
    Flush,
    FullHouse,
    FourOfAKind,
    StraightFlush,
    RoyalStraightFlush,
}

/// Explicit strength table: `HighCard` is weakest at 0, `RoyalStraightFlush`
/// strongest at 9.
pub open spec fn ranking_strength(rk: HandRanking) -> int {
    match rk {
        HandRanking::HighCard => 0,
        HandRanking::Pair => 1,
        HandRanking::TwoPair => 2,
        HandRanking::ThreeOfAKind => 3,
        HandRanking::Straight => 4,
        HandRanking::Flush => 5,
        HandRanking::FullHouse => 6,
        HandRanking::FourOfAKind => 7,
        HandRanking::StraightFlush => 8,
        HandRanking::RoyalStraightFlush => 9,
    }
}

/// Human-readable display name of each ranking.
pub open spec fn ranking_name(rk: HandRanking) -> Seq<char> {
    match rk {
        HandRanking::HighCard => "High card"@,
        HandRanking::Pair => "Pair"@,
        HandRanking::TwoPair => "Two pair"@,
        HandRanking::ThreeOfAKind => "Three of a kind"@,
        HandRanking::Straight => "Straight"@,
        HandRanking::Flush => "Flush"@,
        HandRanking::FullHouse => "Full house"@,
        HandRanking::FourOfAKind => "Four of a kind"@,
        HandRanking::StraightFlush => "Straight flush"@,
        HandRanking::RoyalStraightFlush => "Royal straight flush"@,
    }
}

impl HandRanking {
    /// The ranking's position in the strength order, 0 (weakest) to 9
    /// (strongest).
    pub fn strength(&self) -> (r: u8)
        ensures
            r as int == ranking_strength(*self),
    {
        match self {
            HandRanking::HighCard => 0,
            HandRanking::Pair => 1,
            HandRanking::TwoPair => 2,
            HandRanking::ThreeOfAKind => 3,
            HandRanking::Straight => 4,
            HandRanking::Flush => 5,
            HandRanking::FullHouse => 6,
            HandRanking::FourOfAKind => 7,
            HandRanking::StraightFlush => 8,
            HandRanking::RoyalStraightFlush => 9,
        }
    }

    /// The ranking's display name.
    pub fn to_string(&self) -> (r: String)
        ensures
            r@ == ranking_name(*self),
    {
        match self {
            HandRanking::HighCard => String::from_str("High card"),
            HandRanking::Pair => String::from_str("Pair"),
            HandRanking::TwoPair => String::from_str("Two pair"),
            HandRanking::ThreeOfAKind => String::from_str("Three of a kind"),
            HandRanking::Straight => String::from_str("Straight"),
            HandRanking::Flush => String::from_str("Flush"),
            HandRanking::FullHouse => String::from_str("Full house"),
            HandRanking::FourOfAKind => String::from_str("Four of a kind"),
            HandRanking::StraightFlush => String::from_str("Straight flush"),
            HandRanking::RoyalStraightFlush => String::from_str("Royal straight flush"),
        }
    }
}

/// The strength table distinguishes every pair of distinct rankings, so
/// comparing strengths is a faithful total order on `HandRanking`: it is
/// total, antisymmetric and (being integer comparison) transitive.
pub proof fn lemma_ranking_strength_total_order(a: HandRanking, b: HandRanking)
    ensures
        0 <= ranking_strength(a) <= 9,
        ranking_strength(a) <= ranking_strength(b) || ranking_strength(b) <= ranking_strength(a),
        ranking_strength(a) == ranking_strength(b) ==> a == b,
{
}

} // verus!
