use poker_hand::card::card::Card;
use poker_hand::eval::Eval;
use poker_hand::hand_ranks::HandRanking;

fn hand(tokens: [&str; 5]) -> Vec<Card> {
    tokens.map(|c| Card::from_str(c).unwrap()).to_vec()
}

fn rank_of(tokens: [&str; 5]) -> HandRanking {
    Eval::from(hand(tokens)).evaluate().unwrap()
}

#[test]
fn test_scenario_pair() {
    assert_eq!(rank_of(["kh", "qh", "5s", "3r", "kr"]), HandRanking::Pair);
}

#[test]
fn test_scenario_two_pair() {
    assert_eq!(rank_of(["kh", "qh", "qs", "3r", "kr"]), HandRanking::TwoPair);
}

#[test]
fn test_scenario_three_of_a_kind() {
    assert_eq!(
        rank_of(["kh", "ks", "qs", "3r", "kr"]),
        HandRanking::ThreeOfAKind
    );
}

#[test]
fn test_scenario_straight_wheel() {
    assert_eq!(rank_of(["ah", "2s", "3k", "4r", "5r"]), HandRanking::Straight);
}

#[test]
fn test_scenario_straight_ace_high() {
    assert_eq!(rank_of(["ts", "jh", "qh", "kr", "ar"]), HandRanking::Straight);
}

#[test]
fn test_scenario_flush() {
    assert_eq!(rank_of(["ah", "7h", "qh", "th", "2h"]), HandRanking::Flush);
}

#[test]
fn test_scenario_full_house() {
    assert_eq!(
        rank_of(["ah", "ar", "qh", "qr", "qs"]),
        HandRanking::FullHouse
    );
}

#[test]
fn test_scenario_four_of_a_kind() {
    assert_eq!(
        rank_of(["ah", "ar", "as", "ak", "qs"]),
        HandRanking::FourOfAKind
    );
}

#[test]
fn test_scenario_straight_flush_wheel() {
    assert_eq!(
        rank_of(["4s", "2s", "5s", "3s", "as"]),
        HandRanking::StraightFlush
    );
}

#[test]
fn test_scenario_royal_straight_flush() {
    assert_eq!(
        rank_of(["ts", "js", "qs", "ks", "as"]),
        HandRanking::RoyalStraightFlush
    );
}

#[test]
fn test_scenario_high_card() {
    assert_eq!(rank_of(["kr", "js", "7s", "ts", "3h"]), HandRanking::HighCard);
}

#[test]
fn test_permutation_invariance() {
    let hands = [
        ["ah", "ar", "qh", "qr", "qs"],
        ["kh", "qh", "5s", "3r", "kr"],
        ["4s", "2s", "5s", "3s", "as"],
        ["kr", "js", "7s", "ts", "3h"],
    ];
    for tokens in hands {
        let base = rank_of(tokens);
        let mut cards = hand(tokens);
        // A rotation and a reversal of each rotation cover several distinct
        // supply orders of the same five cards.
        for _ in 0..5 {
            cards.rotate_left(1);
            assert_eq!(Eval::from(cards.clone()).evaluate().unwrap(), base);
            let mut reversed = cards.clone();
            reversed.reverse();
            assert_eq!(Eval::from(reversed).evaluate().unwrap(), base);
        }
    }
}

#[test]
fn test_repeated_evaluation_deterministic() {
    let eval = Eval::from(hand(["kh", "qh", "qs", "3r", "kr"]));
    let first = eval.evaluate();
    for _ in 0..10 {
        assert_eq!(eval.evaluate(), first);
    }
    let again = Eval::from(hand(["kh", "qh", "qs", "3r", "kr"]));
    assert_eq!(again.evaluate(), first);
}
