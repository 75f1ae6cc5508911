use poker_hand::card::card::Card;
use poker_hand::eval::Eval;
use poker_hand::eval::HandError;
use poker_hand::hand_ranks::HandRanking;

#[test]
fn test_is_too_many_cards_error() {
    let cards: Vec<Card> = ["kr", "js", "7s", "ts", "3h", "2h"]
        .map(|c| Card::from_str(c).unwrap())
        .to_vec();

    let eval = Eval::from(cards);
    let evaluation = eval.evaluate().unwrap_err();

    assert_eq!(evaluation, HandError::TooManyCards)
}

#[test]
fn test_is_not_enough_cards_error() {
    let cards: Vec<Card> = ["kr", "js", "7s", "ts"]
        .map(|c| Card::from_str(c).unwrap())
        .to_vec();

    let eval = Eval::from(cards);
    let evaluation = eval.evaluate().unwrap_err();

    assert_eq!(evaluation, HandError::NotEnoughCards)
}

#[test]
fn test_is_duplicate_cards_error() {
    let cards: Vec<Card> = ["kr", "js", "7s", "ts", "ts"]
        .map(|c| Card::from_str(c).unwrap())
        .to_vec();

    let eval = Eval::from(cards);
    let evaluation = eval.evaluate().unwrap_err();

    assert_eq!(evaluation, HandError::DuplicateCards)
}

#[test]
fn test_is_high_card() {
    let cards: Vec<Card> = ["kr", "js", "7s", "ts", "3h"]
        .map(|c| Card::from_str(c).unwrap())
        .to_vec();

    let eval = Eval::from(cards);
    let evaluation = eval.evaluate().unwrap();

    assert_eq!(evaluation, HandRanking::HighCard)
}

#[test]
fn test_is_pair() {
    let cards: Vec<Card> = ["kr", "ks", "7s", "ts", "3h"]
        .map(|c| Card::from_str(c).unwrap())
        .to_vec();

    let eval = Eval::from(cards);
    let evaluation = eval.evaluate().unwrap();

    assert_eq!(evaluation, HandRanking::Pair)
}

#[test]
fn test_is_two_pair() {
    let cards: Vec<Card> = ["kr", "ks", "jh", "js", "3h"]
        .map(|c| Card::from_str(c).unwrap())
        .to_vec();

    let eval = Eval::from(cards);
    let evaluation = eval.evaluate().unwrap();

    assert_eq!(evaluation, HandRanking::TwoPair)
}

#[test]
fn test_is_three_of_a_kind() {
    let cards: Vec<Card> = ["kr", "ks", "kh", "ts", "3h"]
        .map(|c| Card::from_str(c).unwrap())
        .to_vec();

    let eval = Eval::from(cards);
    let evaluation = eval.evaluate().unwrap();

    assert_eq!(evaluation, HandRanking::ThreeOfAKind)
}

#[test]
fn test_is_straight() {
    let cards: Vec<Card> = ["ts", "jh", "qh", "kr", "ar"]
        .map(|c| Card::from_str(c).unwrap())
        .to_vec();

    let eval = Eval::from(cards);
    let evaluation_one = eval.evaluate().unwrap();

    let cards_two: Vec<Card> = ["as", "5h", "3h", "4r", "2r"]
        .map(|c| Card::from_str(c).unwrap())
        .to_vec();

    let eval_two = Eval::from(cards_two);
    let evaluation_two = eval_two.evaluate().unwrap();

    assert_eq!(evaluation_one, HandRanking::Straight);
    assert_eq!(evaluation_two, HandRanking::Straight)
}

#[test]
fn test_is_flush() {
    let cards: Vec<Card> = ["ts", "js", "9s", "2s", "5s"]
        .map(|c| Card::from_str(c).unwrap())
        .to_vec();

    let eval = Eval::from(cards);
    let evaluation = eval.evaluate().unwrap();

    assert_eq!(evaluation, HandRanking::Flush)
}

#[test]
fn test_is_full_house() {
    let cards: Vec<Card> = ["ts", "tr", "9s", "9r", "9h"]
        .map(|c| Card::from_str(c).unwrap())
        .to_vec();

    let eval = Eval::from(cards);
    let evaluation = eval.evaluate().unwrap();

    assert_eq!(evaluation, HandRanking::FullHouse)
}

#[test]
fn test_is_four_of_a_kind() {
    let cards: Vec<Card> = ["kr", "ks", "kh", "kk", "3h"]
        .map(|c| Card::from_str(c).unwrap())
        .to_vec();

    let eval = Eval::from(cards);
    let evaluation = eval.evaluate().unwrap();

    assert_eq!(evaluation, HandRanking::FourOfAKind)
}

#[test]
fn test_is_straight_flush() {
    let cards: Vec<Card> = ["4s", "2s", "5s", "3s", "as"]
        .map(|c| Card::from_str(c).unwrap())
        .to_vec();

    let eval = Eval::from(cards);
    let evaluation = eval.evaluate().unwrap();

    assert_eq!(evaluation, HandRanking::StraightFlush)
}

#[test]
fn test_is_royal_straight_flush() {
    let cards: Vec<Card> = ["ts", "js", "qs", "ks", "as"]
        .map(|c| Card::from_str(c).unwrap())
        .to_vec();

    let eval = Eval::from(cards);
    let evaluation = eval.evaluate().unwrap();

    assert_eq!(evaluation, HandRanking::RoyalStraightFlush)
}

#[test]
fn test_hand_error_text() {
    assert_eq!(HandError::NotEnoughCards.to_string(), "Not enough cards");
    assert_eq!(HandError::TooManyCards.to_string(), "Too many cards");
    assert_eq!(HandError::DuplicateCards.to_string(), "Duplicate cards");
}

#[test]
fn test_ranking_names() {
    assert_eq!(HandRanking::HighCard.to_string(), "High card");
    assert_eq!(HandRanking::Pair.to_string(), "Pair");
    assert_eq!(HandRanking::TwoPair.to_string(), "Two pair");
    assert_eq!(HandRanking::ThreeOfAKind.to_string(), "Three of a kind");
    assert_eq!(HandRanking::Straight.to_string(), "Straight");
    assert_eq!(HandRanking::Flush.to_string(), "Flush");
    assert_eq!(HandRanking::FullHouse.to_string(), "Full house");
    assert_eq!(HandRanking::FourOfAKind.to_string(), "Four of a kind");
    assert_eq!(HandRanking::StraightFlush.to_string(), "Straight flush");
    assert_eq!(
        HandRanking::RoyalStraightFlush.to_string(),
        "Royal straight flush"
    );
}

#[test]
fn test_ranking_strengths_in_order() {
    let in_order = [
        HandRanking::HighCard,
        HandRanking::Pair,
        HandRanking::TwoPair,
        HandRanking::ThreeOfAKind,
        HandRanking::Straight,
        HandRanking::Flush,
        HandRanking::FullHouse,
        HandRanking::FourOfAKind,
        HandRanking::StraightFlush,
        HandRanking::RoyalStraightFlush,
    ];
    for (i, rk) in in_order.iter().enumerate() {
        assert_eq!(rk.strength() as usize, i);
    }
}
