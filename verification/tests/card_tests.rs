use poker_hand::card::card::Card;
use poker_hand::card::card::CardError;
use poker_hand::card::cardvalue::CardValue;
use poker_hand::card::suit::Suit;

#[test]
fn test_new_hand_no_duplicates() {
    for _ in 0..100_00 {
        let mut hand: Vec<Card> = Card::new_hand();
        hand.sort();
        hand.dedup();

        assert_eq!(hand.len(), 5)
    }
}

#[test]
fn test_card_to_string() {
    let card_one = Card {
        value: CardValue::K,
        suit: Suit::Spade,
    };

    let card_two = Card {
        value: CardValue::Two,
        suit: Suit::Diamond,
    };

    assert_eq!(card_one.to_string(), "ks");
    assert_eq!(card_two.to_string(), "2r");
}

#[test]
fn test_card_fromstr() {
    let card_ok = Card::from_str("kh").unwrap();
    let card_value_err = Card::from_str("xh").unwrap_err();
    let card_suit_err = Card::from_str("kx").unwrap_err();
    let card_invalid_err = Card::from_str("khh").unwrap_err();

    assert_eq!(
        card_ok,
        Card {
            value: CardValue::K,
            suit: Suit::Heart
        }
    );
    assert_eq!(card_value_err, CardError::UnknownCardValue);
    assert_eq!(card_suit_err, CardError::UnknownSuit);
    assert_eq!(card_invalid_err, CardError::InvalidCard);
}

#[test]
fn test_value_to_string() {
    let two = CardValue::Two;
    let three = CardValue::Three;
    let four = CardValue::Four;
    let five = CardValue::Five;
    let six = CardValue::Six;
    let seven = CardValue::Seven;
    let eight = CardValue::Eigth;
    let nine = CardValue::Nine;
    let ten = CardValue::T;
    let jack = CardValue::J;
    let queen = CardValue::Q;
    let king = CardValue::K;
    let ace = CardValue::A;

    assert_eq!(two.to_string(), "2");
    assert_eq!(three.to_string(), "3");
    assert_eq!(four.to_string(), "4");
    assert_eq!(five.to_string(), "5");
    assert_eq!(six.to_string(), "6");
    assert_eq!(seven.to_string(), "7");
    assert_eq!(eight.to_string(), "8");
    assert_eq!(nine.to_string(), "9");
    assert_eq!(ten.to_string(), "t");
    assert_eq!(jack.to_string(), "j");
    assert_eq!(queen.to_string(), "q");
    assert_eq!(king.to_string(), "k");
    assert_eq!(ace.to_string(), "a");
}

#[test]
fn test_card_value_fromstr() {
    let card_value_ok = CardValue::from_str("3").unwrap();
    let card_value_err = CardValue::from_str("x").unwrap_err();

    assert_eq!(card_value_ok, CardValue::Three);
    assert_eq!(card_value_err, CardError::UnknownCardValue);
}

#[test]
fn test_suit_to_string() {
    let heart = Suit::Heart;
    let spade = Suit::Spade;
    let diamond = Suit::Diamond;
    let club = Suit::Club;

    assert_eq!(heart.to_string(), "h");
    assert_eq!(spade.to_string(), "s");
    assert_eq!(diamond.to_string(), "r");
    assert_eq!(club.to_string(), "k")
}

#[test]
fn test_suit_fromstr() {
    let suit_ok = Suit::from_str("r").unwrap();
    let suit_err = Suit::from_str("x").unwrap_err();

    assert_eq!(suit_ok, Suit::Diamond);
    assert_eq!(suit_err, CardError::UnknownSuit);
}

#[test]
fn test_round_trip_all_tokens() {
    let value_codes = [
        "2", "3", "4", "5", "6", "7", "8", "9", "t", "j", "q", "k", "a",
    ];
    let suit_codes = ["h", "s", "r", "k"];
    for v in value_codes {
        for s in suit_codes {
            let token = format!("{}{}", v, s);
            let card = Card::from_str(&token).unwrap();
            assert_eq!(card.to_string(), token);
        }
    }
}

#[test]
fn test_round_trip_all_cards() {
    let values = [
        CardValue::Two,
        CardValue::Three,
        CardValue::Four,
        CardValue::Five,
        CardValue::Six,
        CardValue::Seven,
        CardValue::Eigth,
        CardValue::Nine,
        CardValue::T,
        CardValue::J,
        CardValue::Q,
        CardValue::K,
        CardValue::A,
    ];
    let suits = [Suit::Heart, Suit::Spade, Suit::Diamond, Suit::Club];
    for value in values {
        for suit in suits {
            let card = Card { value, suit };
            let token = card.to_string();
            assert_eq!(token.len(), 2);
            assert_eq!(Card::from_str(&token).unwrap(), card);
        }
    }
}

#[test]
fn test_card_error_text() {
    assert_eq!(CardError::UnknownCardValue.to_string(), "Unknown card value");
    assert_eq!(CardError::UnknownSuit.to_string(), "Unknown suit");
    assert_eq!(CardError::InvalidCard.to_string(), "Invalid card");
}

#[test]
fn test_card_fromstr_empty_and_long() {
    assert_eq!(Card::from_str("").unwrap_err(), CardError::InvalidCard);
    assert_eq!(Card::from_str("k").unwrap_err(), CardError::InvalidCard);
    assert_eq!(Card::from_str("kshh").unwrap_err(), CardError::InvalidCard);
}
