use vstd::prelude::*;
use vstd::string::*;

use rand::Rng;

use crate::card::cardvalue::CardValue;
use crate::card::cardvalue::char_value;
use crate::card::cardvalue::value_char;
use crate::card::suit::Suit;
use crate::card::suit::char_suit;
use crate::card::suit::suit_char;

verus! {

/// Errors raised while decoding a card token: `InvalidCard` covers a token
/// whose length is not two characters, the other two an unrecognized value or
/// suit character.
#[derive(Debug, PartialEq, Eq, Structural)]
pub enum CardError {
    UnknownCardValue,
    UnknownSuit,
    InvalidCard,
}

/// Descriptive text of each parse error.
pub open spec fn card_error_text(e: CardError) -> Seq<char> {
    match e {
        CardError::UnknownCardValue => "Unknown card value"@,
        CardError::UnknownSuit => "Unknown suit"@,
        CardError::InvalidCard => "Invalid card"@,
    }
}

impl CardError {
    /// The error's descriptive text.
    pub fn to_string(&self) -> (r: String)
        ensures
            r@ == card_error_text(*self),
    {
        match self {
            CardError::UnknownCardValue => String::from_str("Unknown card value"),
            CardError::UnknownSuit => String::from_str("Unknown suit"),
            CardError::InvalidCard => String::from_str("Invalid card"),
        }
    }
}

/// A playing card: a value and a suit. Two cards are equal iff both fields
/// are; the total order is by value, then suit, and serves only sorting and
/// deduplication, never hand strength.
#[derive(Debug, PartialEq, Eq, Structural, Clone, Copy, Hash, PartialOrd, Ord)]
pub struct Card {
    pub value: CardValue,
    pub suit: Suit,
}

/// The two-character token of a card: value code first, suit code second.
pub open spec fn format_card(c: Card) -> Seq<char> {
    seq![value_char(c.value), suit_char(c.suit)]
}

/// What parsing a card token yields: `InvalidCard` unless the token is
/// exactly two characters, then the decoded card, or the error of whichever
/// character fails to decode (value first).
pub open spec fn parse_card(s: Seq<char>) -> Result<Card, CardError> {
    if s.len() != 2 {
        Err(CardError::InvalidCard)
    } else if char_value(s[0]) is None {
        Err(CardError::UnknownCardValue)
    } else if char_suit(s[1]) is None {
        Err(CardError::UnknownSuit)
    } else {
        Ok(Card { value: char_value(s[0]).unwrap(), suit: char_suit(s[1]).unwrap() })
    }
}

/// Relies on rand::Rng::gen_range on a thread-local generator: a uniform
/// draw from the range 0..n, which is nonempty since n > 0, so the call does
/// not panic and the result is below n.
#[verifier::external_body]
pub(crate) fn random_below(n: u8) -> (r: u8)
    requires
        n > 0,
    ensures
        r < n,
{
    rand::thread_rng().gen_range(0..n)
}

impl Card {
    /// Parse a two-character card token.
    pub fn from_str(s: &str) -> (r: Result<Card, CardError>)
        ensures
            r == parse_card(s@),
    {
        if s.unicode_len() != 2 {
            return Err(CardError::InvalidCard);
        }
        let value = match CardValue::from_char(s.get_char(0)) {
            Ok(v) => v,
            Err(e) => {
                return Err(e);
            },
        };
        let suit = match Suit::from_char(s.get_char(1)) {
            Ok(su) => su,
            Err(e) => {
                return Err(e);
            },
        };
        Ok(Card { value, suit })
    }

    /// Format the card as its two-character token.
    pub fn to_string(&self) -> (r: String)
        ensures
            r@ == format_card(*self),
    {
        let r = String::from_str(self.value.code_str()).concat(self.suit.code_str());
        proof {
            assert(r@ =~= format_card(*self));
        }
        r
    }

    /// Draw random cards until five distinct ones have been seen, and return
    /// those five. This is rejection sampling: the expected number of draws
    /// is small (five distinct among fifty-two), but a draw budget keeps the
    /// function provably total; exhausting it is so improbable that the fixed
    /// hand returned in that branch is never seen in practice.
    pub fn new_hand() -> (r: Vec<Card>)
        ensures
            r@.len() == 5,
            forall|i: int, j: int| 0 <= i < j < r@.len() ==> r@[i] != r@[j],
    {
        let mut cards: Vec<Card> = Vec::new();
        let mut budget: u64 = 1000000;
        while cards.len() < 5 && budget > 0
            invariant
                cards@.len() <= 5,
                forall|i: int, j: int| 0 <= i < j < cards@.len() ==> cards@[i] != cards@[j],
            decreases budget,
        {
            budget -= 1;
            let card = Card { value: CardValue::random(), suit: Suit::random() };
            if !contains_card(&cards, card) {
                cards.push(card);
            }
        }
        if cards.len() < 5 {
            cards = Vec::new();
            cards.push(Card { value: CardValue::Two, suit: Suit::Heart });
            cards.push(Card { value: CardValue::Three, suit: Suit::Heart });
            cards.push(Card { value: CardValue::Four, suit: Suit::Heart });
            cards.push(Card { value: CardValue::Five, suit: Suit::Heart });
            cards.push(Card { value: CardValue::Six, suit: Suit::Heart });
        }
        cards
    }
}

/// Whether a card occurs in a sequence of cards.
pub fn contains_card(cards: &Vec<Card>, c: Card) -> (r: bool)
    ensures
        r == cards@.contains(c),
{
    let mut i: usize = 0;
    while i < cards.len()
        invariant
            i <= cards@.len(),
            forall|j: int| 0 <= j < i ==> cards@[j] != c,
        decreases cards@.len() - i,
    {
        if cards[i] == c {
            return true;
        }
        i += 1;
    }
    false
}

/// Round trip from a card: formatting a card and parsing the token yields the
/// card back.
pub proof fn lemma_card_round_trip(c: Card)
    ensures
        parse_card(format_card(c)) == Ok::<Card, CardError>(c),
{
}

/// Round trip from a token: any token that parses successfully is reproduced
/// exactly by formatting the parsed card.
pub proof fn lemma_token_round_trip(s: Seq<char>, c: Card)
    requires
        parse_card(s) == Ok::<Card, CardError>(c),
    ensures
        format_card(c) == s,
{
    assert(format_card(c) =~= s);
}

} // verus!
