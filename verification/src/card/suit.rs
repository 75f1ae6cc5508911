use vstd::prelude::*;
use vstd::string::*;

use crate::card::card::CardError;
use crate::card::card::random_below;

verus! {

/// One of the four suits. The declared order carries no game meaning: a suit
/// never affects hand strength except through the flush equality test; the
/// order only makes `Card` orderable and hashable.
#[derive(Debug, PartialEq, Eq, Structural, Clone, Copy, Hash, PartialOrd, Ord)]
pub enum Suit {
    Heart,
    Spade,
    Diamond,
    Club,
}

/// Single-character wire code of a suit. The diamond and club codes are the
/// non-mnemonic letters `r` and `k`, kept exactly for wire compatibility.
pub open spec fn suit_char(s: Suit) -> char {
    match s {
        Suit::Heart => 'h',
        Suit::Spade => 's',
        Suit::Diamond => 'r',
        Suit::Club => 'k',
    }
}

/// Inverse of [`suit_char`]: the suit a character decodes to, if any.
pub open spec fn char_suit(c: char) -> Option<Suit> {
    match c {
        'h' => Some(Suit::Heart),
        's' => Some(Suit::Spade),
        'r' => Some(Suit::Diamond),
        'k' => Some(Suit::Club),
        _ => None,
    }
}

/// What parsing a suit code yields: the suit for a recognized one-character
/// string, `UnknownSuit` for anything else.
pub open spec fn parse_suit(s: Seq<char>) -> Result<Suit, CardError> {
    if s.len() == 1 && char_suit(s[0]) is Some {
        Ok(char_suit(s[0]).unwrap())
    } else {
        Err(CardError::UnknownSuit)
    }
}

impl Suit {
    /// Decode a single character into a suit.
    pub fn from_char(c: char) -> (r: Result<Suit, CardError>)
        ensures
            r == (match char_suit(c) {
                Some(s) => Ok::<Suit, CardError>(s),
                None => Err::<Suit, CardError>(CardError::UnknownSuit),
            }),
    {
        match c {
            'h' => Ok(Suit::Heart),
            's' => Ok(Suit::Spade),
            'r' => Ok(Suit::Diamond),
            'k' => Ok(Suit::Club),
            _ => Err(CardError::UnknownSuit),
        }
    }

    /// Parse a one-character suit code; any other input is `UnknownSuit`.
    pub fn from_str(s: &str) -> (r: Result<Suit, CardError>)
        ensures
            r == parse_suit(s@),
    {
        if s.unicode_len() == 1 {
            Suit::from_char(s.get_char(0))
        } else {
            Err(CardError::UnknownSuit)
        }
    }

    /// The suit's one-character code as a borrowed string.
    pub fn code_str(&self) -> (r: &'static str)
        ensures
            r@ == seq![suit_char(*self)],
    {
        proof {
            reveal_strlit("h");
            reveal_strlit("s");
            reveal_strlit("r");
            reveal_strlit("k");
            assert("h"@ =~= seq!['h']);
            assert("s"@ =~= seq!['s']);
            assert("r"@ =~= seq!['r']);
            assert("k"@ =~= seq!['k']);
        }
        match self {
            Suit::Heart => "h",
            Suit::Spade => "s",
            Suit::Diamond => "r",
            Suit::Club => "k",
        }
    }

    /// The suit's one-character code as an owned string.
    pub fn to_string(&self) -> (r: String)
        ensures
            r@ == seq![suit_char(*self)],
    {
        String::from_str(self.code_str())
    }

    /// Draw a suit uniformly at random.
    pub fn random() -> Suit {
        let i: u8 = random_below(4);
        match i {
            0 => Suit::Heart,
            1 => Suit::Spade,
            2 => Suit::Diamond,
            _ => Suit::Club,
        }
    }
}

} // verus!
