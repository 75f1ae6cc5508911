use vstd::prelude::*;
use vstd::string::*;

use crate::card::card::CardError;
use crate::card::card::random_below;

verus! {

/// One of the thirteen card values, Two low, Ace high. Each carries an
/// ordinal 2..=14 (see [`value_ord`]) used for the textual round-trip and for
/// straight arithmetic; the total order of values is the ordinal order.
#[derive(Debug, PartialEq, Eq, Structural, Clone, Copy, Hash, PartialOrd, Ord)]
pub enum CardValue {
    Two,
    Three,
    Four,
    Five,
    Six,
    Seven,
    Eigth,
    Nine,
    T,
    J,
    Q,
    K,
    A,
}

/// Ordinal of a card value: 2 for Two up to 14 for Ace.
pub open spec fn value_ord(v: CardValue) -> int {
    match v {
        CardValue::Two => 2,
        CardValue::Three => 3,
        CardValue::Four => 4,
        CardValue::Five => 5,
        CardValue::Six => 6,
        CardValue::Seven => 7,
        CardValue::Eigth => 8,
        CardValue::Nine => 9,
        CardValue::T => 10,
        CardValue::J => 11,
        CardValue::Q => 12,
        CardValue::K => 13,
        CardValue::A => 14,
    }
}

/// The card value with a given ordinal; meaningful for ordinals 2..=14.
pub open spec fn ord_value(k: int) -> CardValue {
    if k == 2 {
        CardValue::Two
    } else if k == 3 {
        CardValue::Three
    } else if k == 4 {
        CardValue::Four
    } else if k == 5 {
        CardValue::Five
    } else if k == 6 {
        CardValue::Six
    } else if k == 7 {
        CardValue::Seven
    } else if k == 8 {
        CardValue::Eigth
    } else if k == 9 {
        CardValue::Nine
    } else if k == 10 {
        CardValue::T
    } else if k == 11 {
        CardValue::J
    } else if k == 12 {
        CardValue::Q
    } else if k == 13 {
        CardValue::K
    } else {
        CardValue::A
    }
}

/// Single-character wire code of a card value: the literal digit for Two
/// through Nine, then `t`, `j`, `q`, `k`, `a`.
pub open spec fn value_char(v: CardValue) -> char {
    match v {
        CardValue::Two => '2',
        CardValue::Three => '3',
        CardValue::Four => '4',
        CardValue::Five => '5',
        CardValue::Six => '6',
        CardValue::Seven => '7',
        CardValue::Eigth => '8',
        CardValue::Nine => '9',
        CardValue::T => 't',
        CardValue::J => 'j',
        CardValue::Q => 'q',
        CardValue::K => 'k',
        CardValue::A => 'a',
    }
}

/// Inverse of [`value_char`]: the card value a character decodes to, if any.
pub open spec fn char_value(c: char) -> Option<CardValue> {
    match c {
        '2' => Some(CardValue::Two),
        '3' => Some(CardValue::Three),
        '4' => Some(CardValue::Four),
        '5' => Some(CardValue::Five),
        '6' => Some(CardValue::Six),
        '7' => Some(CardValue::Seven),
        '8' => Some(CardValue::Eigth),
        '9' => Some(CardValue::Nine),
        't' => Some(CardValue::T),
        'j' => Some(CardValue::J),
        'q' => Some(CardValue::Q),
        'k' => Some(CardValue::K),
        'a' => Some(CardValue::A),
        _ => None,
    }
}

/// What parsing a value code yields: the value for a recognized one-character
/// string, `UnknownCardValue` for anything else.
pub open spec fn parse_value(s: Seq<char>) -> Result<CardValue, CardError> {
    if s.len() == 1 && char_value(s[0]) is Some {
        Ok(char_value(s[0]).unwrap())
    } else {
        Err(CardError::UnknownCardValue)
    }
}

impl CardValue {
    /// The value's ordinal, 2..=14.
    pub fn ordinal(&self) -> (r: u8)
        ensures
            r as int == value_ord(*self),
    {
        match self {
            CardValue::Two => 2,
            CardValue::Three => 3,
            CardValue::Four => 4,
            CardValue::Five => 5,
            CardValue::Six => 6,
            CardValue::Seven => 7,
            CardValue::Eigth => 8,
            CardValue::Nine => 9,
            CardValue::T => 10,
            CardValue::J => 11,
            CardValue::Q => 12,
            CardValue::K => 13,
            CardValue::A => 14,
        }
    }

    /// Decode a single character into a card value.
    pub fn from_char(c: char) -> (r: Result<CardValue, CardError>)
        ensures
            r == (match char_value(c) {
                Some(v) => Ok::<CardValue, CardError>(v),
                None => Err::<CardValue, CardError>(CardError::UnknownCardValue),
            }),
    {
        match c {
            '2' => Ok(CardValue::Two),
            '3' => Ok(CardValue::Three),
            '4' => Ok(CardValue::Four),
            '5' => Ok(CardValue::Five),
            '6' => Ok(CardValue::Six),
            '7' => Ok(CardValue::Seven),
            '8' => Ok(CardValue::Eigth),
            '9' => Ok(CardValue::Nine),
            't' => Ok(CardValue::T),
            'j' => Ok(CardValue::J),
            'q' => Ok(CardValue::Q),
            'k' => Ok(CardValue::K),
            'a' => Ok(CardValue::A),
            _ => Err(CardError::UnknownCardValue),
        }
    }

    /// Parse a one-character value code; any other input is
    /// `UnknownCardValue`.
    pub fn from_str(s: &str) -> (r: Result<CardValue, CardError>)
        ensures
            r == parse_value(s@),
    {
        if s.unicode_len() == 1 {
            CardValue::from_char(s.get_char(0))
        } else {
            Err(CardError::UnknownCardValue)
        }
    }

    /// The value's one-character code as a borrowed string.
    pub fn code_str(&self) -> (r: &'static str)
        ensures
            r@ == seq![value_char(*self)],
    {
        proof {
            reveal_strlit("2");
            reveal_strlit("3");
            reveal_strlit("4");
            reveal_strlit("5");
            reveal_strlit("6");
            reveal_strlit("7");
            reveal_strlit("8");
            reveal_strlit("9");
            reveal_strlit("t");
            reveal_strlit("j");
            reveal_strlit("q");
            reveal_strlit("k");
            reveal_strlit("a");
            assert("2"@ =~= seq!['2']);
            assert("3"@ =~= seq!['3']);
            assert("4"@ =~= seq!['4']);
            assert("5"@ =~= seq!['5']);
            assert("6"@ =~= seq!['6']);
            assert("7"@ =~= seq!['7']);
            assert("8"@ =~= seq!['8']);
            assert("9"@ =~= seq!['9']);
            assert("t"@ =~= seq!['t']);
            assert("j"@ =~= seq!['j']);
            assert("q"@ =~= seq!['q']);
            assert("k"@ =~= seq!['k']);
            assert("a"@ =~= seq!['a']);
        }
        match self {
            CardValue::Two => "2",
            CardValue::Three => "3",
            CardValue::Four => "4",
            CardValue::Five => "5",
            CardValue::Six => "6",
            CardValue::Seven => "7",
            CardValue::Eigth => "8",
            CardValue::Nine => "9",
            CardValue::T => "t",
            CardValue::J => "j",
            CardValue::Q => "q",
            CardValue::K => "k",
            CardValue::A => "a",
        }
    }

    /// The value's one-character code as an owned string.
    pub fn to_string(&self) -> (r: String)
        ensures
            r@ == seq![value_char(*self)],
    {
        String::from_str(self.code_str())
    }

    /// Draw a card value uniformly at random.
    pub fn random() -> CardValue {
        let i: u8 = random_below(13);
        match i {
            0 => CardValue::Two,
            1 => CardValue::Three,
            2 => CardValue::Four,
            3 => CardValue::Five,
            4 => CardValue::Six,
            5 => CardValue::Seven,
            6 => CardValue::Eigth,
            7 => CardValue::Nine,
            8 => CardValue::T,
            9 => CardValue::J,
            10 => CardValue::Q,
            11 => CardValue::K,
            _ => CardValue::A,
        }
    }
}

} // verus!
