//! The card values of the game: 27 number cards (three suits, ranks 1..=9),
//! 12 dragon cards (four per color), and one flower card.

use vstd::prelude::*;

verus! {

/// The three number suits.
#[derive(Clone, Copy, PartialEq, Eq, Structural, Debug)]
pub enum NumberCard {
    Bamboo,
    Characters,
    Coin,
}

/// The three dragon colors.
#[derive(Clone, Copy, PartialEq, Eq, Structural, Debug)]
pub enum DragonCard {
    Green,
    White,
    Red,
}

/// A single card.
#[derive(Clone, Copy, PartialEq, Eq, Structural, Debug)]
pub enum Card {
    /// A number card; the rank is 1..=9.
    Number(NumberCard, u8),
    Dragon(DragonCard),
    Flower,
}

/// The index of a suit's completion pile: Bamboo 0, Characters 1, Coin 2.
pub open spec fn suit_index(s: NumberCard) -> int {
    match s {
        NumberCard::Bamboo => 0,
        NumberCard::Characters => 1,
        NumberCard::Coin => 2,
    }
}

} // verus!
