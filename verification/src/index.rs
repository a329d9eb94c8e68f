//! Addressable positions on the board: slots (whole containers) and
//! locations (a specific occupied position inside a container).

use vstd::prelude::*;

verus! {

/// An addressable container: one of three spare (free) cells, or one of
/// eight tray columns.
#[derive(Clone, Copy, PartialEq, Eq, Structural, Debug)]
pub enum Slot {
    /// A free cell; the index is 0..=2.
    Spare(u8),
    /// A tray column; the index is 0..=7.
    Tray(u8),
}

/// A specific position: a spare cell's single occupant, or a tray card
/// identified by a 1-based depth counted from the bottom of the column
/// (the card at that depth and everything above it form the selected run).
#[derive(Clone, Copy, PartialEq, Eq, Structural, Debug)]
pub enum Location {
    Spare(u8),
    Tray(u8, u8),
}

/// Whether a slot's index is in range.
pub open spec fn slot_ok(s: Slot) -> bool {
    match s {
        Slot::Spare(i) => i < 3,
        Slot::Tray(i) => i < 8,
    }
}

/// The slot a location lies in.
pub open spec fn slot_of(l: Location) -> Slot {
    match l {
        Location::Spare(i) => Slot::Spare(i),
        Location::Tray(x, _) => Slot::Tray(x),
    }
}

} // verus!
