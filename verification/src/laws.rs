//! The properties the selection protocol promises, stated and proved
//! once over the machine's transition relation and the transfer model,
//! for every engine implementation.

use vstd::prelude::*;
use crate::card::DragonCard;
use crate::index::{Location, Slot, slot_ok, slot_of};
use crate::card::Card;
use crate::engine::{
    BoardModel, Engine, count_of, fresh_deal, never_banked, slot_total, total_cards, wf,
};
use crate::standard::StandardEngine;
use crate::machine::{
    BoardState, Key, Notice, after_transfer, base_card, color_of_key, loc_live, machine_rel,
    run_good, run_of, slot_of_key,
};

verus! {

/// A freshly dealt board carries exactly the 40 cards of the game, all
/// of them still in slots.
pub proof fn lemma_fresh_deal_total(m: BoardModel)
    requires
        wf(m),
        fresh_deal(m),
    ensures
        slot_total(m) == 40,
        total_cards(m) == 40,
{
}

/// Card accounting of a transfer: the source slot loses exactly the
/// run's length, the destination gains exactly that many, no other slot
/// changes, and the total over all slots — and over the whole game — is
/// unchanged. A column moved onto itself nets to no change at all.
pub proof fn lemma_transfer_counts(m: BoardModel, loc: Location, dst: Slot)
    requires
        wf(m),
        loc_live(m, loc),
        slot_ok(dst),
        dst matches Slot::Spare(j) ==> m.spares[j as int] is None
            && run_of(m, loc).len() == 1,
    ensures
        slot_total(after_transfer(m, loc, dst)) == slot_total(m),
        total_cards(after_transfer(m, loc, dst)) == total_cards(m),
        slot_of(loc) != dst ==> count_of(after_transfer(m, loc, dst), slot_of(loc))
            == count_of(m, slot_of(loc)) - run_of(m, loc).len(),
        slot_of(loc) != dst ==> count_of(after_transfer(m, loc, dst), dst)
            == count_of(m, dst) + run_of(m, loc).len(),
        forall|s: Slot| slot_ok(s) && s != slot_of(loc) && s != dst ==>
            count_of(after_transfer(m, loc, dst), s) == count_of(m, s),
        slot_of(loc) == dst ==> forall|s: Slot| slot_ok(s) ==>
            count_of(after_transfer(m, loc, dst), s) == count_of(m, s),
{
}

/// A rejected move mutates nothing: when the engine's legality rule
/// refuses the held selection's base card on the chosen destination, the
/// board is byte-for-byte unchanged, the state resets to neutral, and
/// the notice reports the rejection.
pub proof fn lemma_rejected_move_unchanged<E: Engine>(
    m0: BoardModel,
    loc: Location,
    key: Key,
    dst: Slot,
    m1: BoardModel,
    st1: BoardState,
    info1: Option<Notice>,
)
    requires
        machine_rel::<E>(m0, BoardState::Pickup(loc), key, m1, st1, info1),
        loc_live(m0, loc),
        slot_of_key(key) == Some(dst),
        !E::appendable_spec(m0, dst, base_card(m0, loc)),
    ensures
        m1 == m0,
        st1 == BoardState::View,
        info1 == Some(Notice::CannotStackOntoThat),
{
}

/// Selecting a partial stack and then cancelling leaves the board — the
/// chosen column included — unchanged, and returns to neutral with no
/// notice.
pub proof fn lemma_select_then_cancel<E: Engine>(
    m0: BoardModel,
    x: u8,
    key1: Key,
    m1: BoardModel,
    st1: BoardState,
    info1: Option<Notice>,
    m2: BoardModel,
    st2: BoardState,
    info2: Option<Notice>,
)
    requires
        machine_rel::<E>(m0, BoardState::SemiPickup(x), key1, m1, st1, info1),
        st1 is Pickup,
        machine_rel::<E>(m1, st1, Key::Esc, m2, st2, info2),
    ensures
        m2 == m0,
        st2 == BoardState::View,
        info2 is None,
{
}

/// A failed dragon collection is retry-friendly: the board is unchanged
/// and the machine stays in the color-choosing state with the rejection
/// notice set.
pub proof fn lemma_dragon_failure_retryable<E: Engine>(
    m0: BoardModel,
    key: Key,
    color: DragonCard,
    m1: BoardModel,
    st1: BoardState,
    info1: Option<Notice>,
)
    requires
        machine_rel::<E>(m0, BoardState::CollectDragon, key, m1, st1, info1),
        color_of_key(key) == Some(color),
        !E::dragon_ok(m0, color),
    ensures
        m1 == m0,
        st1 == BoardState::CollectDragon,
        info1 == Some(Notice::CannotCollectDragon),
{
}

/// A held tray selection is only ever entered over a validated run: when
/// a count keystroke moves the machine from the counting state into a
/// held selection, the chosen depth is in range, every card from that
/// depth to the top may rest on the one below it, and the board was not
/// touched.
pub proof fn lemma_pickup_entry_run_valid<E: Engine>(
    m0: BoardModel,
    x: u8,
    key: Key,
    m1: BoardModel,
    xp: u8,
    n: u8,
    info1: Option<Notice>,
)
    requires
        machine_rel::<E>(m0, BoardState::SemiPickup(x), key, m1,
            BoardState::Pickup(Location::Tray(xp, n)), info1),
    ensures
        m1 == m0,
        xp == x,
        x < 8,
        1 <= n <= m0.trays[x as int].len(),
        run_good::<E>(m0, x as int, n as int),
        info1 is None,
{
}

/// Moving a held single-card selection onto a legal free cell: the cell
/// holds exactly that card when the call returns — auto-completion
/// included, since the card is one the engine's auto rule can never
/// bank — the state is neutral with no notice, and a fully selected
/// source column is left empty.
pub proof fn lemma_move_to_free_cell<E: Engine>(
    m0: BoardModel,
    loc: Location,
    j: u8,
    key: Key,
    m1: BoardModel,
    st1: BoardState,
    info1: Option<Notice>,
)
    requires
        machine_rel::<E>(m0, BoardState::Pickup(loc), key, m1, st1, info1),
        wf(m0),
        loc_live(m0, loc),
        slot_of_key(key) == Some(Slot::Spare(j)),
        j < 3,
        E::appendable_spec(m0, Slot::Spare(j), base_card(m0, loc)),
        run_of(m0, loc).len() == 1,
        never_banked::<E>(base_card(m0, loc)),
    ensures
        st1 == BoardState::View,
        info1 is None,
        m1.spares[j as int] == Some(base_card(m0, loc)),
        loc matches Location::Tray(x, y) ==> (y == 1 ==> m1.trays[x as int].len() == 0),
{
    let t = after_transfer(m0, loc, Slot::Spare(j));
    assert(t.spares[j as int] == Some(base_card(m0, loc)));
}

/// Under the standard engine's rules, dragons and number cards of rank
/// 3 and above are never banked by auto-completion, on any board.
pub proof fn lemma_never_banked_standard(c: Card)
    requires
        match c {
            Card::Number(_, r) => r >= 3,
            Card::Dragon(_) => true,
            Card::Flower => false,
        },
    ensures
        never_banked::<StandardEngine>(c),
{
}

/// Round trip of a run: transferring a validated run of k cards onto a
/// legal tray destination makes exactly those k cards appear, in the
/// same bottom-to-top order, on top of the destination, and disappear
/// entirely from the source.
pub proof fn lemma_run_round_trip(m: BoardModel, loc: Location, j: u8)
    requires
        wf(m),
        loc_live(m, loc),
        j < 8,
        slot_of(loc) != Slot::Tray(j),
    ensures
        after_transfer(m, loc, Slot::Tray(j)).trays[j as int]
            == m.trays[j as int] + run_of(m, loc),
        forall|q: int| 0 <= q < run_of(m, loc).len() ==>
            after_transfer(m, loc, Slot::Tray(j)).trays[j as int][m.trays[j as int].len() + q]
                == run_of(m, loc)[q],
        loc matches Location::Tray(x, y) ==>
            after_transfer(m, loc, Slot::Tray(j)).trays[x as int]
                == m.trays[x as int].subrange(0, y - 1),
        loc matches Location::Spare(i) ==>
            after_transfer(m, loc, Slot::Tray(j)).spares[i as int] is None,
{
}

} // verus!
