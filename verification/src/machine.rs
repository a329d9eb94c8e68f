//! The selection state machine and move protocol: keystrokes drive a
//! four-state selection, and a completed selection becomes a validated
//! multi-card transfer followed by the engine's auto-completion step.

use vstd::prelude::*;
use crate::card::{Card, DragonCard};
use crate::index::{Location, Slot, slot_ok};
use crate::engine::{
    BoardModel, Engine, auto_post, slot_total, total_cards, wf,
};

verus! {

/// A key event the machine consumes: a printable character, the cancel
/// key, or anything else.
#[derive(Clone, Copy, PartialEq, Eq, Structural, Debug)]
pub enum Key {
    Char(char),
    Esc,
    Other,
}

/// The transient notice: one rejection message, shown until the next
/// keystroke.
#[derive(Clone, Copy, PartialEq, Eq, Structural, Debug)]
pub enum Notice {
    /// The requested dragon color could not be fully collected.
    CannotCollectDragon,
    /// The chosen partial-stack count does not form a legal run.
    NotAValidStack,
    /// The held card cannot legally land on the chosen destination.
    CannotStackOntoThat,
}

/// The interaction mode: neutral, waiting for a dragon color, waiting
/// for a partial-stack count, or holding a selection that awaits its
/// destination.
#[derive(Clone, Copy, PartialEq, Eq, Structural, Debug)]
pub enum BoardState {
    View,
    CollectDragon,
    SemiPickup(u8),
    Pickup(Location),
}

/// The slot a key addresses: three spare-cell selectors and the eight
/// tray-column digits.
pub open spec fn slot_of_key(key: Key) -> Option<Slot> {
    match key {
        Key::Char(c) => if c == 'a' {
            Some(Slot::Spare(0))
        } else if c == 'b' {
            Some(Slot::Spare(1))
        } else if c == 'c' {
            Some(Slot::Spare(2))
        } else if 49 <= c as u32 && c as u32 <= 56 {
            Some(Slot::Tray((c as u32 - 49) as u8))
        } else {
            None
        },
        _ => None,
    }
}

/// The decimal digit a key carries, if any.
pub open spec fn digit_of(c: char) -> Option<u8> {
    if 48 <= c as u32 && c as u32 <= 57 {
        Some((c as u32 - 48) as u8)
    } else {
        None
    }
}

/// The dragon color a key chooses, if any.
pub open spec fn color_of_key(key: Key) -> Option<DragonCard> {
    match key {
        Key::Char(c) => if c == 'g' {
            Some(DragonCard::Green)
        } else if c == 'w' {
            Some(DragonCard::White)
        } else if c == 'r' {
            Some(DragonCard::Red)
        } else {
            None
        },
        _ => None,
    }
}

/// Map a key to the board slot it addresses, or report that it has no
/// mapping. Total over the whole key space; every slot it yields is in
/// range.
pub fn key_to_slot(key: Key) -> (r: Result<Slot, ()>)
    ensures
        r matches Ok(s) ==> slot_of_key(key) == Some(s) && slot_ok(s),
        r is Err ==> slot_of_key(key) is None,
{
    match key {
        Key::Char(c) => {
            if c == 'a' {
                Ok(Slot::Spare(0))
            } else if c == 'b' {
                Ok(Slot::Spare(1))
            } else if c == 'c' {
                Ok(Slot::Spare(2))
            } else {
                let v = c as u32;
                if 49 <= v && v <= 56 {
                    Ok(Slot::Tray((v - 49) as u8))
                } else {
                    Err(())
                }
            }
        }
        _ => Err(()),
    }
}

/// Whether a location denotes an occupied position on the board: a spare
/// cell that holds a card, or a tray depth between 1 and the column
/// length.
pub open spec fn loc_live(m: BoardModel, loc: Location) -> bool {
    match loc {
        Location::Spare(i) => i < 3 && m.spares[i as int] is Some,
        Location::Tray(x, y) => x < 8 && 1 <= y <= m.trays[x as int].len(),
    }
}

/// The run a live location selects, bottom to top: a spare's single
/// occupant, or everything in the column from the 1-based depth up.
pub open spec fn run_of(m: BoardModel, loc: Location) -> Seq<Card> {
    match loc {
        Location::Spare(i) => seq![m.spares[i as int]->0],
        Location::Tray(x, y) => m.trays[x as int].subrange(
            y - 1,
            m.trays[x as int].len() as int,
        ),
    }
}

/// The base card of a selection: the bottom card of its run, the one
/// tested against the destination.
pub open spec fn base_card(m: BoardModel, loc: Location) -> Card {
    run_of(m, loc)[0]
}

/// The board after a selected run is lifted out of its source.
pub open spec fn removed_model(m: BoardModel, loc: Location) -> BoardModel {
    match loc {
        Location::Spare(i) => BoardModel { spares: m.spares.update(i as int, None), ..m },
        Location::Tray(x, y) => BoardModel {
            trays: m.trays.update(x as int, m.trays[x as int].subrange(0, y - 1)),
            ..m
        },
    }
}

/// The board after a selected run is lifted out of its source and
/// appended, in the same bottom-to-top order, onto the destination. The
/// removal happens first, so a column may serve as its own destination.
pub open spec fn after_transfer(m: BoardModel, loc: Location, dst: Slot) -> BoardModel {
    let rem = removed_model(m, loc);
    let run = run_of(m, loc);
    match dst {
        Slot::Spare(j) => BoardModel { spares: rem.spares.update(j as int, Some(run[0])), ..rem },
        Slot::Tray(j) => BoardModel {
            trays: rem.trays.update(j as int, rem.trays[j as int] + run),
            ..rem
        },
    }
}

/// Whether the cards of column `x` from 0-based index `n - 1` to the top
/// form a legal run: each card may rest on the one below it, by the
/// engine's stacking rule.
pub open spec fn run_good<E: Engine>(m: BoardModel, x: int, n: int) -> bool {
    forall|i: int| n <= i < m.trays[x].len() ==> #[trigger] E::stack_ok(m.trays[x][i], m.trays[x][i - 1])
}

/// The ways a completed move request can fail.
#[derive(Clone, Copy, PartialEq, Eq, Structural, Debug)]
pub enum MoveError {
    /// The selection's base card cannot legally land on the destination.
    IllegalDestination,
}

/// When a move request is refused: the engine's legality rule rejects
/// the base card on the destination, or a run of more than one card is
/// aimed at a spare cell, which holds at most one.
pub open spec fn move_rejected<E: Engine>(m: BoardModel, loc: Location, dst: Slot) -> bool {
    !E::appendable_spec(m, dst, base_card(m, loc))
        || (dst is Spare && run_of(m, loc).len() != 1)
}

/// What a held selection plus a destination key leads to. Rejection by
/// the engine's legality rule (or a multi-card run aimed at a spare
/// cell) abandons the selection: notice set, back to neutral, board
/// untouched. A legal move transfers the run and then runs the engine's
/// auto-completion.
pub open spec fn pickup_step<E: Engine>(
    m0: BoardModel,
    loc: Location,
    dst: Slot,
    m1: BoardModel,
    st1: BoardState,
    info1: Option<Notice>,
) -> bool {
    if !loc_live(m0, loc) {
        m1 == m0 && st1 == BoardState::Pickup(loc) && info1 is None
    } else if move_rejected::<E>(m0, loc, dst) {
        m1 == m0 && st1 == BoardState::View && info1 == Some(Notice::CannotStackOntoThat)
    } else {
        let t = after_transfer(m0, loc, dst);
        st1 == BoardState::View && info1 is None && wf(m1) && auto_post::<E>(t, m1)
    }
}

/// The full transition relation of the selection state machine: how one
/// key event takes the board, the selection state and the transient
/// notice from their values before the key to their values after it.
/// The notice is cleared before the key is interpreted, so its final
/// value depends on this key's outcome alone.
pub open spec fn machine_rel<E: Engine>(
    m0: BoardModel,
    st0: BoardState,
    key: Key,
    m1: BoardModel,
    st1: BoardState,
    info1: Option<Notice>,
) -> bool {
    match st0 {
        BoardState::View => {
            m1 == m0 && info1 is None && st1 == (match slot_of_key(key) {
                Some(Slot::Spare(i)) => BoardState::Pickup(Location::Spare(i)),
                Some(Slot::Tray(i)) => BoardState::SemiPickup(i),
                None => if key == Key::Char('d') {
                    BoardState::CollectDragon
                } else {
                    BoardState::View
                },
            })
        }
        BoardState::CollectDragon => {
            if key == Key::Esc {
                m1 == m0 && st1 == BoardState::View && info1 is None
            } else {
                match color_of_key(key) {
                    Some(c) => if E::dragon_ok(m0, c) {
                        &&& st1 == BoardState::View
                        &&& info1 is None
                        &&& wf(m1)
                        &&& total_cards(m1) == total_cards(m0)
                        &&& slot_total(m1) == slot_total(m0) - 4
                        &&& m1.outs == m0.outs
                        &&& m1.flower == m0.flower
                        &&& forall|i: int| 0 <= i < 8 ==> m1.trays[i] == m0.trays[i]
                            || (m1.trays[i] == m0.trays[i].drop_last()
                                && m0.trays[i].last() == Card::Dragon(c))
                        &&& forall|i: int| 0 <= i < 3 ==> m1.spares[i] == m0.spares[i]
                            || (m1.spares[i] is None
                                && m0.spares[i] == Some(Card::Dragon(c)))
                        &&& exists|j: int| 0 <= j < 3 && !m0.collected[j]
                            && m1.collected == m0.collected.update(j, true)
                    } else {
                        m1 == m0 && st1 == BoardState::CollectDragon
                            && info1 == Some(Notice::CannotCollectDragon)
                    },
                    None => m1 == m0 && st1 == BoardState::CollectDragon && info1 is None,
                }
            }
        }
        BoardState::SemiPickup(x) => {
            if key == Key::Esc {
                m1 == m0 && st1 == BoardState::View && info1 is None
            } else {
                match key {
                    Key::Char(c) => match digit_of(c) {
                        Some(n) => if x >= 8 {
                            m1 == m0 && st1 == BoardState::SemiPickup(x) && info1 is None
                        } else if n == 0 || n > m0.trays[x as int].len() {
                            m1 == m0 && st1 == BoardState::SemiPickup(x) && info1 is None
                        } else if !run_good::<E>(m0, x as int, n as int) {
                            m1 == m0 && st1 == BoardState::SemiPickup(x)
                                && info1 == Some(Notice::NotAValidStack)
                        } else {
                            m1 == m0 && st1 == BoardState::Pickup(Location::Tray(x, n))
                                && info1 is None
                        },
                        None => m1 == m0 && st1 == BoardState::SemiPickup(x) && info1 is None,
                    },
                    _ => m1 == m0 && st1 == BoardState::SemiPickup(x) && info1 is None,
                }
            }
        }
        BoardState::Pickup(loc) => {
            if key == Key::Esc {
                m1 == m0 && st1 == BoardState::View && info1 is None
            } else {
                match slot_of_key(key) {
                    Some(dst) => pickup_step::<E>(m0, loc, dst, m1, st1, info1),
                    None => m1 == m0 && st1 == BoardState::Pickup(loc) && info1 is None,
                }
            }
        }
    }
}

/// Lift a live selection's run out of its source and append it, in the
/// same bottom-to-top order, onto the destination slot. Pure transfer:
/// legality has been checked by the caller, and no auto-completion runs
/// here.
#[verifier::rlimit(100)]
pub fn transfer_run<E: Engine>(board: &mut E, loc: Location, dst: Slot)
    requires
        wf(old(board).board()),
        loc_live(old(board).board(), loc),
        slot_ok(dst),
        dst matches Slot::Spare(j) ==> run_of(old(board).board(), loc).len() == 1
            && old(board).board().spares[j as int] is None
            && !old(board).board().collected[j as int],
    ensures
        wf(final(board).board()),
        final(board).board() == after_transfer(old(board).board(), loc, dst),
        total_cards(final(board).board()) == total_cards(old(board).board()),
        slot_total(final(board).board()) == slot_total(old(board).board()),
{
    let ghost m0 = board.board();
    match loc {
        Location::Spare(i) => {
            let c = board.remove_top(Slot::Spare(i));
            board.place(dst, c);
            proof {
                assert(board.board() =~~= after_transfer(m0, loc, dst));
            }
        }
        Location::Tray(x, y) => {
            let len = board.count_in(Slot::Tray(x));
            let k = len - (y as usize) + 1;
            let ghost run = run_of(m0, loc);
            let mut cards: Vec<Card> = Vec::new();
            let mut p: usize = 0;
            proof {
                assert(run.len() == k);
                assert(m0.trays[x as int].subrange(0, (len - 0) as int) =~= m0.trays[x as int]);
                assert(board.board().trays =~~= m0.trays.update(
                    x as int,
                    m0.trays[x as int].subrange(0, (len - 0) as int),
                ));
                assert(cards@ =~= m0.trays[x as int].subrange((len - 0) as int, len as int));
            }
            while p < k
                invariant
                    wf(board.board()),
                    x < 8,
                    1 <= y,
                    (y as int) <= len,
                    len == m0.trays[x as int].len(),
                    m0.trays.len() == 8,
                    m0.spares.len() == 3,
                    k == len - y + 1,
                    p <= k,
                    run == run_of(m0, loc),
                    run.len() == k,
                    board.board().spares == m0.spares,
                    board.board().collected == m0.collected,
                    board.board().flower == m0.flower,
                    board.board().outs == m0.outs,
                    board.board().trays == m0.trays.update(
                        x as int,
                        m0.trays[x as int].subrange(0, len - p),
                    ),
                    cards@ == m0.trays[x as int].subrange(len - p, len as int),
                decreases k - p,
            {
                let ghost pre = board.board();
                let c = board.remove_top(Slot::Tray(x));
                cards.insert(0, c);
                p += 1;
                proof {
                    assert(pre.trays[x as int] == m0.trays[x as int].subrange(0, len - p + 1));
                    assert(pre.trays[x as int].drop_last() =~=
                        m0.trays[x as int].subrange(0, len - p));
                    assert(board.board().trays =~~= m0.trays.update(
                        x as int,
                        m0.trays[x as int].subrange(0, len - p),
                    ));
                    assert(c == m0.trays[x as int][len - p]);
                    assert(cards@ =~= m0.trays[x as int].subrange(len - p, len as int));
                }
            }
            proof {
                assert(cards@ =~= run);
                assert(board.board() =~~= removed_model(m0, loc));
            }
            match dst {
                Slot::Spare(_) => {
                    let c = cards[0];
                    board.place(dst, c);
                    proof {
                        assert(board.board() =~~= after_transfer(m0, loc, dst));
                    }
                }
                Slot::Tray(j) => {
                    let ghost rem = removed_model(m0, loc);
                    let mut q: usize = 0;
                    proof {
                        assert(rem.trays[j as int] + run.subrange(0, 0) =~= rem.trays[j as int]);
                        assert(board.board().trays =~~= rem.trays.update(
                            j as int,
                            rem.trays[j as int] + run.subrange(0, 0),
                        ));
                    }
                    while q < k
                        invariant
                            wf(board.board()),
                            j < 8,
                            q <= k,
                            k == run.len(),
                            rem.trays.len() == 8,
                            cards@ == run,
                            board.board().spares == rem.spares,
                            board.board().collected == rem.collected,
                            board.board().flower == rem.flower,
                            board.board().outs == rem.outs,
                            board.board().trays == rem.trays.update(
                                j as int,
                                rem.trays[j as int] + run.subrange(0, q as int),
                            ),
                        decreases k - q,
                    {
                        let ghost pre = board.board();
                        let c = cards[q];
                        board.place(Slot::Tray(j), c);
                        q += 1;
                        proof {
                            assert(pre.trays[j as int] ==
                                rem.trays[j as int] + run.subrange(0, q - 1));
                            assert(run.subrange(0, q - 1).push(run[q - 1]) =~=
                                run.subrange(0, q as int));
                            assert(pre.trays[j as int].push(run[q - 1]) =~=
                                rem.trays[j as int] + run.subrange(0, q as int));
                            assert(board.board().trays =~~= rem.trays.update(
                                j as int,
                                rem.trays[j as int] + run.subrange(0, q as int),
                            ));
                        }
                    }
                    proof {
                        assert(run.subrange(0, k as int) =~= run);
                        assert(rem.trays[j as int] + run.subrange(0, k as int) =~=
                            rem.trays[j as int] + run);
                        assert(board.board() =~~= after_transfer(m0, loc, dst));
                    }
                }
            }
        }
    }
}

/// Validate and execute a completed move request: resolve the source
/// run's base card, test it against the engine's destination-legality
/// rule, and — only when legal — transfer the run and trigger the
/// engine's auto-completion step. Rejection mutates nothing. The total
/// number of cards in the game is conserved either way.
pub fn execute<E: Engine>(board: &mut E, source: Location, dst: Slot) -> (r: Result<(), MoveError>)
    requires
        wf(old(board).board()),
        loc_live(old(board).board(), source),
        slot_ok(dst),
    ensures
        wf(final(board).board()),
        total_cards(final(board).board()) == total_cards(old(board).board()),
        r is Err <==> move_rejected::<E>(old(board).board(), source, dst),
        r is Err ==> final(board).board() == old(board).board()
            && r == Err::<(), MoveError>(MoveError::IllegalDestination),
        r is Ok ==> auto_post::<E>(after_transfer(old(board).board(), source, dst), final(board).board()),
{
    let base: Card;
    let k: usize;
    match source {
        Location::Spare(i) => {
            base = board.card_at(Slot::Spare(i), 0).unwrap();
            k = 1;
        }
        Location::Tray(x, y) => {
            let len = board.count_in(Slot::Tray(x));
            base = board.card_at(Slot::Tray(x), (y as usize) - 1).unwrap();
            k = len - (y as usize) + 1;
        }
    }
    proof {
        assert(base == base_card(board.board(), source));
        assert(run_of(board.board(), source).len() == k);
    }
    let spare_dst = matches!(dst, Slot::Spare(_));
    if !board.appendable(dst, base) || (spare_dst && k != 1) {
        Err(MoveError::IllegalDestination)
    } else {
        transfer_run(board, source, dst);
        board.auto_complete();
        Ok(())
    }
}

/// Handle one key event: clear the transient notice, then apply the
/// selection state machine's transition for the current state, executing
/// a completed move or dragon collection against the engine. Total over
/// every state, key and board; never panics; conserves the total number
/// of cards in the game.
pub fn change_board_state<E: Engine>(
    board: &mut E,
    state: &mut BoardState,
    info: &mut Option<Notice>,
    key: Key,
)
    requires
        wf(old(board).board()),
    ensures
        wf(final(board).board()),
        total_cards(final(board).board()) == total_cards(old(board).board()),
        machine_rel::<E>(
            old(board).board(),
            *old(state),
            key,
            final(board).board(),
            *final(state),
            *final(info),
        ),
{
    *info = None;
    let st = *state;
    match st {
        BoardState::View => {
            match key_to_slot(key) {
                Ok(Slot::Spare(i)) => {
                    *state = BoardState::Pickup(Location::Spare(i));
                }
                Ok(Slot::Tray(i)) => {
                    *state = BoardState::SemiPickup(i);
                }
                Err(_) => {
                    if matches!(key, Key::Char('d')) {
                        *state = BoardState::CollectDragon;
                    }
                }
            }
        }
        BoardState::CollectDragon => {
            if matches!(key, Key::Esc) {
                *state = BoardState::View;
            } else {
                let color = match key {
                    Key::Char('g') => Some(DragonCard::Green),
                    Key::Char('w') => Some(DragonCard::White),
                    Key::Char('r') => Some(DragonCard::Red),
                    _ => None,
                };
                match color {
                    None => {}
                    Some(c) => {
                        if board.collect_dragon(c) {
                            *state = BoardState::View;
                        } else {
                            *info = Some(Notice::CannotCollectDragon);
                        }
                    }
                }
            }
        }
        BoardState::SemiPickup(x) => {
            if matches!(key, Key::Esc) {
                *state = BoardState::View;
            } else if let Key::Char(c) = key {
                let v = c as u32;
                if 48 <= v && v <= 57 {
                    let n = (v - 48) as u8;
                    if x < 8 {
                        let len = board.count_in(Slot::Tray(x));
                        if n != 0 && (n as usize) <= len {
                            let mut i: usize = n as usize;
                            let mut good = true;
                            while i < len && good
                                invariant
                                    wf(board.board()),
                                    x < 8,
                                    1 <= n,
                                    (n as int) <= i,
                                    i <= len,
                                    len == board.board().trays[x as int].len(),
                                    good ==> forall|q: int| n <= q < i ==> #[trigger] E::stack_ok(
                                        board.board().trays[x as int][q],
                                        board.board().trays[x as int][q - 1],
                                    ),
                                    !good ==> !run_good::<E>(board.board(), x as int, n as int),
                                decreases len - i + (if good { 1int } else { 0int }),
                            {
                                let upper = board.card_at(Slot::Tray(x), i).unwrap();
                                let lower = board.card_at(Slot::Tray(x), i - 1).unwrap();
                                if board.stacking_base_ok(upper, lower) {
                                    i += 1;
                                } else {
                                    good = false;
                                }
                            }
                            if good {
                                *state = BoardState::Pickup(Location::Tray(x, n));
                            } else {
                                *info = Some(Notice::NotAValidStack);
                            }
                        }
                    }
                }
            }
        }
        BoardState::Pickup(loc) => {
            if matches!(key, Key::Esc) {
                *state = BoardState::View;
            } else {
                match key_to_slot(key) {
                    Err(_) => {}
                    Ok(dst) => {
                        let live = match loc {
                            Location::Spare(i) => i < 3 && board.count_in(Slot::Spare(i)) == 1,
                            Location::Tray(x, y) => x < 8 && y >= 1
                                && (y as usize) <= board.count_in(Slot::Tray(x)),
                        };
                        if live {
                            match execute(board, loc, dst) {
                                Ok(()) => {
                                    *state = BoardState::View;
                                }
                                Err(MoveError::IllegalDestination) => {
                                    *info = Some(Notice::CannotStackOntoThat);
                                    *state = BoardState::View;
                                }
                            }
                        }
                    }
                }
            }
        }
    }
}

} // verus!
