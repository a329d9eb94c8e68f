//! The abstract card-engine capability: a mathematical model of the board
//! and a trait giving the narrow interface the selection protocol consumes.
//!
//! The engine owns the authoritative board state and the legality rules
//! (stacking compatibility, destination legality, dragon collection,
//! auto-completion). The selection state machine is verified against the
//! contracts here alone, so any implementation satisfying them can sit
//! behind it.

use vstd::prelude::*;
use vstd::multiset::Multiset;
use crate::card::{Card, DragonCard, NumberCard, suit_index};
use crate::index::{Slot, slot_ok};

verus! {

/// The mathematical state of a board: three spare cells (each holding at
/// most one card), their "collected dragon group" marks, eight tray
/// columns (bottom to top), the flower slot, and the three per-suit
/// completion-pile heights.
#[verifier::ext_equal]
pub struct BoardModel {
    pub spares: Seq<Option<Card>>,
    pub collected: Seq<bool>,
    pub trays: Seq<Seq<Card>>,
    pub flower: bool,
    pub outs: Seq<nat>,
}

/// Structural well-formedness of a board model: the container counts are
/// fixed, and a spare marked as holding a collected dragon group holds no
/// loose card.
pub open spec fn wf(m: BoardModel) -> bool {
    &&& m.spares.len() == 3
    &&& m.collected.len() == 3
    &&& m.trays.len() == 8
    &&& m.outs.len() == 3
    &&& forall|i: int| 0 <= i < 3 && m.collected[i] ==> m.spares[i] is None
}

/// Number of cards a spare cell holds (0 or 1).
pub open spec fn spare_count(m: BoardModel, i: int) -> int {
    if m.spares[i] is Some { 1int } else { 0int }
}

/// Number of cards currently in a slot.
pub open spec fn count_of(m: BoardModel, s: Slot) -> int {
    match s {
        Slot::Spare(i) => spare_count(m, i as int),
        Slot::Tray(i) => m.trays[i as int].len() as int,
    }
}

/// The card at a 0-based depth in a slot, if that position is occupied.
pub open spec fn card_at_spec(m: BoardModel, s: Slot, depth: int) -> Option<Card> {
    match s {
        Slot::Spare(i) => if depth == 0 { m.spares[i as int] } else { None },
        Slot::Tray(i) => if 0 <= depth < m.trays[i as int].len() {
            Some(m.trays[i as int][depth])
        } else {
            None
        },
    }
}

/// The topmost card of a non-empty slot.
pub open spec fn top_of(m: BoardModel, s: Slot) -> Card {
    match s {
        Slot::Spare(i) => m.spares[i as int]->0,
        Slot::Tray(i) => m.trays[i as int].last(),
    }
}

/// The model after the topmost card of a non-empty slot is removed.
pub open spec fn remove_top_model(m: BoardModel, s: Slot) -> BoardModel {
    match s {
        Slot::Spare(i) => BoardModel { spares: m.spares.update(i as int, None), ..m },
        Slot::Tray(i) => BoardModel {
            trays: m.trays.update(i as int, m.trays[i as int].drop_last()),
            ..m
        },
    }
}

/// The model after a card is appended on top of a slot.
pub open spec fn place_model(m: BoardModel, s: Slot, c: Card) -> BoardModel {
    match s {
        Slot::Spare(i) => BoardModel { spares: m.spares.update(i as int, Some(c)), ..m },
        Slot::Tray(i) => BoardModel {
            trays: m.trays.update(i as int, m.trays[i as int].push(c)),
            ..m
        },
    }
}

/// Total number of cards still sitting in slots (spares and trays).
pub open spec fn slot_total(m: BoardModel) -> int {
    spare_count(m, 0) + spare_count(m, 1) + spare_count(m, 2)
        + m.trays[0].len() + m.trays[1].len() + m.trays[2].len() + m.trays[3].len()
        + m.trays[4].len() + m.trays[5].len() + m.trays[6].len() + m.trays[7].len()
}

/// Cards inside collected dragon groups (four per collected mark).
pub open spec fn collected_total(m: BoardModel) -> int {
    (if m.collected[0] { 4int } else { 0int })
        + (if m.collected[1] { 4int } else { 0int })
        + (if m.collected[2] { 4int } else { 0int })
}

/// Cards no longer in any slot: completion piles, the flower slot, and
/// collected dragon groups.
pub open spec fn off_total(m: BoardModel) -> int {
    m.outs[0] + m.outs[1] + m.outs[2] + (if m.flower { 1int } else { 0int })
        + collected_total(m)
}

/// Every card of the game, wherever it sits. A freshly dealt board makes
/// this 40 and every engine operation preserves it.
pub open spec fn total_cards(m: BoardModel) -> int {
    slot_total(m) + off_total(m)
}

/// A freshly dealt board: empty spares, nothing collected, no flower, no
/// completion progress, and eight columns of five cards.
pub open spec fn fresh_deal(m: BoardModel) -> bool {
    &&& forall|i: int| 0 <= i < 3 ==> m.spares[i] is None
    &&& forall|i: int| 0 <= i < 3 ==> !m.collected[i]
    &&& !m.flower
    &&& forall|i: int| 0 <= i < 3 ==> m.outs[i] == 0
    &&& forall|i: int| 0 <= i < 8 ==> m.trays[i].len() == 5
}


/// The number cards of ranks 1..=r: three suits of each rank, in rank
/// order.
pub open spec fn number_run(r: int) -> Seq<Card>
    decreases r,
{
    if r <= 0 {
        Seq::empty()
    } else {
        number_run(r - 1) + seq![
            Card::Number(NumberCard::Bamboo, r as u8),
            Card::Number(NumberCard::Characters, r as u8),
            Card::Number(NumberCard::Coin, r as u8),
        ]
    }
}

/// k dragons of each color.
pub open spec fn dragon_run(k: int) -> Seq<Card>
    decreases k,
{
    if k <= 0 {
        Seq::empty()
    } else {
        dragon_run(k - 1) + seq![
            Card::Dragon(DragonCard::Green),
            Card::Dragon(DragonCard::White),
            Card::Dragon(DragonCard::Red),
        ]
    }
}

/// The game's deck in one fixed order: the 27 number cards, the 12
/// dragons, the flower.
pub open spec fn deck_seq() -> Seq<Card> {
    number_run(9) + dragon_run(4) + seq![Card::Flower]
}

/// The game's 40 cards as an unordered collection: each suit's ranks
/// 1..=9 once, four dragons of each color, one flower.
pub open spec fn full_deck() -> Multiset<Card> {
    deck_seq().to_multiset()
}

/// All cards in the eight tray columns together.
pub open spec fn tray_multiset(m: BoardModel) -> Multiset<Card> {
    m.trays[0].to_multiset().add(m.trays[1].to_multiset()).add(m.trays[2].to_multiset())
        .add(m.trays[3].to_multiset()).add(m.trays[4].to_multiset()).add(m.trays[5].to_multiset())
        .add(m.trays[6].to_multiset()).add(m.trays[7].to_multiset())
}

/// `a` is an initial segment of `b`.
pub open spec fn prefix_of(a: Seq<Card>, b: Seq<Card>) -> bool {
    a.len() <= b.len() && forall|i: int| 0 <= i < a.len() ==> a[i] == b[i]
}


/// Relates a board to what an auto-completion step may turn it into: the
/// step only lifts cards off tray tops and out of spares, into the flower
/// slot or the completion piles.
pub open spec fn auto_shrinks(pre: BoardModel, post: BoardModel) -> bool {
    &&& post.collected == pre.collected
    &&& forall|i: int| 0 <= i < 8 ==> prefix_of(post.trays[i], pre.trays[i])
    &&& forall|i: int| 0 <= i < 3 ==> post.spares[i] == pre.spares[i] || post.spares[i] is None
    &&& forall|i: int| 0 <= i < 3 ==> post.outs[i] >= pre.outs[i]
    &&& pre.flower ==> post.flower
}

/// A card that engine E's auto-completion rule accepts on no board at
/// all: it can never be banked.
pub open spec fn never_banked<E: Engine>(c: Card) -> bool {
    forall|m: BoardModel| !(#[trigger] E::auto_eligible_spec(m, c))
}

/// Nothing is left for engine E's auto-completion: no exposed spare or
/// tray-top card is eligible.
pub open spec fn auto_done<E: Engine>(m: BoardModel) -> bool {
    &&& forall|i: int| 0 <= i < 3 && (#[trigger] m.spares[i]) is Some
        ==> !E::auto_eligible_spec(m, m.spares[i]->0)
    &&& forall|i: int| 0 <= i < 8 && (#[trigger] m.trays[i]).len() > 0
        ==> !E::auto_eligible_spec(m, m.trays[i].last())
}

/// What engine E's auto-completion call promises, gathered in one
/// predicate: eligible cards were banked until no exposed one is left
/// (so a second call changes nothing); cards only left tray tops and
/// spares; no card appeared or vanished; and a card the rule can never
/// bank sits exactly where it was — its spare cell keeps it, and a
/// column it tops is untouched.
pub open spec fn auto_post<E: Engine>(pre: BoardModel, post: BoardModel) -> bool {
    &&& total_cards(post) == total_cards(pre)
    &&& auto_shrinks(pre, post)
    &&& auto_done::<E>(post)
    &&& forall|i: int| 0 <= i < 3 && (#[trigger] pre.spares[i]) is Some
            && never_banked::<E>(pre.spares[i]->0) ==> post.spares[i] == pre.spares[i]
    &&& forall|i: int| 0 <= i < 8 && (#[trigger] pre.trays[i]).len() > 0
            && never_banked::<E>(pre.trays[i].last()) ==> post.trays[i] == pre.trays[i]
}

/// The narrow capability the selection protocol consumes from the card
/// engine. The legality rules themselves (`stack_ok`, `appendable_spec`,
/// `dragon_ok`) are the implementation's own; the protocol only relies on
/// the executable methods agreeing with them as stated here.
pub trait Engine: Sized {
    /// The mathematical board this engine currently holds.
    spec fn board(&self) -> BoardModel;

    /// The engine's stacking-compatibility rule: may `upper` rest
    /// directly on `lower` inside a tray run?
    spec fn stack_ok(upper: Card, lower: Card) -> bool;

    /// The engine's destination-legality rule: may `card` be placed onto
    /// `dst` as currently occupied?
    spec fn appendable_spec(m: BoardModel, dst: Slot, card: Card) -> bool;

    /// The engine's dragon-collection rule: does collecting `color`
    /// succeed on board `m`?
    spec fn dragon_ok(m: BoardModel, color: DragonCard) -> bool;

    /// The engine's auto-completion eligibility rule: may this card be
    /// banked right now, into the flower slot or a completion pile?
    spec fn auto_eligible_spec(m: BoardModel, c: Card) -> bool;

    /// Deal a fresh board; the seed drives the shuffle. The eight
    /// columns together hold exactly the game's 40 cards.
    fn new_game(seed: u64) -> (e: Self)
        ensures
            wf(e.board()),
            fresh_deal(e.board()),
            tray_multiset(e.board()) == full_deck(),
    ;

    /// Number of cards currently in a slot.
    fn count_in(&self, s: Slot) -> (r: usize)
        requires
            wf(self.board()),
            slot_ok(s),
        ensures
            r == count_of(self.board(), s),
    ;

    /// The card at a 0-based depth in a slot, if occupied.
    fn card_at(&self, s: Slot, depth: usize) -> (r: Option<Card>)
        requires
            wf(self.board()),
            slot_ok(s),
        ensures
            r == card_at_spec(self.board(), s, depth as int),
    ;

    /// Whether `upper` may legally rest directly on `lower`.
    fn stacking_base_ok(&self, upper: Card, lower: Card) -> (r: bool)
        ensures
            r == Self::stack_ok(upper, lower),
    ;

    /// Whether `card` may legally be placed onto `dst` now. A spare cell
    /// holds at most one card, so legality of a spare destination always
    /// implies the spare is empty and not collected.
    fn appendable(&self, dst: Slot, card: Card) -> (r: bool)
        requires
            wf(self.board()),
            slot_ok(dst),
        ensures
            r == Self::appendable_spec(self.board(), dst, card),
            dst matches Slot::Spare(i) ==> (r ==> self.board().spares[i as int] is None
                && !self.board().collected[i as int]),
    ;

    /// Remove and return the topmost card of a non-empty slot.
    fn remove_top(&mut self, s: Slot) -> (c: Card)
        requires
            wf(old(self).board()),
            slot_ok(s),
            count_of(old(self).board(), s) > 0,
        ensures
            wf(final(self).board()),
            c == top_of(old(self).board(), s),
            final(self).board() == remove_top_model(old(self).board(), s),
    ;

    /// Append a card on top of a slot; a spare destination must be empty
    /// and not collected.
    fn place(&mut self, s: Slot, c: Card)
        requires
            wf(old(self).board()),
            slot_ok(s),
            s matches Slot::Spare(i) ==> old(self).board().spares[i as int] is None
                && !old(self).board().collected[i as int],
        ensures
            wf(final(self).board()),
            final(self).board() == place_model(old(self).board(), s, c),
    ;

    /// Opportunistically advance now-completable cards to the flower slot
    /// and the completion piles, until no exposed card is eligible any
    /// more. Each step banks one card that the eligibility rule accepts;
    /// nothing else moves, no card appears or vanishes, and on return no
    /// exposed spare or tray-top card is still eligible (so a second
    /// call changes nothing).
    fn auto_complete(&mut self)
        requires
            wf(old(self).board()),
        ensures
            wf(final(self).board()),
            total_cards(final(self).board()) == total_cards(old(self).board()),
            auto_shrinks(old(self).board(), final(self).board()),
            forall|i: int| 0 <= i < 3 && (#[trigger] final(self).board().spares[i]) is Some
                ==> !Self::auto_eligible_spec(
                    final(self).board(),
                    final(self).board().spares[i]->0,
                ),
            forall|i: int| 0 <= i < 8 && (#[trigger] final(self).board().trays[i]).len() > 0
                ==> !Self::auto_eligible_spec(
                    final(self).board(),
                    final(self).board().trays[i].last(),
                ),
            forall|i: int| 0 <= i < 3 && (#[trigger] old(self).board().spares[i]) is Some
                && (forall|m: BoardModel| !(#[trigger] Self::auto_eligible_spec(
                    m,
                    old(self).board().spares[i]->0,
                ))) ==> final(self).board().spares[i] == old(self).board().spares[i],
            forall|i: int| 0 <= i < 8 && (#[trigger] old(self).board().trays[i]).len() > 0
                && (forall|m: BoardModel| !(#[trigger] Self::auto_eligible_spec(
                    m,
                    old(self).board().trays[i].last(),
                ))) ==> final(self).board().trays[i] == old(self).board().trays[i],
    ;

    /// Attempt to collect the four dragons of a color. Returns exactly
    /// whether the engine's collection rule holds; failure mutates
    /// nothing, success removes the four dragons from spares and tray
    /// tops and marks one spare as holding the collected group.
    fn collect_dragon(&mut self, color: DragonCard) -> (r: bool)
        requires
            wf(old(self).board()),
        ensures
            wf(final(self).board()),
            r == Self::dragon_ok(old(self).board(), color),
            !r ==> final(self).board() == old(self).board(),
            r ==> total_cards(final(self).board()) == total_cards(old(self).board()),
            r ==> slot_total(final(self).board()) == slot_total(old(self).board()) - 4,
            r ==> final(self).board().outs == old(self).board().outs
                && final(self).board().flower == old(self).board().flower,
            r ==> forall|i: int| 0 <= i < 8 ==> final(self).board().trays[i]
                == old(self).board().trays[i]
                || (final(self).board().trays[i] == old(self).board().trays[i].drop_last()
                    && old(self).board().trays[i].last() == Card::Dragon(color)),
            r ==> forall|i: int| 0 <= i < 3 ==> final(self).board().spares[i]
                == old(self).board().spares[i]
                || (final(self).board().spares[i] is None
                    && old(self).board().spares[i] == Some(Card::Dragon(color))),
            r ==> exists|j: int| 0 <= j < 3 && !old(self).board().collected[j]
                && final(self).board().collected == old(self).board().collected.update(j, true),
    ;

    /// Whether a spare cell holds a collected dragon group.
    fn is_spare_collected(&self, i: usize) -> (r: bool)
        requires
            wf(self.board()),
            i < 3,
        ensures
            r == self.board().collected[i as int],
    ;

    /// Whether the flower card has been banked.
    fn flower(&self) -> (r: bool)
        ensures
            r == self.board().flower,
    ;

    /// The height of a suit's completion pile: the highest rank banked.
    fn out_height(&self, suit: NumberCard) -> (r: u8)
        requires
            wf(self.board()),
        ensures
            r as nat == self.board().outs[suit_index(suit)],
    ;

    /// Total cards not yet on completion piles, in the flower slot or in
    /// a collected group; the game is won when this reaches zero.
    fn remaining_card_count(&self) -> (r: usize)
        requires
            wf(self.board()),
            slot_total(self.board()) <= usize::MAX,
        ensures
            r == slot_total(self.board()),
    ;
}

} // verus!
