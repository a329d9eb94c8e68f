//! A deterministic, fully verified card engine: number cards stack in
//! descending rank on a different suit, a spare cell parks one loose
//! card, collecting a dragon color needs all four of its dragons exposed
//! plus a spare to hold the group, and auto-completion banks the flower
//! and the next low-ranked number cards after every move.

use vstd::prelude::*;
use crate::card::{Card, DragonCard, NumberCard, suit_index};
use crate::index::Slot;
use vstd::multiset::Multiset;
use crate::engine::{
    BoardModel, Engine, auto_shrinks, collected_total, deck_seq, dragon_run, full_deck,
    number_run, place_model, remove_top_model, slot_total, total_cards, tray_multiset, wf,
};

verus! {

/// The cards of the first n columns, together.
pub open spec fn cols_multiset_upto(ts: Seq<Vec<Card>>, n: int) -> Multiset<Card>
    decreases n,
{
    if n <= 0 {
        Multiset::empty()
    } else {
        cols_multiset_upto(ts, n - 1).add(ts[n - 1]@.to_multiset())
    }
}

/// The first n columns decide `cols_multiset_upto`; appending more does
/// not change it.
proof fn lemma_cols_upto_push(ts: Seq<Vec<Card>>, v: Vec<Card>, n: int)
    requires
        0 <= n <= ts.len(),
    ensures
        cols_multiset_upto(ts.push(v), n) == cols_multiset_upto(ts, n),
    decreases n,
{
    if n > 0 {
        lemma_cols_upto_push(ts, v, n - 1);
        assert(ts.push(v)[n - 1] == ts[n - 1]);
    }
}

/// Whether an optional card is exactly the given card.
fn opt_is(o: Option<Card>, c: Card) -> (r: bool)
    ensures
        r == (o == Some(c)),
{
    match o {
        Some(x) => x == c,
        None => false,
    }
}

/// Overwrite one element of a vector.
fn vec_put<T>(v: &mut Vec<T>, i: usize, x: T)
    requires
        i < old(v)@.len(),
    ensures
        final(v)@ == old(v)@.update(i as int, x),
{
    let _ = v.remove(i);
    v.insert(i, x);
    proof {
        assert(v@ =~= old(v)@.update(i as int, x));
    }
}

/// Board storage of the standard engine.
#[derive(Clone)]
pub struct StandardEngine {
    spares: Vec<Option<Card>>,
    collected: Vec<bool>,
    trays: Vec<Vec<Card>>,
    flower: bool,
    outs: Vec<u8>,
}

/// 1 when spare `i` holds the dragon of color `c`, else 0.
pub open spec fn spare_dragon(m: BoardModel, i: int, c: DragonCard) -> int {
    if m.spares[i] == Some(Card::Dragon(c)) { 1int } else { 0int }
}

/// 1 when tray `i`'s top card is the dragon of color `c`, else 0.
pub open spec fn tray_top_dragon(m: BoardModel, i: int, c: DragonCard) -> int {
    if m.trays[i].len() > 0 && m.trays[i].last() == Card::Dragon(c) { 1int } else { 0int }
}

/// How many dragons of color `c` are exposed: in a spare or on a tray top.
pub open spec fn exposed_dragons(m: BoardModel, c: DragonCard) -> int {
    spare_dragon(m, 0, c) + spare_dragon(m, 1, c) + spare_dragon(m, 2, c)
        + tray_top_dragon(m, 0, c) + tray_top_dragon(m, 1, c) + tray_top_dragon(m, 2, c)
        + tray_top_dragon(m, 3, c) + tray_top_dragon(m, 4, c) + tray_top_dragon(m, 5, c)
        + tray_top_dragon(m, 6, c) + tray_top_dragon(m, 7, c)
}

/// Whether spare `i` can receive the collected group of color `c`: it
/// already holds one of the dragons, or it is empty and not collected.
pub open spec fn dragon_home(m: BoardModel, i: int, c: DragonCard) -> bool {
    m.spares[i] == Some(Card::Dragon(c)) || (m.spares[i] is None && !m.collected[i])
}

/// Whether a card may be banked by auto-completion right now: the flower
/// (once), or a number card of rank 1 or 2 that is next on its suit's
/// completion pile.
pub open spec fn auto_eligible(m: BoardModel, c: Card) -> bool {
    match c {
        Card::Flower => !m.flower,
        Card::Number(s, r) => 1 <= r <= 2 && m.outs[suit_index(s)] == r - 1,
        Card::Dragon(_) => false,
    }
}

/// Whether no board at all makes this card auto-bankable: dragons and
/// number cards above rank 2 are never banked automatically.
pub open spec fn never_auto(c: Card) -> bool {
    forall|m: BoardModel| !(#[trigger] auto_eligible(m, c))
}

/// No exposed spare or tray-top card is auto-bankable on this board.
pub open spec fn auto_fixpoint(m: BoardModel) -> bool {
    &&& forall|i: int| 0 <= i < 3 && (#[trigger] m.spares[i]) is Some
        ==> !auto_eligible(m, m.spares[i]->0)
    &&& forall|i: int| 0 <= i < 8 && (#[trigger] m.trays[i]).len() > 0
        ==> !auto_eligible(m, m.trays[i].last())
}

/// The model after an auto-eligible card is banked: the flower slot is
/// filled, or its suit's completion pile grows by one.
pub open spec fn banked(m: BoardModel, c: Card) -> BoardModel {
    match c {
        Card::Flower => BoardModel { flower: true, ..m },
        Card::Number(s, r) => BoardModel {
            outs: m.outs.update(suit_index(s), (m.outs[suit_index(s)] + 1) as nat),
            ..m
        },
        Card::Dragon(_) => m,
    }
}

impl StandardEngine {
    /// Build a board with the given spare cells and tray columns, nothing
    /// collected, no flower, and empty completion piles. Intended for
    /// setting up known positions.
    pub fn from_parts(spares: Vec<Option<Card>>, trays: Vec<Vec<Card>>) -> (e: Self)
        requires
            spares@.len() == 3,
            trays@.len() == 8,
        ensures
            wf(e.board()),
            e.board().spares == spares@,
            forall|i: int| 0 <= i < 8 ==> e.board().trays[i] == trays@[i]@,
            forall|i: int| 0 <= i < 3 ==> !e.board().collected[i],
            !e.board().flower,
            forall|i: int| 0 <= i < 3 ==> e.board().outs[i] == 0,
    {
        let mut collected: Vec<bool> = Vec::new();
        collected.push(false);
        collected.push(false);
        collected.push(false);
        let mut outs: Vec<u8> = Vec::new();
        outs.push(0);
        outs.push(0);
        outs.push(0);
        StandardEngine { spares, collected, trays, flower: false, outs }
    }

    /// The top card of a tray column, if any.
    fn top_of_tray(&self, x: usize) -> (r: Option<Card>)
        requires
            x < self.trays@.len(),
        ensures
            r == if self.trays@[x as int]@.len() > 0 {
                Some(self.trays@[x as int]@.last())
            } else {
                None::<Card>
            },
    {
        let col = &self.trays[x];
        let n = col.len();
        if n > 0 {
            Some(col[n - 1])
        } else {
            None
        }
    }

    /// Remove the top card of a non-empty tray column.
    fn pop_tray(&mut self, x: usize) -> (c: Card)
        requires
            x < old(self).trays@.len(),
            old(self).trays@[x as int]@.len() > 0,
        ensures
            final(self).spares == old(self).spares,
            final(self).collected == old(self).collected,
            final(self).flower == old(self).flower,
            final(self).outs == old(self).outs,
            final(self).trays@.len() == old(self).trays@.len(),
            final(self).trays@[x as int]@ == old(self).trays@[x as int]@.drop_last(),
            forall|j: int| 0 <= j < old(self).trays@.len() && j != x ==>
                final(self).trays@[j] == old(self).trays@[j],
            c == old(self).trays@[x as int]@.last(),
    {
        let ghost t0 = self.trays@;
        let mut col = self.trays.remove(x);
        let c = col.pop().unwrap();
        let ghost colg = col;
        self.trays.insert(x, col);
        proof {
            assert(self.trays@ =~= t0.update(x as int, colg));
        }
        c
    }

    /// Bank an auto-eligible card into the flower slot or a completion
    /// pile.
    fn bank(&mut self, c: Card)
        requires
            wf(old(self).board()),
            auto_eligible(old(self).board(), c),
        ensures
            final(self).board() == banked(old(self).board(), c),
            final(self).spares == old(self).spares,
            final(self).collected == old(self).collected,
            final(self).trays == old(self).trays,
    {
        match c {
            Card::Flower => {
                self.flower = true;
                proof {
                    assert(self.board() =~~= banked(old(self).board(), c));
                }
            }
            Card::Number(s, r) => {
                let si = match s {
                    NumberCard::Bamboo => 0usize,
                    NumberCard::Characters => 1usize,
                    NumberCard::Coin => 2usize,
                };
                let prev = self.outs[si];
                vec_put(&mut self.outs, si, prev + 1);
                proof {
                    assert(self.board().outs =~=
                        old(self).board().outs.update(suit_index(s),
                            (old(self).board().outs[suit_index(s)] + 1) as nat));
                    assert(self.board() =~~= banked(old(self).board(), c));
                }
            }
            Card::Dragon(_) => {}
        }
    }

    /// One auto-completion step: bank the first eligible exposed card, if
    /// any; report a fixpoint otherwise.
    fn auto_step(&mut self) -> (moved: bool)
        requires
            wf(old(self).board()),
        ensures
            wf(final(self).board()),
            total_cards(final(self).board()) == total_cards(old(self).board()),
            auto_shrinks(old(self).board(), final(self).board()),
            moved ==> slot_total(final(self).board()) == slot_total(old(self).board()) - 1,
            moved ==> forall|i: int| 0 <= i < 3 ==>
                (#[trigger] final(self).board().spares[i]) == old(self).board().spares[i]
                || (final(self).board().spares[i] is None
                    && old(self).board().spares[i] is Some
                    && auto_eligible(old(self).board(), old(self).board().spares[i]->0)),
            moved ==> forall|i: int| 0 <= i < 8 ==>
                (#[trigger] final(self).board().trays[i]) == old(self).board().trays[i]
                || (old(self).board().trays[i].len() > 0
                    && final(self).board().trays[i] == old(self).board().trays[i].drop_last()
                    && auto_eligible(old(self).board(), old(self).board().trays[i].last())),
            !moved ==> final(self).board() == old(self).board()
                && auto_fixpoint(old(self).board()),
    {
        let mut j: usize = 0;
        while j < 3
            invariant
                wf(self.board()),
                *self == *old(self),
                j <= 3,
                forall|q: int| 0 <= q < j && (#[trigger] self.board().spares[q]) is Some
                    ==> !auto_eligible(self.board(), self.board().spares[q]->0),
            decreases 3 - j,
        {
            if let Some(c) = self.spares[j] {
                if self.auto_ok(c) {
                    let ghost pre = self.board();
                    self.bank(c);
                    vec_put(&mut self.spares, j, None);
                    proof {
                        assert(self.board().spares =~=
                            pre.spares.update(j as int, None::<Card>));
                        assert(auto_shrinks(old(self).board(), self.board()));
                    }
                    return true;
                }
            }
            j += 1;
        }
        let mut x: usize = 0;
        while x < 8
            invariant
                wf(self.board()),
                *self == *old(self),
                x <= 8,
                forall|q: int| 0 <= q < 3 && (#[trigger] self.board().spares[q]) is Some
                    ==> !auto_eligible(self.board(), self.board().spares[q]->0),
                forall|q: int| 0 <= q < x && (#[trigger] self.board().trays[q]).len() > 0
                    ==> !auto_eligible(self.board(), self.board().trays[q].last()),
            decreases 8 - x,
        {
            if let Some(c) = self.top_of_tray(x) {
                if self.auto_ok(c) {
                    let ghost pre = self.board();
                    self.bank(c);
                    let _ = self.pop_tray(x);
                    proof {
                        assert(self.board().trays =~= pre.trays.update(
                            x as int,
                            pre.trays[x as int].drop_last(),
                        ));
                        assert(auto_shrinks(old(self).board(), self.board()));
                    }
                    return true;
                }
            }
            x += 1;
        }
        proof {
            assert(auto_fixpoint(self.board()));
        }
        false
    }


    /// How many dragons of `color` are exposed right now.
    fn count_exposed(&self, color: DragonCard) -> (n: usize)
        requires
            wf(self.board()),
        ensures
            n == exposed_dragons(self.board(), color),
    {
        let d = Card::Dragon(color);
        let mut n: usize = 0;
        if opt_is(self.spares[0], d) { n += 1; }
        if opt_is(self.spares[1], d) { n += 1; }
        if opt_is(self.spares[2], d) { n += 1; }
        if opt_is(self.top_of_tray(0), d) { n += 1; }
        if opt_is(self.top_of_tray(1), d) { n += 1; }
        if opt_is(self.top_of_tray(2), d) { n += 1; }
        if opt_is(self.top_of_tray(3), d) { n += 1; }
        if opt_is(self.top_of_tray(4), d) { n += 1; }
        if opt_is(self.top_of_tray(5), d) { n += 1; }
        if opt_is(self.top_of_tray(6), d) { n += 1; }
        if opt_is(self.top_of_tray(7), d) { n += 1; }
        n
    }

    /// The spare cell that would receive the collected group of `color`,
    /// or 3 when no spare can.
    fn find_home(&self, color: DragonCard) -> (h: usize)
        requires
            wf(self.board()),
        ensures
            h <= 3,
            h < 3 ==> dragon_home(self.board(), h as int, color)
                && !self.board().collected[h as int],
            h == 3 ==> !dragon_home(self.board(), 0, color)
                && !dragon_home(self.board(), 1, color)
                && !dragon_home(self.board(), 2, color),
    {
        let d = Card::Dragon(color);
        if opt_is(self.spares[0], d) {
            0
        } else if opt_is(self.spares[1], d) {
            1
        } else if opt_is(self.spares[2], d) {
            2
        } else if self.spares[0].is_none() && !self.collected[0] {
            0
        } else if self.spares[1].is_none() && !self.collected[1] {
            1
        } else if self.spares[2].is_none() && !self.collected[2] {
            2
        } else {
            3
        }
    }

    /// Empty every spare cell that holds the dragon of `color`.
    fn strip_spares(&mut self, color: DragonCard)
        requires
            old(self).spares@.len() == 3,
        ensures
            final(self).spares@.len() == 3,
            forall|j: int| 0 <= j < 3 ==> final(self).spares@[j] ==
                (if old(self).spares@[j] == Some(Card::Dragon(color)) {
                    None::<Card>
                } else {
                    old(self).spares@[j]
                }),
            final(self).collected == old(self).collected,
            final(self).trays == old(self).trays,
            final(self).flower == old(self).flower,
            final(self).outs == old(self).outs,
    {
        let d = Card::Dragon(color);
        if opt_is(self.spares[0], d) { vec_put(&mut self.spares, 0, None); }
        if opt_is(self.spares[1], d) { vec_put(&mut self.spares, 1, None); }
        if opt_is(self.spares[2], d) { vec_put(&mut self.spares, 2, None); }
    }

    /// Pop the dragon of `color` off every tray column it tops.
    #[verifier::rlimit(50)]
    fn strip_trays(&mut self, color: DragonCard)
        requires
            old(self).trays@.len() == 8,
        ensures
            final(self).trays@.len() == 8,
            forall|j: int| 0 <= j < 8 ==> final(self).trays@[j]@ ==
                (if old(self).trays@[j]@.len() > 0
                    && old(self).trays@[j]@.last() == Card::Dragon(color) {
                    old(self).trays@[j]@.drop_last()
                } else {
                    old(self).trays@[j]@
                }),
            final(self).spares == old(self).spares,
            final(self).collected == old(self).collected,
            final(self).flower == old(self).flower,
            final(self).outs == old(self).outs,
    {
        let d = Card::Dragon(color);
        if opt_is(self.top_of_tray(0), d) { let _ = self.pop_tray(0); }
        if opt_is(self.top_of_tray(1), d) { let _ = self.pop_tray(1); }
        if opt_is(self.top_of_tray(2), d) { let _ = self.pop_tray(2); }
        if opt_is(self.top_of_tray(3), d) { let _ = self.pop_tray(3); }
        if opt_is(self.top_of_tray(4), d) { let _ = self.pop_tray(4); }
        if opt_is(self.top_of_tray(5), d) { let _ = self.pop_tray(5); }
        if opt_is(self.top_of_tray(6), d) { let _ = self.pop_tray(6); }
        if opt_is(self.top_of_tray(7), d) { let _ = self.pop_tray(7); }
    }

    /// Whether a card is auto-eligible on the current board.
    fn auto_ok(&self, c: Card) -> (r: bool)
        requires
            wf(self.board()),
        ensures
            r == auto_eligible(self.board(), c),
    {
        match c {
            Card::Flower => !self.flower,
            Card::Number(s, r) => {
                let si = match s {
                    NumberCard::Bamboo => 0usize,
                    NumberCard::Characters => 1usize,
                    NumberCard::Coin => 2usize,
                };
                1 <= r && r <= 2 && self.outs[si] == r - 1
            }
            Card::Dragon(_) => false,
        }
    }
}

impl Engine for StandardEngine {
    closed spec fn board(&self) -> BoardModel {
        BoardModel {
            spares: self.spares@,
            collected: self.collected@,
            trays: Seq::new(self.trays@.len(), |i: int| self.trays@[i]@),
            flower: self.flower,
            outs: Seq::new(self.outs@.len(), |i: int| self.outs@[i] as nat),
        }
    }

    open spec fn stack_ok(upper: Card, lower: Card) -> bool {
        match (upper, lower) {
            (Card::Number(su, ru), Card::Number(sl, rl)) => su != sl && ru + 1 == rl,
            _ => false,
        }
    }

    open spec fn appendable_spec(m: BoardModel, dst: Slot, card: Card) -> bool {
        match dst {
            Slot::Spare(i) => m.spares[i as int] is None && !m.collected[i as int],
            Slot::Tray(i) => m.trays[i as int].len() == 0
                || Self::stack_ok(card, m.trays[i as int].last()),
        }
    }

    open spec fn dragon_ok(m: BoardModel, color: DragonCard) -> bool {
        exposed_dragons(m, color) == 4
            && (dragon_home(m, 0, color) || dragon_home(m, 1, color) || dragon_home(m, 2, color))
    }

    open spec fn auto_eligible_spec(m: BoardModel, c: Card) -> bool {
        auto_eligible(m, c)
    }

    fn new_game(seed: u64) -> (e: Self) {
        let mut deck: Vec<Card> = Vec::new();
        let mut r: u8 = 1;
        proof {
            assert(deck@ =~= number_run(0));
        }
        while r < 10
            invariant
                1 <= r <= 10,
                deck@ == number_run(r - 1),
                deck@.len() == 3 * (r - 1),
            decreases 10 - r,
        {
            let ghost d0 = deck@;
            deck.push(Card::Number(NumberCard::Bamboo, r));
            deck.push(Card::Number(NumberCard::Characters, r));
            deck.push(Card::Number(NumberCard::Coin, r));
            proof {
                assert(deck@ =~= d0 + seq![
                    Card::Number(NumberCard::Bamboo, r),
                    Card::Number(NumberCard::Characters, r),
                    Card::Number(NumberCard::Coin, r),
                ]);
                assert(deck@ == number_run(r as int));
            }
            r += 1;
        }
        let mut k: usize = 0;
        proof {
            assert(number_run(9) + dragon_run(0) =~= number_run(9));
        }
        while k < 4
            invariant
                k <= 4,
                deck@ == number_run(9) + dragon_run(k as int),
                deck@.len() == 27 + 3 * k,
            decreases 4 - k,
        {
            let ghost d0 = deck@;
            deck.push(Card::Dragon(DragonCard::Green));
            deck.push(Card::Dragon(DragonCard::White));
            deck.push(Card::Dragon(DragonCard::Red));
            proof {
                assert(deck@ =~= d0 + seq![
                    Card::Dragon(DragonCard::Green),
                    Card::Dragon(DragonCard::White),
                    Card::Dragon(DragonCard::Red),
                ]);
                assert(number_run(9) + dragon_run(k + 1) =~=
                    (number_run(9) + dragon_run(k as int)) + seq![
                        Card::Dragon(DragonCard::Green),
                        Card::Dragon(DragonCard::White),
                        Card::Dragon(DragonCard::Red),
                    ]);
            }
            k += 1;
        }
        deck.push(Card::Flower);
        proof {
            assert(deck@ =~= deck_seq());
            assert(deck@.len() == 40);
        }
        let mut shuffled: Vec<Card> = Vec::new();
        let mut i: usize = 0;
        proof {
            shuffled@.to_multiset_ensures();
            assert(shuffled@.to_multiset() =~= Multiset::<Card>::empty());
            assert(deck@.to_multiset() == full_deck());
            assert(shuffled@.to_multiset().add(deck@.to_multiset()) =~= full_deck());
        }
        while i < 40
            invariant
                i <= 40,
                shuffled@.len() == i,
                deck@.len() == 40 - i,
                shuffled@.to_multiset().add(deck@.to_multiset()) == full_deck(),
            decreases 40 - i,
        {
            let j = (((seed % 1000003) + (i as u64) * 101) % ((40 - i) as u64)) as usize;
            let ghost pre_deck = deck@;
            let ghost pre_sh = shuffled@;
            let c = deck.remove(j);
            shuffled.push(c);
            proof {
                pre_deck.to_multiset_ensures();
                pre_sh.to_multiset_ensures();
                assert(pre_deck[j as int] == c && pre_deck.contains(c));
                assert(pre_deck.remove(j as int).to_multiset() ==
                    pre_deck.to_multiset().remove(c));
                assert(pre_sh.push(c).to_multiset() == pre_sh.to_multiset().insert(c));
                assert(pre_deck.to_multiset().count(c) > 0);
                assert(shuffled@.to_multiset().add(deck@.to_multiset()) =~=
                    pre_sh.to_multiset().add(pre_deck.to_multiset()));
            }
            i += 1;
        }
        let mut trays: Vec<Vec<Card>> = Vec::new();
        let mut x: usize = 0;
        proof {
            deck@.to_multiset_ensures();
            assert(deck@.to_multiset() =~= Multiset::<Card>::empty());
            assert(shuffled@.to_multiset() =~= full_deck());
            assert(cols_multiset_upto(trays@, 0).add(shuffled@.to_multiset()) =~= full_deck());
        }
        while x < 8
            invariant
                x <= 8,
                trays@.len() == x,
                shuffled@.len() == 40 - 5 * x,
                forall|q: int| 0 <= q < x ==> (#[trigger] trays@[q])@.len() == 5,
                cols_multiset_upto(trays@, x as int).add(shuffled@.to_multiset()) == full_deck(),
            decreases 8 - x,
        {
            let ghost t0 = trays@;
            let ghost m_before = cols_multiset_upto(trays@, x as int);
            let mut col: Vec<Card> = Vec::new();
            let mut n: usize = 0;
            proof {
                col@.to_multiset_ensures();
                assert(col@.to_multiset() =~= Multiset::<Card>::empty());
                assert(m_before.add(col@.to_multiset()).add(shuffled@.to_multiset()) =~=
                    m_before.add(shuffled@.to_multiset()));
            }
            while n < 5
                invariant
                    n <= 5,
                    x < 8,
                    col@.len() == n,
                    shuffled@.len() == 40 - 5 * x - n,
                    m_before.add(col@.to_multiset()).add(shuffled@.to_multiset()) == full_deck(),
                decreases 5 - n,
            {
                let ghost pre_sh = shuffled@;
                let ghost pre_col = col@;
                let c = shuffled.pop().unwrap();
                col.push(c);
                proof {
                    pre_sh.to_multiset_ensures();
                    pre_col.to_multiset_ensures();
                    assert(pre_sh[pre_sh.len() - 1] == c && pre_sh.contains(c));
                    assert(pre_sh.remove(pre_sh.len() - 1) =~= pre_sh.drop_last());
                    assert(pre_sh.remove(pre_sh.len() - 1).to_multiset() ==
                        pre_sh.to_multiset().remove(c));
                    assert(pre_col.push(c).to_multiset() == pre_col.to_multiset().insert(c));
                    assert(pre_sh.to_multiset().count(c) > 0);
                    assert(m_before.add(col@.to_multiset()).add(shuffled@.to_multiset()) =~=
                        m_before.add(pre_col.to_multiset()).add(pre_sh.to_multiset()));
                }
                n += 1;
            }
            trays.push(col);
            x += 1;
            proof {
                lemma_cols_upto_push(t0, col, t0.len() as int);
                assert(cols_multiset_upto(trays@, x as int) ==
                    cols_multiset_upto(trays@, x - 1).add(trays@[x - 1]@.to_multiset()));
                assert(cols_multiset_upto(trays@, x as int).add(shuffled@.to_multiset()) =~=
                    full_deck());
            }
        }
        let mut spares: Vec<Option<Card>> = Vec::new();
        spares.push(None);
        spares.push(None);
        spares.push(None);
        let mut collected: Vec<bool> = Vec::new();
        collected.push(false);
        collected.push(false);
        collected.push(false);
        let mut outs: Vec<u8> = Vec::new();
        outs.push(0);
        outs.push(0);
        outs.push(0);
        let eng = StandardEngine { spares, collected, trays, flower: false, outs };
        proof {
            let t = eng.board();
            let ts = eng.trays@;
            shuffled@.to_multiset_ensures();
            assert(shuffled@.to_multiset() =~= Multiset::<Card>::empty());
            assert(cols_multiset_upto(ts, 8) =~= full_deck());
            assert(cols_multiset_upto(ts, 0) == Multiset::<Card>::empty());
            assert(cols_multiset_upto(ts, 1) ==
                cols_multiset_upto(ts, 0).add(ts[0]@.to_multiset()));
            assert(cols_multiset_upto(ts, 2) ==
                cols_multiset_upto(ts, 1).add(ts[1]@.to_multiset()));
            assert(cols_multiset_upto(ts, 3) ==
                cols_multiset_upto(ts, 2).add(ts[2]@.to_multiset()));
            assert(cols_multiset_upto(ts, 4) ==
                cols_multiset_upto(ts, 3).add(ts[3]@.to_multiset()));
            assert(cols_multiset_upto(ts, 5) ==
                cols_multiset_upto(ts, 4).add(ts[4]@.to_multiset()));
            assert(cols_multiset_upto(ts, 6) ==
                cols_multiset_upto(ts, 5).add(ts[5]@.to_multiset()));
            assert(cols_multiset_upto(ts, 7) ==
                cols_multiset_upto(ts, 6).add(ts[6]@.to_multiset()));
            assert(cols_multiset_upto(ts, 8) ==
                cols_multiset_upto(ts, 7).add(ts[7]@.to_multiset()));
            assert(tray_multiset(t) =~= cols_multiset_upto(ts, 8));
        }
        eng
    }

    fn count_in(&self, s: Slot) -> (r: usize) {
        match s {
            Slot::Spare(i) => if self.spares[i as usize].is_some() { 1 } else { 0 },
            Slot::Tray(i) => self.trays[i as usize].len(),
        }
    }

    fn card_at(&self, s: Slot, depth: usize) -> (r: Option<Card>) {
        match s {
            Slot::Spare(i) => if depth == 0 { self.spares[i as usize] } else { None },
            Slot::Tray(i) => {
                let col = &self.trays[i as usize];
                if depth < col.len() {
                    Some(col[depth])
                } else {
                    None
                }
            }
        }
    }

    fn stacking_base_ok(&self, upper: Card, lower: Card) -> (r: bool) {
        match (upper, lower) {
            (Card::Number(su, ru), Card::Number(sl, rl)) => su != sl && rl >= 1 && ru == rl - 1,
            _ => false,
        }
    }

    fn appendable(&self, dst: Slot, card: Card) -> (r: bool) {
        match dst {
            Slot::Spare(i) => self.spares[i as usize].is_none() && !self.collected[i as usize],
            Slot::Tray(i) => {
                let col = &self.trays[i as usize];
                let n = col.len();
                if n == 0 {
                    true
                } else {
                    self.stacking_base_ok(card, col[n - 1])
                }
            }
        }
    }

    fn remove_top(&mut self, s: Slot) -> (c: Card) {
        match s {
            Slot::Spare(i) => {
                let c = self.spares[i as usize].unwrap();
                vec_put(&mut self.spares, i as usize, None);
                proof {
                    assert(self.board() =~~= remove_top_model(old(self).board(), s));
                }
                c
            }
            Slot::Tray(i) => {
                let c = self.pop_tray(i as usize);
                proof {
                    assert(self.board() =~~= remove_top_model(old(self).board(), s));
                }
                c
            }
        }
    }

    fn place(&mut self, s: Slot, c: Card) {
        match s {
            Slot::Spare(i) => {
                vec_put(&mut self.spares, i as usize, Some(c));
                proof {
                    assert(self.board() =~~= place_model(old(self).board(), s, c));
                }
            }
            Slot::Tray(i) => {
                let ghost t0 = self.trays@;
                let mut col = self.trays.remove(i as usize);
                col.push(c);
                let ghost colg = col;
                self.trays.insert(i as usize, col);
                proof {
                    assert(self.trays@ =~= t0.update(i as int, colg));
                    assert(self.board() =~~= place_model(old(self).board(), s, c));
                }
            }
        }
    }

    fn auto_complete(&mut self) {
        let ghost m0 = self.board();
        let mut moved = true;
        while moved
            invariant
                wf(self.board()),
                total_cards(self.board()) == total_cards(m0),
                auto_shrinks(m0, self.board()),
                forall|i: int| 0 <= i < 3 && (#[trigger] m0.spares[i]) is Some
                    && never_auto(m0.spares[i]->0)
                    ==> self.board().spares[i] == m0.spares[i],
                forall|i: int| 0 <= i < 8 && (#[trigger] m0.trays[i]).len() > 0
                    && never_auto(m0.trays[i].last())
                    ==> self.board().trays[i] == m0.trays[i],
                !moved ==> auto_fixpoint(self.board()),
            decreases
                slot_total(self.board()) + (if moved { 1int } else { 0int }),
        {
            let ghost pre = self.board();
            moved = self.auto_step();
            proof {
                assert(auto_shrinks(m0, self.board()));
                if moved {
                    assert forall|i: int| 0 <= i < 3 && (#[trigger] m0.spares[i]) is Some
                        && never_auto(m0.spares[i]->0)
                        implies self.board().spares[i] == m0.spares[i] by {
                        assert(!auto_eligible(pre, m0.spares[i]->0));
                    }
                    assert forall|i: int| 0 <= i < 8 && (#[trigger] m0.trays[i]).len() > 0
                        && never_auto(m0.trays[i].last())
                        implies self.board().trays[i] == m0.trays[i] by {
                        assert(!auto_eligible(pre, m0.trays[i].last()));
                    }
                }
            }
        }
        proof {
            assert forall|i: int| 0 <= i < 3 && (#[trigger] m0.spares[i]) is Some
                && (forall|m: BoardModel| !(#[trigger] StandardEngine::auto_eligible_spec(
                    m,
                    m0.spares[i]->0,
                ))) implies self.board().spares[i] == m0.spares[i] by {
                assert forall|m: BoardModel| !auto_eligible(m, m0.spares[i]->0) by {
                    assert(!StandardEngine::auto_eligible_spec(m, m0.spares[i]->0));
                }
                assert(never_auto(m0.spares[i]->0));
            }
            assert forall|i: int| 0 <= i < 8 && (#[trigger] m0.trays[i]).len() > 0
                && (forall|m: BoardModel| !(#[trigger] StandardEngine::auto_eligible_spec(
                    m,
                    m0.trays[i].last(),
                ))) implies self.board().trays[i] == m0.trays[i] by {
                assert forall|m: BoardModel| !auto_eligible(m, m0.trays[i].last()) by {
                    assert(!StandardEngine::auto_eligible_spec(m, m0.trays[i].last()));
                }
                assert(never_auto(m0.trays[i].last()));
            }
        }
    }

    #[verifier::rlimit(100)]
    #[verifier::spinoff_prover]
    fn collect_dragon(&mut self, color: DragonCard) -> (r: bool) {
        let n = self.count_exposed(color);
        let home = self.find_home(color);
        if n != 4 || home == 3 {
            return false;
        }
        let ghost pre = self.board();
        self.strip_spares(color);
        self.strip_trays(color);
        vec_put(&mut self.collected, home, true);
        proof {
            assert(self.board().collected =~= pre.collected.update(home as int, true));
            assert(0 <= home < 3 && !pre.collected[home as int]
                && self.board().collected == pre.collected.update(home as int, true));
            assert(slot_total(self.board()) == slot_total(pre) - exposed_dragons(pre, color));
            assert(collected_total(self.board()) == collected_total(pre) + 4);
        }
        true
    }

    fn is_spare_collected(&self, i: usize) -> (r: bool) {
        self.collected[i]
    }

    fn flower(&self) -> (r: bool) {
        self.flower
    }

    fn out_height(&self, suit: NumberCard) -> (r: u8) {
        let si = match suit {
            NumberCard::Bamboo => 0usize,
            NumberCard::Characters => 1usize,
            NumberCard::Coin => 2usize,
        };
        self.outs[si]
    }

    fn remaining_card_count(&self) -> (r: usize) {
        let mut r: usize = 0;
        if self.spares[0].is_some() { r += 1; }
        if self.spares[1].is_some() { r += 1; }
        if self.spares[2].is_some() { r += 1; }
        r += self.trays[0].len();
        r += self.trays[1].len();
        r += self.trays[2].len();
        r += self.trays[3].len();
        r += self.trays[4].len();
        r += self.trays[5].len();
        r += self.trays[6].len();
        r += self.trays[7].len();
        r
    }
}

} // verus!
