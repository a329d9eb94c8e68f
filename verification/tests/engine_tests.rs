use solitaire_tui::card::{Card, DragonCard, NumberCard};
use solitaire_tui::engine::Engine;
use solitaire_tui::index::Slot;
use solitaire_tui::standard::StandardEngine;

fn empty_spares() -> Vec<Option<Card>> {
    vec![None, None, None]
}

fn trays_from(cols: Vec<Vec<Card>>) -> Vec<Vec<Card>> {
    let mut t = cols;
    while t.len() < 8 {
        t.push(Vec::new());
    }
    t
}

#[test]
fn new_game_deals_eight_columns_of_five() {
    let e = StandardEngine::new_game(12345);
    for x in 0..8u8 {
        assert_eq!(e.count_in(Slot::Tray(x)), 5);
    }
    for i in 0..3u8 {
        assert_eq!(e.count_in(Slot::Spare(i)), 0);
        assert!(!e.is_spare_collected(i as usize));
    }
    assert_eq!(e.remaining_card_count(), 40);
    assert!(!e.flower());
    assert_eq!(e.out_height(NumberCard::Bamboo), 0);
    assert_eq!(e.out_height(NumberCard::Characters), 0);
    assert_eq!(e.out_height(NumberCard::Coin), 0);
}

#[test]
fn new_game_seeds_differ() {
    let a = StandardEngine::new_game(1);
    let b = StandardEngine::new_game(987654321);
    let mut same = true;
    for x in 0..8u8 {
        for d in 0..5usize {
            if a.card_at(Slot::Tray(x), d) != b.card_at(Slot::Tray(x), d) {
                same = false;
            }
        }
    }
    // Different seeds should not deal the identical board.
    assert!(!same);
}

#[test]
fn stacking_rule_descending_rank_different_suit() {
    let e = StandardEngine::from_parts(empty_spares(), trays_from(vec![]));
    let coin5 = Card::Number(NumberCard::Coin, 5);
    let bamboo4 = Card::Number(NumberCard::Bamboo, 4);
    let coin4 = Card::Number(NumberCard::Coin, 4);
    let bamboo6 = Card::Number(NumberCard::Bamboo, 6);
    assert!(e.stacking_base_ok(bamboo4, coin5));
    assert!(!e.stacking_base_ok(coin4, coin5));
    assert!(!e.stacking_base_ok(bamboo6, coin5));
    assert!(!e.stacking_base_ok(Card::Dragon(DragonCard::Red), coin5));
    assert!(!e.stacking_base_ok(Card::Flower, coin5));
}

#[test]
fn appendable_spare_only_when_empty() {
    let spares = vec![Some(Card::Number(NumberCard::Coin, 5)), None, None];
    let e = StandardEngine::from_parts(spares, trays_from(vec![]));
    let c = Card::Number(NumberCard::Bamboo, 9);
    assert!(!e.appendable(Slot::Spare(0), c));
    assert!(e.appendable(Slot::Spare(1), c));
}

#[test]
fn appendable_tray_empty_or_stackable() {
    let cols = trays_from(vec![vec![Card::Number(NumberCard::Coin, 5)]]);
    let e = StandardEngine::from_parts(empty_spares(), cols);
    assert!(e.appendable(Slot::Tray(0), Card::Number(NumberCard::Bamboo, 4)));
    assert!(!e.appendable(Slot::Tray(0), Card::Number(NumberCard::Coin, 4)));
    assert!(e.appendable(Slot::Tray(1), Card::Dragon(DragonCard::Green)));
}

#[test]
fn collect_dragon_fails_with_three_exposed() {
    let d = Card::Dragon(DragonCard::Green);
    let spares = vec![Some(d), None, None];
    let cols = trays_from(vec![vec![d], vec![d]]);
    let mut e = StandardEngine::from_parts(spares, cols);
    let before = e.remaining_card_count();
    assert!(!e.collect_dragon(DragonCard::Green));
    assert_eq!(e.remaining_card_count(), before);
    assert_eq!(e.card_at(Slot::Spare(0), 0), Some(d));
    assert_eq!(e.card_at(Slot::Tray(0), 0), Some(d));
}

#[test]
fn collect_dragon_succeeds_with_four_exposed() {
    let d = Card::Dragon(DragonCard::Red);
    let spares = vec![Some(d), None, None];
    let cols = trays_from(vec![vec![d], vec![d], vec![d]]);
    let mut e = StandardEngine::from_parts(spares, cols);
    assert_eq!(e.remaining_card_count(), 4);
    assert!(e.collect_dragon(DragonCard::Red));
    assert_eq!(e.remaining_card_count(), 0);
    assert!(e.is_spare_collected(0));
    assert_eq!(e.card_at(Slot::Spare(0), 0), None);
    assert_eq!(e.count_in(Slot::Tray(0)), 0);
}

#[test]
fn collect_dragon_buried_dragon_fails() {
    let d = Card::Dragon(DragonCard::White);
    let cover = Card::Number(NumberCard::Coin, 9);
    let cols = trays_from(vec![vec![d], vec![d], vec![d], vec![d, cover]]);
    let mut e = StandardEngine::from_parts(empty_spares(), cols);
    assert!(!e.collect_dragon(DragonCard::White));
    assert_eq!(e.remaining_card_count(), 5);
}

#[test]
fn auto_complete_banks_flower_and_low_ranks() {
    let cols = trays_from(vec![
        vec![Card::Flower],
        vec![Card::Number(NumberCard::Bamboo, 2), Card::Number(NumberCard::Bamboo, 1)],
        vec![Card::Number(NumberCard::Coin, 9)],
    ]);
    let mut e = StandardEngine::from_parts(empty_spares(), cols);
    e.auto_complete();
    assert!(e.flower());
    assert_eq!(e.out_height(NumberCard::Bamboo), 2);
    assert_eq!(e.count_in(Slot::Tray(0)), 0);
    assert_eq!(e.count_in(Slot::Tray(1)), 0);
    // A 9 is never auto-banked.
    assert_eq!(e.count_in(Slot::Tray(2)), 1);
    assert_eq!(e.remaining_card_count(), 1);
}

#[test]
fn remaining_card_count_sums_spares_and_trays() {
    let spares = vec![Some(Card::Number(NumberCard::Coin, 7)), None, None];
    let cols = trays_from(vec![
        vec![Card::Number(NumberCard::Bamboo, 9), Card::Number(NumberCard::Coin, 8)],
        vec![Card::Dragon(DragonCard::Green)],
    ]);
    let e = StandardEngine::from_parts(spares, cols);
    assert_eq!(e.remaining_card_count(), 4);
}

#[test]
fn new_game_deals_the_full_deck() {
    let e = StandardEngine::new_game(42);
    let mut cards: Vec<Card> = Vec::new();
    for x in 0..8u8 {
        for d in 0..5usize {
            cards.push(e.card_at(Slot::Tray(x), d).unwrap());
        }
    }
    for s in [NumberCard::Bamboo, NumberCard::Characters, NumberCard::Coin] {
        for r in 1..10u8 {
            let want = Card::Number(s, r);
            assert_eq!(cards.iter().filter(|c| **c == want).count(), 1);
        }
    }
    for col in [DragonCard::Green, DragonCard::White, DragonCard::Red] {
        let want = Card::Dragon(col);
        assert_eq!(cards.iter().filter(|c| **c == want).count(), 4);
    }
    assert_eq!(cards.iter().filter(|c| **c == Card::Flower).count(), 1);
}

#[test]
fn auto_complete_is_idempotent() {
    let cols = trays_from(vec![
        vec![Card::Number(NumberCard::Coin, 2), Card::Number(NumberCard::Coin, 1)],
        vec![Card::Flower],
    ]);
    let mut e = StandardEngine::from_parts(empty_spares(), cols);
    e.auto_complete();
    let after_once = e.remaining_card_count();
    assert_eq!(after_once, 0);
    e.auto_complete();
    assert_eq!(e.remaining_card_count(), after_once);
    assert_eq!(e.out_height(NumberCard::Coin), 2);
    assert!(e.flower());
}
