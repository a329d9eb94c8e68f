use solitaire_tui::card::{Card, DragonCard, NumberCard};
use solitaire_tui::engine::Engine;
use solitaire_tui::index::{Location, Slot};
use solitaire_tui::machine::{change_board_state, execute, key_to_slot, BoardState, Key, MoveError, Notice};
use solitaire_tui::standard::StandardEngine;

fn empty_spares() -> Vec<Option<Card>> {
    vec![None, None, None]
}

fn trays_from(cols: Vec<Vec<Card>>) -> Vec<Vec<Card>> {
    let mut t = cols;
    while t.len() < 8 {
        t.push(Vec::new());
    }
    t
}

fn press(e: &mut StandardEngine, st: &mut BoardState, info: &mut Option<Notice>, k: Key) {
    change_board_state(e, st, info, k);
}

#[test]
fn key_to_slot_maps_cells_and_columns() {
    assert_eq!(key_to_slot(Key::Char('a')), Ok(Slot::Spare(0)));
    assert_eq!(key_to_slot(Key::Char('b')), Ok(Slot::Spare(1)));
    assert_eq!(key_to_slot(Key::Char('c')), Ok(Slot::Spare(2)));
    assert_eq!(key_to_slot(Key::Char('1')), Ok(Slot::Tray(0)));
    assert_eq!(key_to_slot(Key::Char('4')), Ok(Slot::Tray(3)));
    assert_eq!(key_to_slot(Key::Char('8')), Ok(Slot::Tray(7)));
    assert_eq!(key_to_slot(Key::Char('9')), Err(()));
    assert_eq!(key_to_slot(Key::Char('0')), Err(()));
    assert_eq!(key_to_slot(Key::Char('d')), Err(()));
    assert_eq!(key_to_slot(Key::Esc), Err(()));
    assert_eq!(key_to_slot(Key::Other), Err(()));
}

#[test]
fn neutral_transitions() {
    let mut e = StandardEngine::from_parts(empty_spares(), trays_from(vec![]));
    let mut st = BoardState::View;
    let mut info: Option<Notice> = None;
    press(&mut e, &mut st, &mut info, Key::Char('b'));
    assert_eq!(st, BoardState::Pickup(Location::Spare(1)));
    st = BoardState::View;
    press(&mut e, &mut st, &mut info, Key::Char('5'));
    assert_eq!(st, BoardState::SemiPickup(4));
    st = BoardState::View;
    press(&mut e, &mut st, &mut info, Key::Char('d'));
    assert_eq!(st, BoardState::CollectDragon);
    st = BoardState::View;
    press(&mut e, &mut st, &mut info, Key::Char('z'));
    assert_eq!(st, BoardState::View);
    assert_eq!(info, None);
}

#[test]
fn scenario_select_single_card() {
    // Column index 2 (key '3') holds a single Coin-5 on top.
    let cols = trays_from(vec![Vec::new(), Vec::new(), vec![Card::Number(NumberCard::Coin, 5)]]);
    let mut e = StandardEngine::from_parts(empty_spares(), cols);
    let mut st = BoardState::View;
    let mut info: Option<Notice> = None;
    press(&mut e, &mut st, &mut info, Key::Char('3'));
    assert_eq!(st, BoardState::SemiPickup(2));
    press(&mut e, &mut st, &mut info, Key::Char('1'));
    assert_eq!(st, BoardState::Pickup(Location::Tray(2, 1)));
    assert_eq!(info, None);
}

#[test]
fn scenario_move_to_free_cell() {
    let coin5 = Card::Number(NumberCard::Coin, 5);
    let cols = trays_from(vec![Vec::new(), Vec::new(), vec![coin5]]);
    let mut e = StandardEngine::from_parts(empty_spares(), cols);
    let mut st = BoardState::View;
    let mut info: Option<Notice> = None;
    press(&mut e, &mut st, &mut info, Key::Char('3'));
    press(&mut e, &mut st, &mut info, Key::Char('1'));
    press(&mut e, &mut st, &mut info, Key::Char('a'));
    assert_eq!(st, BoardState::View);
    assert_eq!(info, None);
    assert_eq!(e.count_in(Slot::Tray(2)), 0);
    assert_eq!(e.card_at(Slot::Spare(0), 0), Some(coin5));
}

#[test]
fn scenario_dragon_collection_failure() {
    let d = Card::Dragon(DragonCard::Green);
    let spares = vec![Some(d), None, None];
    let cols = trays_from(vec![vec![d], vec![d]]);
    let mut e = StandardEngine::from_parts(spares, cols);
    let mut st = BoardState::View;
    let mut info: Option<Notice> = None;
    press(&mut e, &mut st, &mut info, Key::Char('d'));
    assert_eq!(st, BoardState::CollectDragon);
    press(&mut e, &mut st, &mut info, Key::Char('g'));
    assert_eq!(st, BoardState::CollectDragon);
    assert_eq!(info, Some(Notice::CannotCollectDragon));
    assert_eq!(e.card_at(Slot::Spare(0), 0), Some(d));
    assert_eq!(e.count_in(Slot::Tray(0)), 1);
    assert_eq!(e.count_in(Slot::Tray(1)), 1);
}

#[test]
fn scenario_dragon_collection_success() {
    let d = Card::Dragon(DragonCard::Red);
    let spares = vec![None, Some(d), None];
    let cols = trays_from(vec![vec![d], vec![d], vec![d]]);
    let mut e = StandardEngine::from_parts(spares, cols);
    let mut st = BoardState::View;
    let mut info: Option<Notice> = None;
    press(&mut e, &mut st, &mut info, Key::Char('d'));
    press(&mut e, &mut st, &mut info, Key::Char('r'));
    assert_eq!(st, BoardState::View);
    assert_eq!(info, None);
    assert_eq!(e.remaining_card_count(), 0);
    assert!(e.is_spare_collected(1));
}

#[test]
fn collect_state_ignores_other_keys() {
    let mut e = StandardEngine::from_parts(empty_spares(), trays_from(vec![]));
    let mut st = BoardState::CollectDragon;
    let mut info: Option<Notice> = None;
    press(&mut e, &mut st, &mut info, Key::Char('q'));
    assert_eq!(st, BoardState::CollectDragon);
    assert_eq!(info, None);
    press(&mut e, &mut st, &mut info, Key::Esc);
    assert_eq!(st, BoardState::View);
}

#[test]
fn invalid_count_is_ignored() {
    let cols = trays_from(vec![vec![
        Card::Number(NumberCard::Coin, 5),
        Card::Number(NumberCard::Bamboo, 4),
    ]]);
    let mut e = StandardEngine::from_parts(empty_spares(), cols);
    let mut st = BoardState::SemiPickup(0);
    let mut info: Option<Notice> = None;
    press(&mut e, &mut st, &mut info, Key::Char('0'));
    assert_eq!(st, BoardState::SemiPickup(0));
    assert_eq!(info, None);
    press(&mut e, &mut st, &mut info, Key::Char('3'));
    assert_eq!(st, BoardState::SemiPickup(0));
    assert_eq!(info, None);
    press(&mut e, &mut st, &mut info, Key::Char('x'));
    assert_eq!(st, BoardState::SemiPickup(0));
    assert_eq!(info, None);
}

#[test]
fn illegal_run_sets_notice_and_allows_retry() {
    // Coin-4 on Coin-5: same suit, not a legal run from depth 1.
    let cols = trays_from(vec![vec![
        Card::Number(NumberCard::Coin, 5),
        Card::Number(NumberCard::Coin, 4),
    ]]);
    let mut e = StandardEngine::from_parts(empty_spares(), cols);
    let mut st = BoardState::SemiPickup(0);
    let mut info: Option<Notice> = None;
    press(&mut e, &mut st, &mut info, Key::Char('1'));
    assert_eq!(st, BoardState::SemiPickup(0));
    assert_eq!(info, Some(Notice::NotAValidStack));
    assert_eq!(e.count_in(Slot::Tray(0)), 2);
    // Retrying with the single top card succeeds.
    press(&mut e, &mut st, &mut info, Key::Char('2'));
    assert_eq!(st, BoardState::Pickup(Location::Tray(0, 2)));
    assert_eq!(info, None);
}

#[test]
fn rejected_move_changes_nothing() {
    let coin5 = Card::Number(NumberCard::Coin, 5);
    let coin4 = Card::Number(NumberCard::Coin, 4);
    let cols = trays_from(vec![vec![coin5], vec![coin4]]);
    let mut e = StandardEngine::from_parts(empty_spares(), cols);
    let mut st = BoardState::View;
    let mut info: Option<Notice> = None;
    press(&mut e, &mut st, &mut info, Key::Char('1'));
    press(&mut e, &mut st, &mut info, Key::Char('1'));
    assert_eq!(st, BoardState::Pickup(Location::Tray(0, 1)));
    // Coin-5 cannot land on Coin-4.
    press(&mut e, &mut st, &mut info, Key::Char('2'));
    assert_eq!(st, BoardState::View);
    assert_eq!(info, Some(Notice::CannotStackOntoThat));
    assert_eq!(e.card_at(Slot::Tray(0), 0), Some(coin5));
    assert_eq!(e.card_at(Slot::Tray(1), 0), Some(coin4));
    assert_eq!(e.count_in(Slot::Tray(0)), 1);
    assert_eq!(e.count_in(Slot::Tray(1)), 1);
}

#[test]
fn multi_card_run_moves_in_order() {
    let coin5 = Card::Number(NumberCard::Coin, 5);
    let bamboo4 = Card::Number(NumberCard::Bamboo, 4);
    let chars6 = Card::Number(NumberCard::Characters, 6);
    let cols = trays_from(vec![vec![coin5, bamboo4], vec![chars6]]);
    let mut e = StandardEngine::from_parts(empty_spares(), cols);
    let mut st = BoardState::View;
    let mut info: Option<Notice> = None;
    press(&mut e, &mut st, &mut info, Key::Char('1'));
    press(&mut e, &mut st, &mut info, Key::Char('1'));
    assert_eq!(st, BoardState::Pickup(Location::Tray(0, 1)));
    press(&mut e, &mut st, &mut info, Key::Char('2'));
    assert_eq!(st, BoardState::View);
    assert_eq!(info, None);
    assert_eq!(e.count_in(Slot::Tray(0)), 0);
    assert_eq!(e.count_in(Slot::Tray(1)), 3);
    assert_eq!(e.card_at(Slot::Tray(1), 0), Some(chars6));
    assert_eq!(e.card_at(Slot::Tray(1), 1), Some(coin5));
    assert_eq!(e.card_at(Slot::Tray(1), 2), Some(bamboo4));
}

#[test]
fn multi_card_run_rejected_on_free_cell() {
    let coin5 = Card::Number(NumberCard::Coin, 5);
    let bamboo4 = Card::Number(NumberCard::Bamboo, 4);
    let cols = trays_from(vec![vec![coin5, bamboo4]]);
    let mut e = StandardEngine::from_parts(empty_spares(), cols);
    let mut st = BoardState::View;
    let mut info: Option<Notice> = None;
    press(&mut e, &mut st, &mut info, Key::Char('1'));
    press(&mut e, &mut st, &mut info, Key::Char('1'));
    press(&mut e, &mut st, &mut info, Key::Char('a'));
    assert_eq!(st, BoardState::View);
    assert_eq!(info, Some(Notice::CannotStackOntoThat));
    assert_eq!(e.count_in(Slot::Tray(0)), 2);
    assert_eq!(e.count_in(Slot::Spare(0)), 0);
}

#[test]
fn select_then_cancel_leaves_column_unchanged() {
    let coin5 = Card::Number(NumberCard::Coin, 5);
    let bamboo4 = Card::Number(NumberCard::Bamboo, 4);
    let cols = trays_from(vec![vec![coin5, bamboo4]]);
    let mut e = StandardEngine::from_parts(empty_spares(), cols);
    let mut st = BoardState::View;
    let mut info: Option<Notice> = None;
    press(&mut e, &mut st, &mut info, Key::Char('1'));
    press(&mut e, &mut st, &mut info, Key::Char('2'));
    assert_eq!(st, BoardState::Pickup(Location::Tray(0, 2)));
    press(&mut e, &mut st, &mut info, Key::Esc);
    assert_eq!(st, BoardState::View);
    assert_eq!(info, None);
    assert_eq!(e.count_in(Slot::Tray(0)), 2);
    assert_eq!(e.card_at(Slot::Tray(0), 0), Some(coin5));
    assert_eq!(e.card_at(Slot::Tray(0), 1), Some(bamboo4));
}

#[test]
fn notice_cleared_on_next_key() {
    let cols = trays_from(vec![vec![
        Card::Number(NumberCard::Coin, 5),
        Card::Number(NumberCard::Coin, 4),
    ]]);
    let mut e = StandardEngine::from_parts(empty_spares(), cols);
    let mut st = BoardState::SemiPickup(0);
    let mut info: Option<Notice> = None;
    press(&mut e, &mut st, &mut info, Key::Char('1'));
    assert_eq!(info, Some(Notice::NotAValidStack));
    press(&mut e, &mut st, &mut info, Key::Esc);
    assert_eq!(info, None);
    assert_eq!(st, BoardState::View);
}

#[test]
fn move_counts_are_conserved() {
    let coin5 = Card::Number(NumberCard::Coin, 5);
    let bamboo4 = Card::Number(NumberCard::Bamboo, 4);
    let chars6 = Card::Number(NumberCard::Characters, 6);
    let cols = trays_from(vec![vec![coin5, bamboo4], vec![chars6]]);
    let mut e = StandardEngine::from_parts(empty_spares(), cols);
    let before = e.remaining_card_count();
    let mut st = BoardState::View;
    let mut info: Option<Notice> = None;
    press(&mut e, &mut st, &mut info, Key::Char('1'));
    press(&mut e, &mut st, &mut info, Key::Char('1'));
    press(&mut e, &mut st, &mut info, Key::Char('2'));
    // High ranks: nothing auto-banks, so the slot total is untouched.
    assert_eq!(e.remaining_card_count(), before);
    assert_eq!(e.count_in(Slot::Tray(0)), 0);
    assert_eq!(e.count_in(Slot::Tray(1)), 3);
}

#[test]
fn win_condition_reaches_zero_remaining() {
    let bamboo1 = Card::Number(NumberCard::Bamboo, 1);
    let cols = trays_from(vec![vec![bamboo1]]);
    let mut e = StandardEngine::from_parts(empty_spares(), cols);
    let mut st = BoardState::View;
    let mut info: Option<Notice> = None;
    press(&mut e, &mut st, &mut info, Key::Char('1'));
    press(&mut e, &mut st, &mut info, Key::Char('1'));
    press(&mut e, &mut st, &mut info, Key::Char('a'));
    // The move succeeds and auto-completion banks the Bamboo-1.
    assert_eq!(st, BoardState::View);
    assert_eq!(e.remaining_card_count(), 0);
    assert_eq!(e.out_height(NumberCard::Bamboo), 1);
}

#[test]
fn pickup_of_empty_free_cell_then_destination_is_ignored() {
    let mut e = StandardEngine::from_parts(empty_spares(), trays_from(vec![]));
    let mut st = BoardState::View;
    let mut info: Option<Notice> = None;
    press(&mut e, &mut st, &mut info, Key::Char('a'));
    assert_eq!(st, BoardState::Pickup(Location::Spare(0)));
    press(&mut e, &mut st, &mut info, Key::Char('1'));
    assert_eq!(st, BoardState::Pickup(Location::Spare(0)));
    assert_eq!(info, None);
    press(&mut e, &mut st, &mut info, Key::Esc);
    assert_eq!(st, BoardState::View);
}

#[test]
fn execute_rejects_illegal_destination() {
    let coin5 = Card::Number(NumberCard::Coin, 5);
    let coin4 = Card::Number(NumberCard::Coin, 4);
    let cols = trays_from(vec![vec![coin5], vec![coin4]]);
    let mut e = StandardEngine::from_parts(empty_spares(), cols);
    let r = execute(&mut e, Location::Tray(0, 1), Slot::Tray(1));
    assert_eq!(r, Err(MoveError::IllegalDestination));
    assert_eq!(e.card_at(Slot::Tray(0), 0), Some(coin5));
    assert_eq!(e.card_at(Slot::Tray(1), 0), Some(coin4));
}

#[test]
fn execute_moves_legal_run() {
    let coin5 = Card::Number(NumberCard::Coin, 5);
    let bamboo6 = Card::Number(NumberCard::Bamboo, 6);
    let cols = trays_from(vec![vec![coin5], vec![bamboo6]]);
    let mut e = StandardEngine::from_parts(empty_spares(), cols);
    let r = execute(&mut e, Location::Tray(0, 1), Slot::Tray(1));
    assert_eq!(r, Ok(()));
    assert_eq!(e.count_in(Slot::Tray(0)), 0);
    assert_eq!(e.card_at(Slot::Tray(1), 1), Some(coin5));
}
