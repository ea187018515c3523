use emergency_withdraw::address::Address;
use emergency_withdraw::app_data::AppData;
use emergency_withdraw::model::{CurrentScreen, CurrentlyConfirming, Key, Model};
use emergency_withdraw::view::View;
use emergency_withdraw::wallet::Wallet;

fn wallet(index: u32, byte: u8, eth_balance: u128) -> Wallet {
    Wallet { index, address: Address::from_bytes([byte; 20]), eth_balance }
}

fn model(n: u8) -> Model {
    let wallets: Vec<Wallet> = (0..n).map(|i| wallet(i as u32, i + 1, 0)).collect();
    Model::new(AppData::new(wallets, n as u32, Address::from_bytes([0xee; 20])))
}

fn selected_bytes(m: &Model) -> Vec<u8> {
    let mut v: Vec<u8> = m.wallets_selected.iter().map(|w| w.address.bytes[0]).collect();
    v.sort();
    v
}

#[test]
fn new_session_state() {
    let m = model(3);
    assert!(m.running);
    assert_eq!(m.table_state, Some(0));
    assert!(m.wallets_selected.is_empty());
    assert_eq!(m.current_screen, CurrentScreen::Main);
    assert_eq!(m.currently_transfering, None);
    // one digit for the count, 42 columns per address, 20 per zero balance
    assert_eq!(m.longuest_item_lens, (1, 42, 20));
}

#[test]
fn column_width_of_large_count() {
    let m = model(12);
    assert_eq!(m.longuest_item_lens.0, 2);
}

#[test]
fn cursor_wraps_both_ways() {
    let mut m = model(3);
    m.previous();
    assert_eq!(m.table_state, Some(2));
    m.next();
    assert_eq!(m.table_state, Some(0));
    m.next();
    m.next();
    assert_eq!(m.table_state, Some(2));
    m.table_state = None;
    m.next();
    assert_eq!(m.table_state, Some(0));
}

#[test]
fn toggle_twice_restores_selection() {
    let mut m = model(3);
    m.table_state = Some(1);
    m.toggle_wallet();
    assert_eq!(selected_bytes(&m), vec![2]);
    m.table_state = Some(0);
    let before = selected_bytes(&m);
    m.toggle_wallet();
    assert_eq!(selected_bytes(&m), vec![1, 2]);
    m.toggle_wallet();
    assert_eq!(selected_bytes(&m), before);
}

#[test]
fn toggle_twice_from_selected() {
    let mut m = model(3);
    m.toggle_all_wallets();
    m.table_state = Some(0);
    m.toggle_wallet();
    assert_eq!(selected_bytes(&m), vec![2, 3]);
    m.toggle_wallet();
    assert_eq!(selected_bytes(&m), vec![1, 2, 3]);
}

#[test]
fn toggle_all_from_empty_and_full() {
    let mut m = model(3);
    m.toggle_all_wallets();
    assert_eq!(selected_bytes(&m), vec![1, 2, 3]);
    m.toggle_all_wallets();
    assert!(m.wallets_selected.is_empty());
    m.toggle_all_wallets();
    m.toggle_all_wallets();
    assert!(m.wallets_selected.is_empty());
}

#[test]
fn toggle_all_from_partial_fills_then_clears() {
    let mut m = model(3);
    m.table_state = Some(2);
    m.toggle_wallet();
    m.toggle_all_wallets();
    assert_eq!(selected_bytes(&m), vec![1, 2, 3]);
    m.toggle_all_wallets();
    assert!(m.wallets_selected.is_empty());
}

#[test]
fn confirmation_yes_asks_for_one_sweep() {
    let mut m = model(2);
    m.toggle_all_wallets();
    assert!(!m.handle_key_event(Key::Char('t')));
    assert_eq!(m.current_screen, CurrentScreen::Transfering);
    assert_eq!(m.currently_transfering, Some(CurrentlyConfirming::Yes));
    assert!(m.handle_key_event(Key::Enter));
    assert_eq!(m.current_screen, CurrentScreen::Main);
    assert_eq!(m.currently_transfering, None);
    // the selection stays after a sweep
    assert_eq!(selected_bytes(&m), vec![1, 2]);
    // a repeated confirmation key on the main screen never sweeps
    assert!(!m.handle_key_event(Key::Char('y')));
}

#[test]
fn confirmation_no_behaves_as_cancel() {
    let mut m = model(2);
    m.enter_confirm_transfer();
    assert!(!m.handle_key_event(Key::Left));
    assert_eq!(m.currently_transfering, Some(CurrentlyConfirming::No));
    assert!(!m.handle_key_event(Key::Enter));
    assert_eq!(m.current_screen, CurrentScreen::Main);
}

#[test]
fn flip_choice_both_directions() {
    let mut m = model(1);
    m.enter_confirm_transfer();
    m.handle_key_event(Key::Right);
    assert_eq!(m.currently_transfering, Some(CurrentlyConfirming::No));
    m.handle_key_event(Key::Left);
    assert_eq!(m.currently_transfering, Some(CurrentlyConfirming::Yes));
    assert!(m.handle_key_event(Key::Char('Y')));
}

#[test]
fn cancel_keeps_selection() {
    let mut m = model(2);
    m.toggle_wallet();
    m.enter_confirm_transfer();
    m.handle_key_event(Key::Esc);
    assert_eq!(m.current_screen, CurrentScreen::Main);
    assert_eq!(selected_bytes(&m), vec![1]);
    m.enter_confirm_transfer();
    m.handle_key_event(Key::Char('n'));
    assert_eq!(m.current_screen, CurrentScreen::Main);
}

#[test]
fn keys_outside_their_screen_do_nothing() {
    let mut m = model(2);
    m.handle_key_event(Key::Esc);
    m.handle_key_event(Key::Left);
    assert_eq!(m.current_screen, CurrentScreen::Main);
    assert_eq!(m.table_state, Some(0));
    m.enter_confirm_transfer();
    m.handle_key_event(Key::Char('a'));
    m.handle_key_event(Key::Down);
    assert!(m.wallets_selected.is_empty());
    assert_eq!(m.table_state, Some(0));
    assert_eq!(m.current_screen, CurrentScreen::Transfering);
}

#[test]
fn main_screen_keys() {
    let mut m = model(3);
    m.handle_key_event(Key::Down);
    assert_eq!(m.table_state, Some(1));
    m.handle_key_event(Key::Up);
    assert_eq!(m.table_state, Some(0));
    m.handle_key_event(Key::Enter);
    assert_eq!(selected_bytes(&m), vec![1]);
    m.handle_key_event(Key::Char('a'));
    assert_eq!(selected_bytes(&m), vec![1, 2, 3]);
    m.handle_key_event(Key::Char('q'));
    assert!(!m.running);
}

#[test]
fn layout_arithmetic() {
    let v = View;
    assert_eq!(v.centered_margin(60), 20);
    assert_eq!(v.centered_margin(25), 37);
    assert_eq!(v.inner_area(0, 0, 80, 24), (1, 1, 78, 22));
}

#[test]
fn transitions_outside_their_screen_do_nothing() {
    let mut m = model(3);
    m.next_confirm_transfer();
    assert_eq!(m.currently_transfering, None);
    assert_eq!(m.current_screen, CurrentScreen::Main);
    assert!(!m.perform_action_confirm_transfer());
    m.exit_confirm_transfer();
    assert_eq!(m.current_screen, CurrentScreen::Main);

    m.enter_confirm_transfer();
    m.next_confirm_transfer();
    m.enter_confirm_transfer();
    assert_eq!(m.currently_transfering, Some(CurrentlyConfirming::No));
    m.toggle_wallet();
    m.toggle_all_wallets();
    assert!(m.wallets_selected.is_empty());
    assert_eq!(m.current_screen, CurrentScreen::Transfering);
}

#[test]
fn left_and_right_flip_alike() {
    let mut a = model(2);
    let mut b = model(2);
    a.enter_confirm_transfer();
    b.enter_confirm_transfer();
    a.handle_key_event(Key::Left);
    b.handle_key_event(Key::Right);
    assert_eq!(a.currently_transfering, Some(CurrentlyConfirming::No));
    assert_eq!(a.currently_transfering, b.currently_transfering);
    assert_eq!(a.current_screen, b.current_screen);
}

#[test]
fn confirmation_keeps_destination() {
    let mut m = model(2);
    let before = m.app_data.to_address_to_string();
    m.enter_confirm_transfer();
    assert!(m.handle_key_event(Key::Char('y')));
    assert_eq!(m.app_data.to_address_to_string(), before);
    assert_eq!(m.app_data.next_index(), 2);
    assert_eq!(m.longuest_item_lens, (1, 42, 20));
}
