use emergency_withdraw::address::Address;
use emergency_withdraw::app_data::{AppData, ConfigError};
use emergency_withdraw::wallet::{BalanceError, DerivationError, Wallet};

const PHRASE: &str = "test test test test test test test test test test test junk";

fn wallet(index: u32, byte: u8, eth_balance: u128) -> Wallet {
    Wallet { index, address: Address::from_bytes([byte; 20]), eth_balance }
}

#[test]
fn derives_known_addresses() {
    let w0 = Wallet::new(PHRASE, "", 0).unwrap();
    let w1 = Wallet::new(PHRASE, "", 1).unwrap();
    assert_eq!(w0.address_to_string(), "0xf39fd6e51aad88f6f4ce6ab8827279cfffb92266");
    assert_eq!(w1.address_to_string(), "0x70997970c51812dc3a010c7d01b50e0d17dc79c8");
    assert_eq!(w0.index(), 0);
    assert_eq!(w1.index(), 1);
    assert_eq!(w0.eth_balance(), 0);
}

#[test]
fn derivation_is_deterministic() {
    let a = AppData::create_wallets_list(3, PHRASE, "secret").unwrap();
    let b = AppData::create_wallets_list(3, PHRASE, "secret").unwrap();
    assert_eq!(a.len(), 3);
    for i in 0..3 {
        assert!(a[i].equals(&b[i]));
        assert_eq!(a[i].address_to_string(), b[i].address_to_string());
        assert_eq!(a[i].index(), i as u32);
    }
}

#[test]
fn passphrase_changes_addresses() {
    let plain = Wallet::new(PHRASE, "", 0).unwrap();
    let guarded = Wallet::new(PHRASE, "secret", 0).unwrap();
    assert!(!plain.equals(&guarded));
}

#[test]
fn derived_addresses_are_distinct() {
    let ws = AppData::create_wallets_list(8, PHRASE, "").unwrap();
    for i in 0..ws.len() {
        for j in (i + 1)..ws.len() {
            assert!(!ws[i].equals(&ws[j]));
        }
    }
}

#[test]
fn zero_count_is_refused() {
    assert_eq!(AppData::create_wallets_list(0, PHRASE, "").unwrap_err(), DerivationError::ZeroCount);
}

#[test]
fn malformed_seed_is_refused() {
    assert_eq!(
        AppData::create_wallets_list(2, "not a mnemonic at all", "").unwrap_err(),
        DerivationError::InvalidSeed
    );
    assert_eq!(
        Wallet::new("test test test", "", 0).unwrap_err(),
        DerivationError::InvalidSeed
    );
}

#[test]
fn wallets_equal_by_address() {
    let a = wallet(0, 1, 5);
    let a_bis = wallet(7, 1, 9);
    let b = wallet(0, 2, 5);
    assert!(a.equals(&a_bis));
    assert!(!a.equals(&b));
}

#[test]
fn toggle_in_list_adds_then_removes() {
    let a = wallet(0, 1, 0);
    let b = wallet(1, 2, 0);
    let c = wallet(2, 3, 0);
    let mut list = vec![a, b, c];
    a.toggle_wallet_in_list(&mut list);
    assert_eq!(list.len(), 2);
    assert!(list[0].equals(&c));
    assert!(list[1].equals(&b));
    assert!(!a.is_wallet_in_list(&list));
    a.toggle_wallet_in_list(&mut list);
    assert_eq!(list.len(), 3);
    assert!(list[2].equals(&a));
    assert!(a.is_wallet_in_list(&list));
}

#[test]
fn membership_in_empty_list() {
    assert!(!wallet(0, 1, 0).is_wallet_in_list(&Vec::new()));
}

#[test]
fn total_balance_in_wei_and_ether() {
    let list = vec![wallet(0, 1, 1_000_000_000_000_000_000), wallet(1, 2, 500_000_000_000_000_000)];
    assert_eq!(Wallet::total_eth_balance_in_list(&list), Ok(1_500_000_000_000_000_000));
    assert_eq!(
        Wallet::calculate_total_eth_balance_in_list(&list).unwrap(),
        "1.500000000000000000"
    );
    assert_eq!(
        Wallet::calculate_total_eth_balance_in_list(&Vec::new()).unwrap(),
        "0.000000000000000000"
    );
}

#[test]
fn total_balance_overflow() {
    let list = vec![wallet(0, 1, u128::MAX), wallet(1, 2, 1)];
    assert_eq!(Wallet::total_eth_balance_in_list(&list), Err(BalanceError::Overflow));
    assert_eq!(Wallet::calculate_total_eth_balance_in_list(&list), Err(BalanceError::Overflow));
}

#[test]
fn balance_text_in_ether() {
    assert_eq!(wallet(0, 1, 100000).eth_balance_to_string(), "0.000000000000100000");
}

#[test]
fn address_text_is_lower_hex() {
    let mut bytes = [0u8; 20];
    bytes[0] = 0xab;
    bytes[19] = 0x0f;
    let a = Address::from_bytes(bytes);
    assert_eq!(a.to_hex_string(), "0xab0000000000000000000000000000000000000f");
}

#[test]
fn parses_destination_address() {
    let a = AppData::parse_to_address("0x70997970C51812dc3A010C7d01b50e0d17dc79C8").unwrap();
    assert_eq!(a.to_hex_string(), "0x70997970c51812dc3a010c7d01b50e0d17dc79c8");
    let b = AppData::parse_to_address("70997970c51812dc3a010c7d01b50e0d17dc79c8").unwrap();
    assert!(a.equals(&b));
    assert_eq!(AppData::parse_to_address("0x1234").unwrap_err(), ConfigError::InvalidAddress);
    assert_eq!(AppData::parse_to_address("").unwrap_err(), ConfigError::InvalidAddress);
}

#[test]
fn parses_wallet_count() {
    assert_eq!(AppData::parse_wallets_number("12"), Ok(12));
    assert_eq!(AppData::parse_wallets_number("+7"), Ok(7));
    assert_eq!(AppData::parse_wallets_number("4294967295"), Ok(u32::MAX));
    assert_eq!(AppData::parse_wallets_number("4294967296"), Err(ConfigError::InvalidNumber));
    assert_eq!(AppData::parse_wallets_number(""), Err(ConfigError::InvalidNumber));
    assert_eq!(AppData::parse_wallets_number("+"), Err(ConfigError::InvalidNumber));
    assert_eq!(AppData::parse_wallets_number("-1"), Err(ConfigError::InvalidNumber));
    assert_eq!(AppData::parse_wallets_number("1x"), Err(ConfigError::InvalidNumber));
}

#[test]
fn refreshes_one_balance() {
    let to = Address::from_bytes([9; 20]);
    let mut data = AppData::new(vec![wallet(0, 1, 0), wallet(1, 2, 0)], 2, to);
    data.refresh_balance(1, 42);
    data.refresh_balance(5, 7);
    assert_eq!(data.wallets()[0].eth_balance(), 0);
    assert_eq!(data.wallets()[1].eth_balance(), 42);
    assert_eq!(data.next_index(), 2);
    assert!(data.to_address().equals(&to));
    assert_eq!(data.to_address_to_string(), "0x0909090909090909090909090909090909090909");
}
