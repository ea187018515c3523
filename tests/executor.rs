use emergency_withdraw::address::Address;
use emergency_withdraw::app_data::AppData;
use emergency_withdraw::model::{Key, Model};
use emergency_withdraw::transfer::{OptFailed, SubmissionError, SweepBatch, TransferStep};
use emergency_withdraw::wallet::Wallet;

fn wallet(index: u32, byte: u8, eth_balance: u128) -> Wallet {
    Wallet { index, address: Address::from_bytes([byte; 20]), eth_balance }
}

#[test]
fn start_transfer_plans_or_finishes() {
    let w = wallet(0, 1, 0);
    match w.start_transfer(Some(1), Some(100000)) {
        TransferStep::Submit { amount } => assert_eq!(amount, 79000),
        other => panic!("unexpected {:?}", other),
    }
    match w.start_transfer(Some(1), Some(21000)) {
        TransferStep::Finished(r) => {
            assert_eq!(r.status.failed_opt, Some(OptFailed::NoEnoughEther));
            assert!(r.tx_receipt.is_none());
        }
        other => panic!("unexpected {:?}", other),
    }
    match w.start_transfer(None, Some(100000)) {
        TransferStep::Finished(r) => assert_eq!(r.status.failed_opt, Some(OptFailed::NetworkError)),
        other => panic!("unexpected {:?}", other),
    }
    match w.start_transfer(Some(1), None) {
        TransferStep::Finished(r) => assert_eq!(r.status.failed_opt, Some(OptFailed::NetworkError)),
        other => panic!("unexpected {:?}", other),
    }
}

#[test]
fn finish_transfer_outcomes() {
    let w = wallet(0, 1, 0);
    let sent = w.finish_transfer(Ok(None));
    assert_eq!(sent.status.failed_opt, None);
    let failed = w.finish_transfer(Err(SubmissionError));
    assert_eq!(failed.status.failed_opt, Some(OptFailed::Reverted));
    assert!(failed.wallet.equals(&w));
}

#[test]
fn one_outcome_per_wallet_in_any_order() {
    let selected: Vec<Wallet> = (0..5u8).map(|i| wallet(i as u32, i + 1, 0)).collect();
    for order in [[0usize, 1, 2, 3, 4], [4, 3, 2, 1, 0], [2, 0, 4, 1, 3]] {
        let mut batch = SweepBatch::new(&selected);
        assert!(!batch.is_settled());
        for &i in order.iter() {
            let r = selected[i].finish_transfer(Ok(None));
            assert!(batch.record(i, r));
        }
        assert!(batch.is_settled());
        let outcomes = batch.into_outcomes();
        assert_eq!(outcomes.len(), 5);
        for (i, o) in outcomes.iter().enumerate() {
            assert!(o.wallet.equals(&selected[i]));
        }
    }
}

#[test]
fn duplicate_and_misrouted_reports_are_ignored() {
    let selected = vec![wallet(0, 1, 0), wallet(1, 2, 0)];
    let mut batch = SweepBatch::new(&selected);
    assert!(batch.record(0, selected[0].finish_transfer(Ok(None))));
    assert!(!batch.record(0, selected[0].finish_transfer(Err(SubmissionError))));
    assert!(!batch.record(1, selected[0].finish_transfer(Ok(None))));
    assert!(!batch.record(7, selected[1].finish_transfer(Ok(None))));
    let outcomes = batch.into_outcomes();
    assert_eq!(outcomes.len(), 2);
    assert_eq!(outcomes[0].status.failed_opt, None);
    // the attempt that never reported is a visible failure
    assert_eq!(outcomes[1].status.failed_opt, Some(OptFailed::NetworkError));
    assert!(outcomes[1].wallet.equals(&selected[1]));
}

#[test]
fn failure_of_one_wallet_is_isolated() {
    let selected = vec![wallet(0, 1, 0), wallet(1, 2, 0)];
    for a_first in [true, false] {
        let mut batch = SweepBatch::new(&selected);
        let fail = selected[0].finish_transfer(Err(SubmissionError));
        let ok = selected[1].finish_transfer(Ok(None));
        if a_first {
            batch.record(0, fail);
            batch.record(1, ok);
        } else {
            batch.record(1, ok);
            batch.record(0, fail);
        }
        let outcomes = batch.into_outcomes();
        assert_eq!(outcomes[0].status.failed_opt, Some(OptFailed::Reverted));
        assert_eq!(outcomes[1].status.failed_opt, None);
    }
}

#[test]
fn end_to_end_two_wallets() {
    let phrase = "test test test test test test test test test test test junk";
    let wallets = AppData::create_wallets_list(2, phrase, "").unwrap();
    let mut data = AppData::new(wallets, 2, Address::from_bytes([0xee; 20]));
    data.refresh_balance(0, 100000);
    data.refresh_balance(1, 0);
    let mut m = Model::new(data);
    m.handle_key_event(Key::Char('a'));
    m.handle_key_event(Key::Char('t'));
    assert!(m.handle_key_event(Key::Enter));

    let mut batch = SweepBatch::new(&m.wallets_selected);
    for i in 0..batch.len() {
        let w = batch.wallet(i);
        let result = match w.start_transfer(Some(1), Some(w.eth_balance())) {
            TransferStep::Submit { amount } => {
                assert_eq!(w.index(), 0);
                assert_eq!(amount, 79000);
                w.finish_transfer(Ok(None))
            }
            TransferStep::Finished(r) => r,
        };
        assert!(batch.record(i, result));
    }
    let outcomes = batch.into_outcomes();
    assert_eq!(outcomes.len(), 2);
    let first = outcomes.iter().find(|o| o.wallet.index() == 0).unwrap();
    let second = outcomes.iter().find(|o| o.wallet.index() == 1).unwrap();
    assert_eq!(first.status.failed_opt, None);
    assert_eq!(second.status.failed_opt, Some(OptFailed::NoEnoughEther));
}
