use rust_decimal::Decimal;
use std::str::FromStr;
use wallet_tracker::common::TransferDirection;
use wallet_tracker::parser::{
    parse_transaction, transfer_decimals_fit, ConfirmedTransaction, StatusMeta, UiTokenBalance,
};

const WALLET: &str = "Wa11et1111111111111111111111111111111111111";
const OTHER: &str = "0ther11111111111111111111111111111111111111";
const SIG: &str = "5ig";

fn balance(mint: &str, owner: Option<&str>, amount: &str, decimals: u8) -> UiTokenBalance {
    UiTokenBalance {
        mint: mint.to_string(),
        owner: owner.map(|o| o.to_string()),
        amount: amount.to_string(),
        decimals,
    }
}

fn tx(
    block_time: Option<i64>,
    failed: bool,
    fee: u64,
    pre: Option<Vec<UiTokenBalance>>,
    post: Option<Vec<UiTokenBalance>>,
) -> ConfirmedTransaction {
    ConfirmedTransaction {
        slot: 123,
        block_time,
        meta: Some(StatusMeta {
            failed,
            fee,
            pre_token_balances: pre,
            post_token_balances: post,
            raw_meta: Some(serde_json::Value::String("meta".to_string())),
        }),
    }
}

#[test]
fn no_meta_gives_nothing() {
    let t = ConfirmedTransaction { slot: 1, block_time: Some(1_700_000_000), meta: None };
    assert!(parse_transaction(SIG, WALLET, t).is_none());
}

#[test]
fn no_block_time_gives_nothing() {
    assert!(parse_transaction(SIG, WALLET, tx(None, false, 5000, None, None)).is_none());
}

#[test]
fn unrepresentable_block_time_gives_nothing() {
    assert!(parse_transaction(SIG, WALLET, tx(Some(i64::MAX), false, 5000, None, None)).is_none());
    assert!(parse_transaction(SIG, WALLET, tx(Some(i64::MIN), false, 5000, None, None)).is_none());
}

#[test]
fn transaction_record_fields() {
    let (t, transfers) =
        parse_transaction(SIG, WALLET, tx(Some(1_700_000_000), false, 5000, None, None)).unwrap();
    assert_eq!(t.signature, SIG);
    assert_eq!(t.wallet_address, WALLET);
    assert_eq!(t.slot, 123);
    assert_eq!(t.block_time, 1_700_000_000);
    assert_eq!(t.tx_type, None);
    assert_eq!(t.status, "success");
    assert_eq!(t.fee_lamports, Some(5000));
    assert_eq!(t.raw_meta, Some(serde_json::Value::String("meta".to_string())));
    assert!(transfers.is_empty());
}

#[test]
fn failed_transaction_status_and_wrapped_fee() {
    let (t, _) =
        parse_transaction(SIG, WALLET, tx(Some(0), true, u64::MAX, None, None)).unwrap();
    assert_eq!(t.status, "failed");
    assert_eq!(t.fee_lamports, Some(-1));
}

#[test]
fn transfers_follow_the_wallets_changed_balances() {
    let pre = vec![
        balance("MintA", Some(WALLET), "500", 3),
        balance("MintC", Some(WALLET), "5", 0),
        balance("MintD", Some(WALLET), "250", 2),
    ];
    let post = vec![
        balance("MintA", Some(WALLET), "1500", 3),
        balance("MintB", Some(OTHER), "10", 0),
        balance("MintC", Some(WALLET), "5", 0),
        balance("MintD", Some(WALLET), "100", 2),
        balance("MintE", Some(WALLET), "7", 0),
    ];
    let (_, transfers) =
        parse_transaction(SIG, WALLET, tx(Some(1_700_000_000), false, 5000, Some(pre), Some(post)))
            .unwrap();
    assert_eq!(transfers.len(), 3);

    assert_eq!(transfers[0].mint, "MintA");
    assert_eq!(transfers[0].direction, TransferDirection::In);
    assert_eq!(transfers[0].amount_raw, 1000);
    assert_eq!(transfers[0].amount, Some(Decimal::from_str("1.000").unwrap()));

    assert_eq!(transfers[1].mint, "MintD");
    assert_eq!(transfers[1].direction, TransferDirection::Out);
    assert_eq!(transfers[1].amount_raw, 150);
    assert_eq!(transfers[1].amount, Some(Decimal::from_str("1.5").unwrap()));

    assert_eq!(transfers[2].mint, "MintE");
    assert_eq!(transfers[2].direction, TransferDirection::In);
    assert_eq!(transfers[2].amount_raw, 7);

    for t in &transfers {
        assert_eq!(t.id, 0);
        assert_eq!(t.signature, SIG);
        assert_eq!(t.wallet_address, WALLET);
        assert_eq!(t.price_usd, None);
        assert_eq!(t.value_usd, None);
    }
}

#[test]
fn earlier_balance_is_the_first_of_the_wallet() {
    let pre = vec![
        balance("MintA", Some(OTHER), "900", 0),
        balance("MintA", Some(WALLET), "oops", 0),
        balance("MintA", Some(WALLET), "3", 0),
    ];
    let post = vec![balance("MintA", Some(WALLET), "3", 0)];
    let (_, transfers) =
        parse_transaction(SIG, WALLET, tx(Some(1), false, 0, Some(pre), Some(post))).unwrap();
    assert_eq!(transfers.len(), 1);
    assert_eq!(transfers[0].direction, TransferDirection::In);
    assert_eq!(transfers[0].amount_raw, 3);
}

#[test]
fn unreadable_later_amount_counts_as_zero() {
    let pre = vec![balance("MintA", Some(WALLET), "40", 1)];
    let post = vec![balance("MintA", Some(WALLET), "forty", 1)];
    let (_, transfers) =
        parse_transaction(SIG, WALLET, tx(Some(1), false, 0, Some(pre), Some(post))).unwrap();
    assert_eq!(transfers[0].direction, TransferDirection::Out);
    assert_eq!(transfers[0].amount_raw, 40);
    assert_eq!(transfers[0].amount, Some(Decimal::from(4)));
}

#[test]
fn ownerless_balances_belong_only_to_the_empty_address() {
    let post = vec![balance("MintA", None, "10", 0)];
    let (_, transfers) =
        parse_transaction(SIG, WALLET, tx(Some(1), false, 0, None, Some(post))).unwrap();
    assert!(transfers.is_empty());
    let post = vec![balance("MintA", None, "10", 0)];
    let (_, transfers) = parse_transaction(SIG, "", tx(Some(1), false, 0, None, Some(post))).unwrap();
    assert_eq!(transfers.len(), 1);
    assert_eq!(transfers[0].amount_raw, 10);
}

#[test]
fn huge_change_wraps_in_the_raw_amount() {
    let post = vec![balance("MintA", Some(WALLET), "18446744073709551615", 0)];
    let (_, transfers) =
        parse_transaction(SIG, WALLET, tx(Some(1), false, 0, None, Some(post))).unwrap();
    assert_eq!(transfers[0].amount_raw, -1);
    assert_eq!(transfers[0].amount, Some(Decimal::from(-1)));
}

#[test]
fn a_transfer_reconciles_the_balance() {
    let pre = vec![balance("MintA", Some(WALLET), "1200", 2)];
    let post = vec![balance("MintA", Some(WALLET), "450", 2)];
    let (_, transfers) =
        parse_transaction(SIG, WALLET, tx(Some(1), false, 0, Some(pre), Some(post))).unwrap();
    let t = &transfers[0];
    let moved = match t.direction {
        TransferDirection::In => 1200 + t.amount_raw,
        TransferDirection::Out => 1200 - t.amount_raw,
    };
    assert_eq!(moved, 450);
}

#[test]
fn decimals_check_covers_only_changed_balances() {
    let post = vec![balance("MintA", Some(WALLET), "1", 25)];
    assert!(!transfer_decimals_fit(WALLET, &tx(Some(1), false, 0, None, Some(post))));
    let pre = vec![balance("MintA", Some(WALLET), "1", 25)];
    let post = vec![balance("MintA", Some(WALLET), "1", 25)];
    assert!(transfer_decimals_fit(WALLET, &tx(Some(1), false, 0, Some(pre), Some(post))));
    let post = vec![balance("MintA", Some(OTHER), "1", 25)];
    assert!(transfer_decimals_fit(WALLET, &tx(Some(1), false, 0, None, Some(post))));
    let post = vec![balance("MintA", Some(WALLET), "1", 19)];
    assert!(transfer_decimals_fit(WALLET, &tx(Some(1), false, 0, None, Some(post))));
}

#[test]
fn unrepresentable_block_time_needs_no_decimals_check() {
    let post = vec![balance("MintA", Some(WALLET), "1", 25)];
    let t = tx(Some(i64::MAX), false, 0, None, Some(post));
    assert!(transfer_decimals_fit(WALLET, &t));
    assert!(parse_transaction(SIG, WALLET, t).is_none());
}

#[test]
fn chrono_range_bounds() {
    let lo = -8_334_601_228_800i64;
    let hi = 8_210_266_876_799i64;
    assert!(parse_transaction(SIG, WALLET, tx(Some(lo), false, 0, None, None)).is_some());
    assert!(parse_transaction(SIG, WALLET, tx(Some(lo - 1), false, 0, None, None)).is_none());
    assert!(parse_transaction(SIG, WALLET, tx(Some(hi), false, 0, None, None)).is_some());
    assert!(parse_transaction(SIG, WALLET, tx(Some(hi + 1), false, 0, None, None)).is_none());
}

#[test]
fn other_owners_do_not_change_the_transfers() {
    let own_pre = vec![balance("MintA", Some(WALLET), "5", 0)];
    let own_post = vec![balance("MintA", Some(WALLET), "9", 0), balance("MintB", Some(WALLET), "2", 0)];
    let (_, plain) =
        parse_transaction(SIG, WALLET, tx(Some(1), false, 0, Some(own_pre), Some(own_post))).unwrap();

    let pre = vec![
        balance("MintA", Some(OTHER), "1000", 0),
        balance("MintA", None, "77", 0),
        balance("MintA", Some(WALLET), "5", 0),
    ];
    let post = vec![
        balance("MintC", Some(OTHER), "3", 0),
        balance("MintA", Some(WALLET), "9", 0),
        balance("MintA", Some(OTHER), "1", 0),
        balance("MintB", Some(WALLET), "2", 0),
    ];
    let (_, crowded) =
        parse_transaction(SIG, WALLET, tx(Some(1), false, 0, Some(pre), Some(post))).unwrap();

    assert_eq!(plain.len(), 2);
    assert_eq!(plain.len(), crowded.len());
    for (a, b) in plain.iter().zip(crowded.iter()) {
        assert_eq!(a.mint, b.mint);
        assert_eq!(a.direction, b.direction);
        assert_eq!(a.amount_raw, b.amount_raw);
        assert_eq!(a.amount, b.amount);
    }
    assert_eq!(plain[0].amount_raw, 4);
    assert_eq!(plain[1].amount_raw, 2);
}
