use wallet_tracker::client::{
    collect_token_accounts, parse_signature, parse_wallet_address, ParsedTokenAccount, RpcError,
};

fn parsed(mint: Option<&str>, amount: Option<&str>, decimals: Option<u64>) -> Option<ParsedTokenAccount> {
    Some(ParsedTokenAccount {
        mint: mint.map(|m| m.to_string()),
        amount: amount.map(|a| a.to_string()),
        decimals,
    })
}

#[test]
fn collects_parsed_accounts_in_order() {
    let accounts = vec![
        parsed(Some("MintA"), Some("1500"), Some(3)),
        None,
        parsed(Some("MintB"), Some("42"), Some(0)),
    ];
    let infos = collect_token_accounts(accounts).unwrap();
    assert_eq!(infos.len(), 2);
    assert_eq!(infos[0].mint, "MintA");
    assert_eq!(infos[0].amount_raw, 1500);
    assert_eq!(infos[0].decimals, 3);
    assert_eq!(infos[1].mint, "MintB");
    assert_eq!(infos[1].amount_raw, 42);
    assert_eq!(infos[1].decimals, 0);
}

#[test]
fn missing_or_bad_amounts_count_as_zero() {
    let accounts = vec![
        parsed(Some("A"), None, None),
        parsed(Some("B"), Some("not a number"), Some(6)),
        parsed(Some("C"), Some("-5"), Some(6)),
    ];
    let infos = collect_token_accounts(accounts).unwrap();
    assert_eq!(infos.iter().map(|i| i.amount_raw).collect::<Vec<_>>(), vec![0, 0, 0]);
    assert_eq!(infos[0].decimals, 0);
    assert_eq!(infos[1].decimals, 6);
}

#[test]
fn decimals_keep_their_low_byte() {
    let infos = collect_token_accounts(vec![parsed(Some("A"), Some("1"), Some(300))]).unwrap();
    assert_eq!(infos[0].decimals, 44);
}

#[test]
fn missing_mint_is_a_parse_error() {
    let accounts = vec![parsed(Some("A"), Some("1"), Some(0)), parsed(None, Some("1"), Some(0))];
    match collect_token_accounts(accounts) {
        Err(RpcError::Parse(m)) => assert_eq!(m, "missing mint"),
        other => panic!("unexpected {:?}", other),
    }
}

#[test]
fn no_parsed_accounts_gives_nothing() {
    assert!(collect_token_accounts(vec![None, None]).unwrap().is_empty());
    assert!(collect_token_accounts(vec![]).unwrap().is_empty());
}

#[test]
fn wallet_address_decodes_to_its_bytes() {
    assert_eq!(parse_wallet_address("11111111111111111111111111111111").unwrap(), [0u8; 32]);
    let token_program = parse_wallet_address("TokenkegQfeZyiNwAJbNbGKPFXCWuBvf9Ss623VQ5DA").unwrap();
    assert_eq!(token_program[0], 6);
    assert_eq!(token_program[31], 169);
}

#[test]
fn wallet_address_errors_carry_their_text() {
    match parse_wallet_address("abc!") {
        Err(RpcError::InvalidPubkey(m)) => assert_eq!(m, "Invalid Base58 string"),
        other => panic!("unexpected {:?}", other),
    }
    match parse_wallet_address(&"1".repeat(45)) {
        Err(RpcError::InvalidPubkey(m)) => assert_eq!(m, "String is the wrong size"),
        other => panic!("unexpected {:?}", other),
    }
    match parse_wallet_address("1") {
        Err(RpcError::InvalidPubkey(m)) => assert_eq!(m, "String is the wrong size"),
        other => panic!("unexpected {:?}", other),
    }
}

#[test]
fn signature_decodes_to_its_bytes() {
    assert_eq!(parse_signature(&"1".repeat(64)).unwrap(), [0u8; 64]);
}

#[test]
fn signature_errors_carry_their_text() {
    match parse_signature("0OIl") {
        Err(RpcError::InvalidPubkey(m)) => assert_eq!(m, "failed to decode string to signature"),
        other => panic!("unexpected {:?}", other),
    }
    match parse_signature(&"1".repeat(89)) {
        Err(RpcError::InvalidPubkey(m)) => {
            assert_eq!(m, "string decoded to wrong size for signature")
        }
        other => panic!("unexpected {:?}", other),
    }
}

#[test]
fn any_non_base58_character_is_invalid() {
    for bad in ["0", "O", "I", "l", "1111+", "é", "11111111111111111111111111111111 "] {
        match parse_wallet_address(bad) {
            Err(RpcError::InvalidPubkey(m)) => assert_eq!(m, "Invalid Base58 string", "{bad}"),
            other => panic!("unexpected {:?}", other),
        }
        match parse_signature(bad) {
            Err(RpcError::InvalidPubkey(m)) => {
                assert_eq!(m, "failed to decode string to signature", "{bad}")
            }
            other => panic!("unexpected {:?}", other),
        }
    }
}

#[test]
fn a_readable_text_that_is_no_key_is_refused() {
    match parse_wallet_address("not-a-pubkey") {
        Err(RpcError::InvalidPubkey(m)) => assert_eq!(m, "Invalid Base58 string"),
        other => panic!("unexpected {:?}", other),
    }
}
