//! The checks and decoding around the tracker's RPC requests.

use crate::amount::{decimal_text, lemma_parse_decimal_text, parse_u64, spec_parse_u64};
use crate::external::{
    all_base58, decode_pubkey, decode_signature, pubkey_decoding, signature_decoding,
};
use crate::parser::{TokenAccountInfo, TokenAccountModel};
use vstd::prelude::*;
use vstd::string::StringSliceAdditionalSpecFns;

verus! {

/// What goes wrong in preparing a request or decoding its reply. Errors of
/// the transport itself are raised where the request is sent.
#[derive(Debug)]
pub enum RpcError {
    /// A wallet address or transaction signature that is not base58 of the
    /// right size; the text says which.
    InvalidPubkey(String),
    /// A reply that lacks what the tracker needs.
    Parse(String),
}

/// What the tracker reads of a token account that the node returned as
/// parsed JSON: `info.mint`, `info.tokenAmount.amount` as text and
/// `info.tokenAmount.decimals` as a number, each absent where the JSON lacks
/// it or holds another kind of value there.
#[derive(Debug)]
pub struct ParsedTokenAccount {
    pub mint: Option<String>,
    pub amount: Option<String>,
    pub decimals: Option<u64>,
}

/// Whether every account in parsed form names its mint.
pub open spec fn all_name_mint(accounts: Seq<Option<ParsedTokenAccount>>) -> bool {
    forall|i: int| 0 <= i < accounts.len() ==> (#[trigger] accounts[i] matches Some(p) ==> p.mint is Some)
}

/// The token account read from a parsed account that names its mint: an
/// amount that is absent or does not read as a `u64` counts as zero, absent
/// decimals as zero, and decimals are cut to their lowest 8 bits.
pub open spec fn account_info_of(p: ParsedTokenAccount) -> TokenAccountModel {
    TokenAccountModel {
        mint: match p.mint {
            Some(m) => m@,
            None => Seq::empty(),
        },
        amount_raw: match p.amount {
            Some(a) => match spec_parse_u64(a@) {
                Some(v) => v,
                None => 0,
            },
            None => 0,
        },
        decimals: match p.decimals {
            Some(d) => d as u8,
            None => 0,
        },
    }
}

/// A token account is read as its node reported it: an amount text that
/// reads as `v` (the decimal text of `v` among them) gives the raw amount
/// `v`, decimals below 256 are kept as they are, and the mint is its text.
pub proof fn lemma_account_read_as_reported(p: ParsedTokenAccount)
    ensures
        p.mint matches Some(m) ==> account_info_of(p).mint == m@,
        p.amount matches Some(a) ==> (spec_parse_u64(a@) matches Some(v) ==> account_info_of(p).amount_raw == v),
        forall|v: u64| p.amount matches Some(a) && a@ == #[trigger] decimal_text(v as nat) ==> account_info_of(p).amount_raw == v,
        p.decimals matches Some(d) ==> (d < 256 ==> account_info_of(p).decimals == d),
{
    assert forall|v: u64| p.amount matches Some(a) && a@ == #[trigger] decimal_text(v as nat) implies account_info_of(p).amount_raw
        == v by {
        lemma_parse_decimal_text(v);
    }
}

/// The token accounts read from `accounts`, in order, skipping those that
/// are not in parsed form.
pub open spec fn account_infos_of(accounts: Seq<Option<ParsedTokenAccount>>) -> Seq<TokenAccountModel>
    decreases accounts.len(),
{
    if accounts.len() == 0 {
        Seq::empty()
    } else {
        let rest = account_infos_of(accounts.drop_last());
        match accounts.last() {
            Some(p) => rest.push(account_info_of(p)),
            None => rest,
        }
    }
}

/// Reading keeps the order of the reply: one more account at the end adds
/// its reading at the end where it is in parsed form, and nothing where it
/// is not.
pub proof fn lemma_accounts_read_in_order(accounts: Seq<Option<ParsedTokenAccount>>, next: Option<ParsedTokenAccount>)
    ensures
        account_infos_of(accounts.push(next)) == match next {
            Some(p) => account_infos_of(accounts).push(account_info_of(p)),
            None => account_infos_of(accounts),
        },
{
    assert(accounts.push(next).drop_last() =~= accounts);
}

/// Whether `info` is the reading of account `j` of `accounts`, which is in
/// parsed form.
pub open spec fn read_from(accounts: Seq<Option<ParsedTokenAccount>>, j: int, info: TokenAccountModel) -> bool {
    0 <= j < accounts.len() && (accounts[j] matches Some(p) && info == account_info_of(p))
}

/// Whether `info` is the reading of some account of `accounts` in parsed
/// form.
pub open spec fn read_from_some(accounts: Seq<Option<ParsedTokenAccount>>, info: TokenAccountModel) -> bool {
    exists|j: int| read_from(accounts, j, info)
}

/// Each account read is the reading of an account in parsed form, and no
/// more are read than there are accounts.
pub proof fn lemma_collected_are_parsed(accounts: Seq<Option<ParsedTokenAccount>>)
    ensures
        account_infos_of(accounts).len() <= accounts.len(),
        forall|k: int|
            0 <= k < account_infos_of(accounts).len() ==> read_from_some(
                accounts,
                #[trigger] account_infos_of(accounts)[k],
            ),
    decreases accounts.len(),
{
    if accounts.len() > 0 {
        let init = accounts.drop_last();
        lemma_collected_are_parsed(init);
        let rest = account_infos_of(init);
        let n = accounts.len() - 1;
        assert forall|k: int| 0 <= k < account_infos_of(accounts).len() implies read_from_some(
            accounts,
            #[trigger] account_infos_of(accounts)[k],
        ) by {
            let all = account_infos_of(accounts);
            if k < rest.len() {
                assert(all[k] == rest[k]);
                assert(read_from_some(init, rest[k]));
                let j = choose|j: int| read_from(init, j, rest[k]);
                assert(accounts[j] == init[j]);
                assert(read_from(accounts, j, all[k]));
            } else if let Some(p) = accounts.last() {
                assert(all == rest.push(account_info_of(p)));
                assert(accounts[n] == accounts.last());
                assert(read_from(accounts, n, all[k]));
            } else {
                assert(all == rest);
            }
        }
        assert(account_infos_of(accounts).len() <= accounts.len());
    } else {
        assert(account_infos_of(accounts).len() == 0);
    }
}

/// Each account in parsed form is read.
pub proof fn lemma_parsed_are_collected(accounts: Seq<Option<ParsedTokenAccount>>)
    ensures
        forall|j: int|
            0 <= j < accounts.len() && (#[trigger] accounts[j]) is Some ==> exists|k: int|
                0 <= k < account_infos_of(accounts).len() && read_from(
                    accounts,
                    j,
                    #[trigger] account_infos_of(accounts)[k],
                ),
    decreases accounts.len(),
{
    if accounts.len() > 0 {
        let init = accounts.drop_last();
        lemma_parsed_are_collected(init);
        let rest = account_infos_of(init);
        let n = accounts.len() - 1;
        assert forall|j: int| 0 <= j < accounts.len() && (#[trigger] accounts[j]) is Some implies exists|k: int|
            0 <= k < account_infos_of(accounts).len() && read_from(
                accounts,
                j,
                #[trigger] account_infos_of(accounts)[k],
            ) by {
            let all = account_infos_of(accounts);
            if j < n {
                assert(init[j] == accounts[j]);
                let k = choose|k: int| 0 <= k < rest.len() && read_from(init, j, #[trigger] rest[k]);
                assert(all[k] == rest[k]);
                assert(read_from(accounts, j, all[k]));
            } else if let Some(p) = accounts.last() {
                assert(all == rest.push(account_info_of(p)));
                assert(read_from(accounts, j, all[all.len() - 1]));
            }
        }
    }
}

/// Reads the token accounts of a wallet from the node's reply, where an
/// entry is `None` for an account whose data did not come as parsed JSON
/// (it is skipped). Fails with `Parse("missing mint")` where an account in
/// parsed form does not name its mint.
pub fn collect_token_accounts(accounts: Vec<Option<ParsedTokenAccount>>) -> (r: Result<
    Vec<TokenAccountInfo>,
    RpcError,
>)
    ensures
        r is Ok <==> all_name_mint(accounts@),
        r matches Ok(v) ==> v@.map_values(|x: TokenAccountInfo| x@) == account_infos_of(accounts@),
        r matches Err(e) ==> e matches RpcError::Parse(m) && m@ == "missing mint"@,
{
    let mut result: Vec<TokenAccountInfo> = Vec::new();
    let mut i: usize = 0;
    while i < accounts.len()
        invariant
            i <= accounts@.len(),
            all_name_mint(accounts@.take(i as int)),
            result@.map_values(|x: TokenAccountInfo| x@) == account_infos_of(accounts@.take(i as int)),
        decreases accounts@.len() - i,
    {
        assert(accounts@.take(i + 1).drop_last() =~= accounts@.take(i as int));
        assert(accounts@.take(i + 1).last() == accounts@[i as int]);
        match &accounts[i] {
            Some(p) => {
                let mint = match &p.mint {
                    Some(m) => m.clone(),
                    None => {
                        assert(!(accounts@[i as int] matches Some(q) ==> q.mint is Some));
                        return Err(RpcError::Parse(String::from_str("missing mint")));
                    },
                };
                let amount_raw = match &p.amount {
                    Some(a) => match parse_u64(a.as_str()) {
                        Some(v) => v,
                        None => 0,
                    },
                    None => 0,
                };
                let decimals = match p.decimals {
                    Some(d) => d as u8,
                    None => 0,
                };
                let ghost before = result@;
                result.push(TokenAccountInfo { mint, amount_raw, decimals });
                assert(result@.map_values(|x: TokenAccountInfo| x@) =~= before.map_values(
                    |x: TokenAccountInfo| x@,
                ).push(account_info_of(*p)));
            },
            None => {},
        }
        i = i + 1;
        assert(all_name_mint(accounts@.take(i as int))) by {
            assert forall|k: int| 0 <= k < i implies (#[trigger] accounts@.take(i as int)[k] matches Some(
                q,
            ) ==> q.mint is Some) by {
                if k < i - 1 {
                    assert(accounts@.take(i as int)[k] == accounts@.take(i - 1)[k]);
                }
            }
        }
    }
    assert(accounts@.take(accounts@.len() as int) =~= accounts@);
    Ok(result)
}

/// Reads a wallet address: the 32 bytes of its base58 form, or
/// `InvalidPubkey` with the text of the decoding error: "String is the wrong
/// size" for more than 44 bytes, "Invalid Base58 string" for a character
/// outside the base58 alphabet.
pub fn parse_wallet_address(address: &str) -> (r: Result<[u8; 32], RpcError>)
    ensures
        (match pubkey_decoding(address@) {
            Ok(b) => r matches Ok(k) && k@ == b,
            Err(m) => r matches Err(RpcError::InvalidPubkey(t)) && t@ == m,
        }),
        44 < address.spec_bytes().len() ==> (r matches Err(RpcError::InvalidPubkey(t)) && t@
            == "String is the wrong size"@),
        address.spec_bytes().len() <= 44 && !all_base58(address@) ==> (r matches Err(
            RpcError::InvalidPubkey(t),
        ) && t@ == "Invalid Base58 string"@),
        r matches Err(e) ==> (e matches RpcError::InvalidPubkey(t) && (t@ == "String is the wrong size"@
            || t@ == "Invalid Base58 string"@)),
{
    match decode_pubkey(address) {
        Ok(k) => Ok(k),
        Err(m) => Err(RpcError::InvalidPubkey(m)),
    }
}

/// Reads a transaction signature: the 64 bytes of its base58 form, or
/// `InvalidPubkey` with the text of the decoding error: "string decoded to
/// wrong size for signature" for more than 88 bytes, "failed to decode
/// string to signature" for a character outside the base58 alphabet.
pub fn parse_signature(signature: &str) -> (r: Result<[u8; 64], RpcError>)
    ensures
        (match signature_decoding(signature@) {
            Ok(b) => r matches Ok(k) && k@ == b,
            Err(m) => r matches Err(RpcError::InvalidPubkey(t)) && t@ == m,
        }),
        88 < signature.spec_bytes().len() ==> (r matches Err(RpcError::InvalidPubkey(t)) && t@
            == "string decoded to wrong size for signature"@),
        signature.spec_bytes().len() <= 88 && !all_base58(signature@) ==> (r matches Err(
            RpcError::InvalidPubkey(t),
        ) && t@ == "failed to decode string to signature"@),
        r matches Err(e) ==> (e matches RpcError::InvalidPubkey(t) && (t@
            == "string decoded to wrong size for signature"@ || t@ == "failed to decode string to signature"@)),
{
    match decode_signature(signature) {
        Ok(k) => Ok(k),
        Err(m) => Err(RpcError::InvalidPubkey(m)),
    }
}

} // verus!
