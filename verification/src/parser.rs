//! Decoding of confirmed transactions into the token transfers of a wallet.

use crate::amount::{lemma_pow10_is_power_of_ten, parse_u64, pow10, scaled_decimal, spec_parse_u64};
use crate::common::{
    opt_text, TokenTransfer, TokenTransferModel, Transaction, TransactionModel, TransferDirection,
};
use crate::external::{decimal_quotient, utc_representable, utc_timestamp_is_valid};
use vstd::prelude::*;

verus! {

/// A token account of a wallet, as the RPC node reports it.
#[derive(Debug)]
pub struct TokenAccountInfo {
    pub mint: String,
    pub amount_raw: u64,
    pub decimals: u8,
}

/// A [`TokenAccountInfo`] with its mint taken as characters.
pub ghost struct TokenAccountModel {
    pub mint: Seq<char>,
    pub amount_raw: u64,
    pub decimals: u8,
}

impl View for TokenAccountInfo {
    type V = TokenAccountModel;

    open spec fn view(&self) -> TokenAccountModel {
        TokenAccountModel { mint: self.mint@, amount_raw: self.amount_raw, decimals: self.decimals }
    }
}

/// One token balance of an account, before or after a transaction.
#[derive(Debug)]
pub struct UiTokenBalance {
    pub mint: String,
    pub owner: Option<String>,
    /// The raw amount, as decimal text.
    pub amount: String,
    pub decimals: u8,
}

/// The status part of a confirmed transaction.
#[derive(Debug)]
pub struct StatusMeta {
    /// Whether the transaction carries an error.
    pub failed: bool,
    pub fee: u64,
    pub pre_token_balances: Option<Vec<UiTokenBalance>>,
    pub post_token_balances: Option<Vec<UiTokenBalance>>,
    /// The whole status part as JSON, where it could be serialised.
    pub raw_meta: Option<serde_json::Value>,
}

/// A confirmed transaction, as the RPC node returns it.
#[derive(Debug)]
pub struct ConfirmedTransaction {
    pub slot: u64,
    pub block_time: Option<i64>,
    pub meta: Option<StatusMeta>,
}

/// The balances of an optional list; a missing list has none.
pub open spec fn balances_of(v: Option<Vec<UiTokenBalance>>) -> Seq<UiTokenBalance> {
    match v {
        Some(v) => v@,
        None => Seq::empty(),
    }
}

/// The owner of a balance, the empty text where it has none.
pub open spec fn owner_text(b: UiTokenBalance) -> Seq<char> {
    match b.owner {
        Some(o) => o@,
        None => Seq::empty(),
    }
}

/// The value of an amount text, zero where it does not read as a `u64`.
pub open spec fn amount_or_zero(s: Seq<char>) -> u64 {
    match spec_parse_u64(s) {
        Some(v) => v,
        None => 0,
    }
}

/// Whether balance `b` is of token `mint` and owned by `wallet`.
pub open spec fn held_by(b: UiTokenBalance, mint: Seq<char>, wallet: Seq<char>) -> bool {
    &&& b.mint@ == mint
    &&& b.owner matches Some(o) && o@ == wallet
}

/// The amount of `mint` that `wallet` held before the transaction: that of
/// the first such balance in `pre`, zero where there is none or its amount
/// does not read as a `u64`.
pub open spec fn pre_amount(pre: Seq<UiTokenBalance>, mint: Seq<char>, wallet: Seq<char>) -> u64
    decreases pre.len(),
{
    if pre.len() == 0 {
        0
    } else if held_by(pre[0], mint, wallet) {
        amount_or_zero(pre[0].amount@)
    } else {
        pre_amount(pre.drop_first(), mint, wallet)
    }
}

/// Whether the later balance `b` belongs to `wallet` and differs from what
/// the wallet held of that token before.
pub open spec fn changes_balance(b: UiTokenBalance, pre: Seq<UiTokenBalance>, wallet: Seq<char>) -> bool {
    &&& owner_text(b) == wallet
    &&& amount_or_zero(b.amount@) != pre_amount(pre, b.mint@, wallet)
}

/// The direction of a change from `before` to `after`.
pub open spec fn direction_of(before: u64, after: u64) -> TransferDirection {
    if after > before {
        TransferDirection::In
    } else {
        TransferDirection::Out
    }
}

/// The size of a change from `before` to `after`, cast to `i64` (so wrapped
/// where it exceeds `i64::MAX`).
pub open spec fn change_of(before: u64, after: u64) -> i64 {
    if after > before {
        (after - before) as i64
    } else {
        (before - after) as i64
    }
}

/// The transfer recorded for the later balance `b`.
pub open spec fn transfer_of(
    b: UiTokenBalance,
    pre: Seq<UiTokenBalance>,
    signature: Seq<char>,
    wallet: Seq<char>,
) -> TokenTransferModel {
    let after = amount_or_zero(b.amount@);
    let before = pre_amount(pre, b.mint@, wallet);
    let raw = change_of(before, after);
    TokenTransferModel {
        id: 0,
        signature: signature,
        wallet_address: wallet,
        mint: b.mint@,
        direction: direction_of(before, after),
        amount_raw: raw,
        amount: Some(decimal_quotient(raw as int, pow10(b.decimals as nat) as int)),
        price_usd: None,
        value_usd: None,
    }
}

/// The transfers recorded for the later balances `post`, in their order: one
/// for each balance of `wallet` that changed.
pub open spec fn transfers_of(
    post: Seq<UiTokenBalance>,
    pre: Seq<UiTokenBalance>,
    signature: Seq<char>,
    wallet: Seq<char>,
) -> Seq<TokenTransferModel>
    decreases post.len(),
{
    if post.len() == 0 {
        Seq::empty()
    } else {
        let rest = transfers_of(post.drop_last(), pre, signature, wallet);
        if changes_balance(post.last(), pre, wallet) {
            rest.push(transfer_of(post.last(), pre, signature, wallet))
        } else {
            rest
        }
    }
}

/// The transaction record built from a confirmed transaction.
pub open spec fn transaction_of(
    signature: Seq<char>,
    wallet: Seq<char>,
    slot: u64,
    block_time: i64,
    meta: StatusMeta,
) -> TransactionModel {
    TransactionModel {
        signature: signature,
        wallet_address: wallet,
        slot: slot as i64,
        block_time: block_time,
        tx_type: None,
        status: if meta.failed {
            "failed"@
        } else {
            "success"@
        },
        fee_lamports: Some(meta.fee as i64),
        raw_meta: meta.raw_meta,
    }
}

/// What decoding a confirmed transaction gives: nothing where it has no
/// status part, no block time, or a block time that chrono cannot represent;
/// else its record and the transfers of `wallet`.
pub open spec fn spec_parse_transaction(
    signature: Seq<char>,
    wallet: Seq<char>,
    tx: ConfirmedTransaction,
) -> Option<(TransactionModel, Seq<TokenTransferModel>)> {
    match tx.meta {
        None => None,
        Some(meta) => match tx.block_time {
            None => None,
            Some(t) => if !utc_representable(t as int) {
                None
            } else {
                Some(
                    (
                        transaction_of(signature, wallet, tx.slot, t, meta),
                        transfers_of(
                            balances_of(meta.post_token_balances),
                            balances_of(meta.pre_token_balances),
                            signature,
                            wallet,
                        ),
                    ),
                )
            },
        },
    }
}

/// Whether decoding `tx` for `wallet` stays clear of overflow: where the
/// transaction gets as far as its transfers (it has a status part and a block
/// time that chrono represents), every changed balance of `wallet` has at
/// most 19 decimals, so that `10^decimals` fits in a `u64`.
pub open spec fn decimals_fit(wallet: Seq<char>, tx: ConfirmedTransaction) -> bool {
    match tx.meta {
        None => true,
        Some(meta) => {
            let post = balances_of(meta.post_token_balances);
            let pre = balances_of(meta.pre_token_balances);
            tx.block_time matches Some(t) && utc_representable(t as int) ==> forall|i: int|
                0 <= i < post.len() && changes_balance(post[i], pre, wallet) ==> #[trigger] post[i].decimals
                    <= 19
        },
    }
}

/// A recorded transfer reconciles the wallet's balance of its token: it is
/// never empty, and, where the change fits in an `i64`, moving the earlier
/// amount by the transfer in its direction gives the later amount.
pub proof fn lemma_transfer_reconciles(
    b: UiTokenBalance,
    pre: Seq<UiTokenBalance>,
    signature: Seq<char>,
    wallet: Seq<char>,
)
    requires
        changes_balance(b, pre, wallet),
    ensures
        ({
            let t = transfer_of(b, pre, signature, wallet);
            let before = pre_amount(pre, b.mint@, wallet) as int;
            let after = amount_or_zero(b.amount@) as int;
            &&& t.amount_raw != 0
            &&& t.mint == b.mint@
            &&& t.wallet_address == wallet
            &&& t.signature == signature
            &&& (after - before <= i64::MAX && before - after <= i64::MAX) ==> {
                &&& t.direction == TransferDirection::In ==> after == before + t.amount_raw
                &&& t.direction == TransferDirection::Out ==> after == before - t.amount_raw
            }
        }),
{
    let before = pre_amount(pre, b.mint@, wallet);
    let after = amount_or_zero(b.amount@);
    if after > before {
        let d: u64 = (after - before) as u64;
        assert(d != 0 ==> d as i64 != 0) by (bit_vector);
    } else {
        let d: u64 = (before - after) as u64;
        assert(d != 0 ==> d as i64 != 0) by (bit_vector);
    }
}

/// The recorded transfers come from the wallet's changed later balances, at
/// most one each, in their order: every transfer is the transfer of some
/// later balance of the wallet that changed.
pub proof fn lemma_transfers_from_changes(
    post: Seq<UiTokenBalance>,
    pre: Seq<UiTokenBalance>,
    signature: Seq<char>,
    wallet: Seq<char>,
)
    ensures
        transfers_of(post, pre, signature, wallet).len() <= post.len(),
        forall|k: int|
            0 <= k < transfers_of(post, pre, signature, wallet).len() ==> exists|j: int|
                0 <= j < post.len() && changes_balance(post[j], pre, wallet)
                    && #[trigger] transfers_of(post, pre, signature, wallet)[k] == transfer_of(
                    post[j],
                    pre,
                    signature,
                    wallet,
                ),
    decreases post.len(),
{
    if post.len() > 0 {
        let init = post.drop_last();
        lemma_transfers_from_changes(init, pre, signature, wallet);
        let rest = transfers_of(init, pre, signature, wallet);
        let all = transfers_of(post, pre, signature, wallet);
        assert forall|k: int| 0 <= k < all.len() implies exists|j: int|
            0 <= j < post.len() && changes_balance(post[j], pre, wallet) && #[trigger] all[k]
                == transfer_of(post[j], pre, signature, wallet) by {
            if k < rest.len() {
                assert(all[k] == rest[k]);
                let j = choose|j: int|
                    0 <= j < init.len() && changes_balance(init[j], pre, wallet) && rest[k]
                        == transfer_of(init[j], pre, signature, wallet);
                assert(post[j] == init[j]);
            } else {
                assert(all[k] == transfer_of(post[post.len() - 1], pre, signature, wallet));
            }
        }
    }
}

/// The decimal amount of every recorded transfer is its own raw amount
/// scaled down by ten to the power of the token's decimals, and its raw
/// amount is the change of the wallet's balance (cast to `i64`).
pub proof fn lemma_transfer_amount_scaled(
    b: UiTokenBalance,
    pre: Seq<UiTokenBalance>,
    signature: Seq<char>,
    wallet: Seq<char>,
)
    requires
        changes_balance(b, pre, wallet),
    ensures
        ({
            let t = transfer_of(b, pre, signature, wallet);
            let before = pre_amount(pre, b.mint@, wallet);
            let after = amount_or_zero(b.amount@);
            &&& t.amount == Some(
                decimal_quotient(t.amount_raw as int, vstd::arithmetic::power::pow(10, b.decimals as nat)),
            )
            &&& after > before ==> t.amount_raw == (after - before) as i64
            &&& after < before ==> t.amount_raw == (before - after) as i64
        }),
{
    lemma_pow10_is_power_of_ten(b.decimals as nat);
}

/// Every transfer in a decoded list carries the raw change of some later
/// balance of its mint, scaled by ten to the power of that balance's
/// decimals.
pub proof fn lemma_transfer_amounts_scaled(
    post: Seq<UiTokenBalance>,
    pre: Seq<UiTokenBalance>,
    signature: Seq<char>,
    wallet: Seq<char>,
)
    ensures
        forall|k: int|
            0 <= k < transfers_of(post, pre, signature, wallet).len() ==> exists|j: int|
                0 <= j < post.len() && post[j].mint@ == (#[trigger] transfers_of(
                    post,
                    pre,
                    signature,
                    wallet,
                )[k]).mint && transfers_of(post, pre, signature, wallet)[k].amount == Some(
                    decimal_quotient(
                        transfers_of(post, pre, signature, wallet)[k].amount_raw as int,
                        vstd::arithmetic::power::pow(10, post[j].decimals as nat),
                    ),
                ),
{
    lemma_transfers_from_changes(post, pre, signature, wallet);
    let ts = transfers_of(post, pre, signature, wallet);
    assert forall|k: int| 0 <= k < ts.len() implies exists|j: int|
        0 <= j < post.len() && post[j].mint@ == (#[trigger] ts[k]).mint && ts[k].amount == Some(
            decimal_quotient(ts[k].amount_raw as int, vstd::arithmetic::power::pow(10, post[j].decimals as nat)),
        ) by {
        let j = choose|j: int|
            0 <= j < post.len() && changes_balance(post[j], pre, wallet) && ts[k] == transfer_of(
                post[j],
                pre,
                signature,
                wallet,
            );
        lemma_transfer_amount_scaled(post[j], pre, signature, wallet);
    }
}

/// The earlier amount is that of the first earlier balance of the token
/// owned by the wallet (zero where its text does not read as a number), and
/// zero where there is none.
pub proof fn lemma_pre_amount_first_match(pre: Seq<UiTokenBalance>, mint: Seq<char>, wallet: Seq<char>, i: int)
    requires
        0 <= i <= pre.len(),
        forall|j: int| 0 <= j < i ==> !held_by(#[trigger] pre[j], mint, wallet),
    ensures
        i < pre.len() && held_by(pre[i], mint, wallet) ==> pre_amount(pre, mint, wallet) == amount_or_zero(
            pre[i].amount@,
        ),
        i == pre.len() ==> pre_amount(pre, mint, wallet) == 0,
    decreases i,
{
    if i > 0 {
        let rest = pre.drop_first();
        assert(!held_by(pre[0], mint, wallet));
        assert forall|j: int| 0 <= j < i - 1 implies !held_by(#[trigger] rest[j], mint, wallet) by {
            assert(rest[j] == pre[j + 1]);
        }
        lemma_pre_amount_first_match(rest, mint, wallet, i - 1);
        if i < pre.len() {
            assert(rest[i - 1] == pre[i]);
        }
    }
}

/// Decoding keeps the order of the later balances: one more later balance at
/// the end adds its transfer at the end where it changed the wallet's
/// holding, and nothing where it did not.
pub proof fn lemma_transfers_in_order(
    post: Seq<UiTokenBalance>,
    b: UiTokenBalance,
    pre: Seq<UiTokenBalance>,
    signature: Seq<char>,
    wallet: Seq<char>,
)
    ensures
        transfers_of(post.push(b), pre, signature, wallet) == if changes_balance(b, pre, wallet) {
            transfers_of(post, pre, signature, wallet).push(transfer_of(b, pre, signature, wallet))
        } else {
            transfers_of(post, pre, signature, wallet)
        },
{
    assert(post.push(b).drop_last() =~= post);
}

/// Every later balance of the wallet that changed is recorded: its transfer
/// is among the decoded transfers.
pub proof fn lemma_changes_are_recorded(
    post: Seq<UiTokenBalance>,
    pre: Seq<UiTokenBalance>,
    signature: Seq<char>,
    wallet: Seq<char>,
    j: int,
)
    requires
        0 <= j < post.len(),
        changes_balance(post[j], pre, wallet),
    ensures
        transfers_of(post, pre, signature, wallet).contains(transfer_of(post[j], pre, signature, wallet)),
    decreases post.len(),
{
    let init = post.drop_last();
    let ts = transfers_of(post, pre, signature, wallet);
    if j < post.len() - 1 {
        assert(init[j] == post[j]);
        lemma_changes_are_recorded(init, pre, signature, wallet, j);
        let rest = transfers_of(init, pre, signature, wallet);
        let k = choose|k: int| 0 <= k < rest.len() && rest[k] == transfer_of(post[j], pre, signature, wallet);
        assert(ts[k] == rest[k]);
    } else {
        assert(ts[ts.len() - 1] == transfer_of(post[j], pre, signature, wallet));
    }
}

/// Decoding gives nothing exactly where the transaction lacks a status part
/// or a block time, or where chrono does not represent its block time.
pub proof fn lemma_parse_none_exactly(signature: Seq<char>, wallet: Seq<char>, tx: ConfirmedTransaction)
    ensures
        spec_parse_transaction(signature, wallet, tx) is None <==> (tx.meta is None
            || tx.block_time is None || !utc_representable(tx.block_time->0 as int)),
{
}

/// The later balances owned by `wallet`, in their order.
pub open spec fn wallet_balances(post: Seq<UiTokenBalance>, wallet: Seq<char>) -> Seq<UiTokenBalance>
    decreases post.len(),
{
    if post.len() == 0 {
        Seq::empty()
    } else {
        let rest = wallet_balances(post.drop_last(), wallet);
        if owner_text(post.last()) == wallet {
            rest.push(post.last())
        } else {
            rest
        }
    }
}

/// The earlier balances whose owner is `wallet`, in their order.
pub open spec fn wallet_entries(pre: Seq<UiTokenBalance>, wallet: Seq<char>) -> Seq<UiTokenBalance>
    decreases pre.len(),
{
    if pre.len() == 0 {
        Seq::empty()
    } else {
        let rest = wallet_entries(pre.drop_first(), wallet);
        if pre[0].owner matches Some(o) && o@ == wallet {
            seq![pre[0]] + rest
        } else {
            rest
        }
    }
}

proof fn lemma_pre_amount_own_entries(pre: Seq<UiTokenBalance>, mint: Seq<char>, wallet: Seq<char>)
    ensures
        pre_amount(pre, mint, wallet) == pre_amount(wallet_entries(pre, wallet), mint, wallet),
    decreases pre.len(),
{
    if pre.len() > 0 {
        lemma_pre_amount_own_entries(pre.drop_first(), mint, wallet);
        let rest = wallet_entries(pre.drop_first(), wallet);
        if pre[0].owner matches Some(o) && o@ == wallet {
            let e = seq![pre[0]] + rest;
            assert(e[0] == pre[0]);
            assert(e.drop_first() =~= rest);
        }
    }
}

proof fn lemma_transfers_own_entries(
    post: Seq<UiTokenBalance>,
    pre: Seq<UiTokenBalance>,
    signature: Seq<char>,
    wallet: Seq<char>,
)
    ensures
        transfers_of(post, pre, signature, wallet) == transfers_of(
            wallet_balances(post, wallet),
            wallet_entries(pre, wallet),
            signature,
            wallet,
        ),
    decreases post.len(),
{
    if post.len() > 0 {
        let b = post.last();
        lemma_transfers_own_entries(post.drop_last(), pre, signature, wallet);
        lemma_pre_amount_own_entries(pre, b.mint@, wallet);
        let wb = wallet_balances(post, wallet);
        if owner_text(b) == wallet {
            assert(wb.drop_last() =~= wallet_balances(post.drop_last(), wallet));
            assert(wb.last() == b);
        }
    }
}

/// Balances of other owners never change the transfers: two transactions
/// whose later balances owned by `wallet` agree, and whose earlier balances
/// owned by `wallet` agree, give `wallet` the same transfers, in the same
/// order, whatever balances of other accounts either holds.
pub proof fn lemma_other_owners_do_not_matter(
    post1: Seq<UiTokenBalance>,
    pre1: Seq<UiTokenBalance>,
    post2: Seq<UiTokenBalance>,
    pre2: Seq<UiTokenBalance>,
    signature: Seq<char>,
    wallet: Seq<char>,
)
    requires
        wallet_balances(post1, wallet) == wallet_balances(post2, wallet),
        wallet_entries(pre1, wallet) == wallet_entries(pre2, wallet),
    ensures
        transfers_of(post1, pre1, signature, wallet) == transfers_of(post2, pre2, signature, wallet),
{
    lemma_transfers_own_entries(post1, pre1, signature, wallet);
    lemma_transfers_own_entries(post2, pre2, signature, wallet);
}

/// The models of a decoded transaction and its transfers.
pub open spec fn parsed_view(r: Option<(Transaction, Vec<TokenTransfer>)>) -> Option<
    (TransactionModel, Seq<TokenTransferModel>),
> {
    match r {
        Some((t, v)) => Some((t@, v@.map_values(|x: TokenTransfer| x@))),
        None => None,
    }
}

fn same_text(a: &String, b: &String) -> (r: bool)
    ensures
        r == (a@ == b@),
{
    *a == *b
}

/// The amount of `mint` that `wallet` held before, as `pre_amount` says.
fn find_pre_amount(pre: &Vec<UiTokenBalance>, mint: &String, wallet: &String) -> (r: u64)
    ensures
        r == pre_amount(pre@, mint@, wallet@),
{
    let mut j: usize = 0;
    assert(pre@.skip(0) =~= pre@);
    while j < pre.len()
        invariant
            j <= pre@.len(),
            pre_amount(pre@, mint@, wallet@) == pre_amount(pre@.skip(j as int), mint@, wallet@),
        decreases pre@.len() - j,
    {
        let b = &pre[j];
        assert(pre@.skip(j as int)[0] == pre@[j as int]);
        assert(pre@.skip(j as int).drop_first() =~= pre@.skip(j + 1));
        let held = match &b.owner {
            Some(o) => same_text(&b.mint, mint) && same_text(o, wallet),
            None => false,
        };
        if held {
            return match parse_u64(b.amount.as_str()) {
                Some(v) => v,
                None => 0,
            };
        }
        j = j + 1;
    }
    0
}

/// Whether the later balance `b` belongs to `wallet` and changed, as
/// `changes_balance` says.
fn balance_changed(b: &UiTokenBalance, pre: &Vec<UiTokenBalance>, wallet: &String) -> (r: bool)
    ensures
        r == changes_balance(*b, pre@, wallet@),
{
    let owned = match &b.owner {
        Some(o) => same_text(o, wallet),
        None => {
            let e = wallet.as_str().is_empty();
            proof {
                if e {
                    assert(wallet@ =~= Seq::<char>::empty());
                }
            }
            e
        },
    };
    if !owned {
        return false;
    }
    let after = match parse_u64(b.amount.as_str()) {
        Some(v) => v,
        None => 0,
    };
    let before = find_pre_amount(pre, &b.mint, wallet);
    after != before
}

/// Whether `parse_transaction` can decode `tx` for `wallet_address` without
/// overflowing `10^decimals`: `decimals_fit`, computed.
pub fn transfer_decimals_fit(wallet_address: &str, tx: &ConfirmedTransaction) -> (r: bool)
    ensures
        r == decimals_fit(wallet_address@, *tx),
{
    let meta = match &tx.meta {
        Some(m) => m,
        None => return true,
    };
    match tx.block_time {
        Some(t) => if !utc_timestamp_is_valid(t) {
            return true;
        },
        None => return true,
    }
    let empty_pre: Vec<UiTokenBalance> = Vec::new();
    let empty_post: Vec<UiTokenBalance> = Vec::new();
    let pre: &Vec<UiTokenBalance> = match &meta.pre_token_balances {
        Some(v) => v,
        None => &empty_pre,
    };
    let post: &Vec<UiTokenBalance> = match &meta.post_token_balances {
        Some(v) => v,
        None => &empty_post,
    };
    let wallet = String::from_str(wallet_address);
    let mut i: usize = 0;
    while i < post.len()
        invariant
            i <= post@.len(),
            wallet@ == wallet_address@,
            tx.meta == Some(*meta),
            tx.block_time matches Some(t) && utc_representable(t as int),
            post@ == balances_of(meta.post_token_balances),
            pre@ == balances_of(meta.pre_token_balances),
            forall|k: int|
                0 <= k < i && changes_balance(post@[k], pre@, wallet@) ==> #[trigger] post@[k].decimals
                    <= 19,
        decreases post@.len() - i,
    {
        if balance_changed(&post[i], pre, &wallet) && post[i].decimals > 19 {
            assert(changes_balance(post@[i as int], pre@, wallet@) && post@[i as int].decimals > 19);
            assert(!decimals_fit(wallet_address@, *tx));
            return false;
        }
        i = i + 1;
    }
    true
}

/// Decodes a confirmed transaction `tx` for the wallet `wallet_address`.
///
/// Gives `None` where the transaction has no status part or no block time,
/// or where chrono cannot represent its block time. Otherwise gives the
/// transaction record (status `"success"` or `"failed"`, the fee, no type)
/// and, for each later token balance owned by the wallet whose amount
/// differs from what the wallet held of that token before (zero where it
/// held none, and an amount text that does not read as a number counting as
/// zero), a transfer in the direction of the change, of its size, scaled by
/// the token's decimals.
pub fn parse_transaction(signature: &str, wallet_address: &str, tx: ConfirmedTransaction) -> (r:
    Option<(Transaction, Vec<TokenTransfer>)>)
    requires
        decimals_fit(wallet_address@, tx),
    ensures
        parsed_view(r) == spec_parse_transaction(signature@, wallet_address@, tx),
{
    let ghost tx0 = tx;
    let ConfirmedTransaction { slot, block_time, meta } = tx;
    let meta = match meta {
        Some(m) => m,
        None => return None,
    };
    let t = match block_time {
        Some(t) => t,
        None => return None,
    };
    if !utc_timestamp_is_valid(t) {
        return None;
    }
    let ghost meta0 = meta;
    let StatusMeta { failed, fee, pre_token_balances, post_token_balances, raw_meta } = meta;
    let status = if !failed {
        String::from_str("success")
    } else {
        String::from_str("failed")
    };
    let transaction = Transaction {
        signature: String::from_str(signature),
        wallet_address: String::from_str(wallet_address),
        slot: slot as i64,
        block_time: t,
        tx_type: None,
        status: status,
        fee_lamports: Some(fee as i64),
        raw_meta: raw_meta,
    };
    let empty_pre: Vec<UiTokenBalance> = Vec::new();
    let empty_post: Vec<UiTokenBalance> = Vec::new();
    let pre: &Vec<UiTokenBalance> = match &pre_token_balances {
        Some(v) => v,
        None => &empty_pre,
    };
    let post: &Vec<UiTokenBalance> = match &post_token_balances {
        Some(v) => v,
        None => &empty_post,
    };
    assert(pre@ == balances_of(meta0.pre_token_balances));
    assert(post@ == balances_of(meta0.post_token_balances));
    let wallet = String::from_str(wallet_address);
    let ghost sig = signature@;
    let mut transfers: Vec<TokenTransfer> = Vec::new();
    let mut i: usize = 0;
    while i < post.len()
        invariant
            i <= post@.len(),
            wallet@ == wallet_address@,
            sig == signature@,
            post@ == balances_of(meta0.post_token_balances),
            pre@ == balances_of(meta0.pre_token_balances),
            forall|k: int|
                0 <= k < post@.len() && changes_balance(post@[k], pre@, wallet@) ==> #[trigger] post@[k].decimals
                    <= 19,
            transfers@.map_values(|x: TokenTransfer| x@) == transfers_of(
                post@.take(i as int),
                pre@,
                sig,
                wallet@,
            ),
        decreases post@.len() - i,
    {
        let b = &post[i];
        assert(post@.take(i + 1).drop_last() =~= post@.take(i as int));
        assert(post@.take(i + 1).last() == post@[i as int]);
        let owned = match &b.owner {
            Some(o) => same_text(o, &wallet),
            None => {
                let e = wallet_address.is_empty();
                proof {
                    if e {
                        assert(wallet@ =~= Seq::<char>::empty());
                    }
                }
                e
            },
        };
        assert(owned == (owner_text(*b) == wallet@));
        let ghost prev = transfers@.map_values(|x: TokenTransfer| x@);
        if owned {
            let after = match parse_u64(b.amount.as_str()) {
                Some(v) => v,
                None => 0,
            };
            let before = find_pre_amount(pre, &b.mint, &wallet);
            assert(changes_balance(post@[i as int], pre@, wallet@) == (after != before));
            if after != before {
                let (direction, amount_raw) = if after > before {
                    (TransferDirection::In, (after - before) as i64)
                } else {
                    (TransferDirection::Out, (before - after) as i64)
                };
                let amount = scaled_decimal(amount_raw as i128, b.decimals as u32);
                let transfer = TokenTransfer {
                    id: 0,
                    signature: String::from_str(signature),
                    wallet_address: String::from_str(wallet_address),
                    mint: b.mint.clone(),
                    direction: direction,
                    amount_raw: amount_raw,
                    amount: Some(amount),
                    price_usd: None,
                    value_usd: None,
                };
                let ghost before_push = transfers@;
                transfers.push(transfer);
                assert(transfers@.map_values(|x: TokenTransfer| x@) =~= before_push.map_values(
                    |x: TokenTransfer| x@,
                ).push(transfer_of(post@[i as int], pre@, sig, wallet@)));
            } else {
                assert(transfers@.map_values(|x: TokenTransfer| x@) == prev);
            }
        } else {
            assert(!changes_balance(post@[i as int], pre@, wallet@));
        }
        i = i + 1;
    }
    assert(post@.take(post@.len() as int) =~= post@);
    Some((transaction, transfers))
}

} // verus!
