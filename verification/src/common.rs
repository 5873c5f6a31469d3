//! The records the tracker stores: transactions and token transfers.

use vstd::prelude::*;

verus! {

/// Whether tokens came into the wallet or left it.
#[derive(Clone, Copy, Debug, PartialEq, Eq, Structural)]
pub enum TransferDirection {
    In,
    Out,
}

/// A request to track a wallet, with an optional label.
#[derive(Debug)]
pub struct AddWalletRequest {
    pub address: String,
    pub label: Option<String>,
}

/// A confirmed transaction that touched a tracked wallet.
#[derive(Debug)]
pub struct Transaction {
    pub signature: String,
    pub wallet_address: String,
    pub slot: i64,
    /// Unix time of the block, in whole seconds; always a time that `chrono`
    /// represents as a UTC date and time.
    pub block_time: i64,
    pub tx_type: Option<String>,
    pub status: String,
    pub fee_lamports: Option<i64>,
    pub raw_meta: Option<serde_json::Value>,
}

/// A [`Transaction`] with its text fields taken as character sequences.
pub ghost struct TransactionModel {
    pub signature: Seq<char>,
    pub wallet_address: Seq<char>,
    pub slot: i64,
    pub block_time: i64,
    pub tx_type: Option<Seq<char>>,
    pub status: Seq<char>,
    pub fee_lamports: Option<i64>,
    pub raw_meta: Option<serde_json::Value>,
}

/// The characters of an optional string.
pub open spec fn opt_text(o: Option<String>) -> Option<Seq<char>> {
    match o {
        Some(s) => Some(s@),
        None => None,
    }
}

impl View for Transaction {
    type V = TransactionModel;

    open spec fn view(&self) -> TransactionModel {
        TransactionModel {
            signature: self.signature@,
            wallet_address: self.wallet_address@,
            slot: self.slot,
            block_time: self.block_time,
            tx_type: opt_text(self.tx_type),
            status: self.status@,
            fee_lamports: self.fee_lamports,
            raw_meta: self.raw_meta,
        }
    }
}

/// A change in one token balance of a wallet, caused by one transaction.
#[derive(Debug)]
pub struct TokenTransfer {
    pub id: i32,
    pub signature: String,
    pub wallet_address: String,
    pub mint: String,
    pub direction: TransferDirection,
    pub amount_raw: i64,
    pub amount: Option<rust_decimal::Decimal>,
    pub price_usd: Option<rust_decimal::Decimal>,
    pub value_usd: Option<rust_decimal::Decimal>,
}

/// A [`TokenTransfer`] with its text fields taken as character sequences.
pub ghost struct TokenTransferModel {
    pub id: i32,
    pub signature: Seq<char>,
    pub wallet_address: Seq<char>,
    pub mint: Seq<char>,
    pub direction: TransferDirection,
    pub amount_raw: i64,
    pub amount: Option<rust_decimal::Decimal>,
    pub price_usd: Option<rust_decimal::Decimal>,
    pub value_usd: Option<rust_decimal::Decimal>,
}

impl View for TokenTransfer {
    type V = TokenTransferModel;

    open spec fn view(&self) -> TokenTransferModel {
        TokenTransferModel {
            id: self.id,
            signature: self.signature@,
            wallet_address: self.wallet_address@,
            mint: self.mint@,
            direction: self.direction,
            amount_raw: self.amount_raw,
            amount: self.amount,
            price_usd: self.price_usd,
            value_usd: self.value_usd,
        }
    }
}

} // verus!
