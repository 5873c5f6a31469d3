//! The outside crates this library calls, and what it believes of them.
//!
//! Every item here is trusted: Verus takes its contract without proof.

use chrono::TimeZone;
use std::str::FromStr;
use vstd::prelude::*;
use vstd::string::StringSliceAdditionalSpecFns;

verus! {

/// `rust_decimal::Decimal`, carried opaquely.
#[verifier::external_type_specification]
#[verifier::external_body]
pub struct ExDecimal(rust_decimal::Decimal);

/// `serde_json::Value`, carried opaquely.
#[verifier::external_type_specification]
#[verifier::external_body]
pub struct ExJsonValue(serde_json::Value);

/// The decimal that `rust_decimal` computes as `numerator / divisor`.
pub uninterp spec fn decimal_quotient(numerator: int, divisor: int) -> rust_decimal::Decimal;

/// `Decimal::from(numerator) / Decimal::from(divisor)` in `rust_decimal`.
/// The quotient is named, not described; the contract leaves out the
/// divisions that `rust_decimal` panics on (a zero divisor) and the
/// numerators that `Decimal::from` rejects (beyond 96 bits).
#[verifier::external_body]
pub(crate) fn decimal_ratio(numerator: i128, divisor: u64) -> (d: rust_decimal::Decimal)
    requires
        divisor > 0,
        -0x1_0000_0000_0000_0000_0000_0000 < numerator < 0x1_0000_0000_0000_0000_0000_0000,
    ensures
        d == decimal_quotient(numerator as int, divisor as int),
{
    rust_decimal::Decimal::from(numerator) / rust_decimal::Decimal::from(divisor)
}

/// Whether `chrono` represents the Unix time `secs` (whole seconds) as a
/// UTC date and time: whether it falls between the first second of
/// -262143-01-01 and the last second of 262142-12-31, chrono's range of dates.
pub open spec fn utc_representable(secs: int) -> bool {
    -8_334_601_228_800 <= secs <= 8_210_266_876_799
}

/// Whether `Utc.timestamp_opt(secs, 0).single()` of `chrono` gives an
/// instant: it does exactly for the times in chrono's range of dates (its
/// days from the common era must give a year within `MIN_YEAR..=MAX_YEAR`,
/// -262143..=262142).
#[verifier::external_body]
pub(crate) fn utc_timestamp_is_valid(secs: i64) -> (r: bool)
    ensures
        r == utc_representable(secs as int),
{
    chrono::Utc.timestamp_opt(secs, 0).single().is_some()
}

/// Whether `c` belongs to the base58 alphabet of Bitcoin and Solana: the
/// digits and letters but `0`, `O`, `I` and `l`.
pub open spec fn is_base58_char(c: char) -> bool {
    ||| '1' <= c <= '9'
    ||| 'A' <= c <= 'H'
    ||| 'J' <= c <= 'N'
    ||| 'P' <= c <= 'Z'
    ||| 'a' <= c <= 'k'
    ||| 'm' <= c <= 'z'
}

/// Whether every character of `s` is in the base58 alphabet.
pub open spec fn all_base58(s: Seq<char>) -> bool {
    forall|i: int| 0 <= i < s.len() ==> #[trigger] is_base58_char(s[i])
}

/// What `solana_pubkey::Pubkey::from_str` gives for a string: the 32 bytes of
/// the base58 address, or the text of its error.
pub uninterp spec fn pubkey_decoding(s: Seq<char>) -> Result<Seq<u8>, Seq<char>>;

/// `Pubkey::from_str` of `solana_pubkey`, its key taken as bytes and its error
/// as text. The base58 decoding is named; the contract states the two error
/// texts that its `Display` writes, that strings of more than 44 bytes are
/// refused for their size before any decoding, and that a string within that
/// size holding a character outside the base58 alphabet is refused as
/// invalid (`five8` checks every character before it decodes).
#[verifier::external_body]
pub(crate) fn decode_pubkey(s: &str) -> (r: Result<[u8; 32], String>)
    ensures
        (match r {
            Ok(b) => pubkey_decoding(s@) == Ok::<Seq<u8>, Seq<char>>(b@),
            Err(m) => pubkey_decoding(s@) == Err::<Seq<u8>, Seq<char>>(m@),
        }),
        r matches Err(m) ==> (m@ == "String is the wrong size"@ || m@ == "Invalid Base58 string"@),
        44 < s.spec_bytes().len() ==> r is Err,
        r matches Err(m) ==> (44 < s.spec_bytes().len() ==> m@ == "String is the wrong size"@),
        s.spec_bytes().len() <= 44 && !all_base58(s@) ==> r is Err,
        r matches Err(m) ==> (s.spec_bytes().len() <= 44 && !all_base58(s@) ==> m@ == "Invalid Base58 string"@),
{
    match solana_pubkey::Pubkey::from_str(s) {
        Ok(p) => Ok(p.to_bytes()),
        Err(e) => Err(e.to_string()),
    }
}

/// What `solana_signature::Signature::from_str` gives for a string: the 64
/// bytes of the base58 signature, or the text of its error.
pub uninterp spec fn signature_decoding(s: Seq<char>) -> Result<Seq<u8>, Seq<char>>;

/// `Signature::from_str` of `solana_signature`, its bytes taken as an array
/// and its error as text. The base58 decoding is named; the contract states
/// the two error texts that its `Display` writes, that strings of more than
/// 88 bytes are refused for their size before any decoding, and that a
/// string within that size holding a character outside the base58 alphabet
/// is refused as invalid (`five8` checks every character before it decodes).
#[verifier::external_body]
pub(crate) fn decode_signature(s: &str) -> (r: Result<[u8; 64], String>)
    ensures
        (match r {
            Ok(b) => signature_decoding(s@) == Ok::<Seq<u8>, Seq<char>>(b@),
            Err(m) => signature_decoding(s@) == Err::<Seq<u8>, Seq<char>>(m@),
        }),
        r matches Err(m) ==> (m@ == "string decoded to wrong size for signature"@ || m@ == "failed to decode string to signature"@),
        88 < s.spec_bytes().len() ==> r is Err,
        r matches Err(m) ==> (88 < s.spec_bytes().len() ==> m@ == "string decoded to wrong size for signature"@),
        s.spec_bytes().len() <= 88 && !all_base58(s@) ==> r is Err,
        r matches Err(m) ==> (s.spec_bytes().len() <= 88 && !all_base58(s@) ==> m@ == "failed to decode string to signature"@),
{
    match solana_signature::Signature::from_str(s) {
        Ok(sig) => Ok(sig.into()),
        Err(e) => Err(e.to_string()),
    }
}

} // verus!
