//! Prices from posted Pyth price updates.
//!
//! A price is taken from an update only through the Pyth receiver SDK, which
//! refuses updates that are not fully verified, that belong to another feed,
//! or that are older than the caller allows.

use vstd::prelude::*;
use anchor_lang::prelude::{Clock, Pubkey};
use pyth_solana_receiver_sdk::error::GetPriceError;
use pyth_solana_receiver_sdk::price_update::{get_feed_id_from_hex, PriceFeedMessage, PriceUpdateV2};
use crate::error::ErrorCode;
use crate::state::Asset;

verus! {

/// How far the guardians' signatures on a price update were checked.
#[derive(Clone, Copy, Debug, PartialEq, Eq)]
pub enum VerificationLevel {
    Partial { num_signatures: u8 },
    Full,
}

/// What the ledger reads of a posted price update.
#[derive(Clone, Copy, Debug, PartialEq, Eq)]
pub struct PriceUpdate {
    /// The feed the update belongs to.
    pub feed_id: [u8; 32],
    pub verification_level: VerificationLevel,
    /// The price, in the feed's own unit.
    pub price: i64,
    /// Unix time, in seconds, at which the price was published.
    pub publish_time: i64,
}

/// Why the SDK handed out no price.
#[derive(Clone, Copy, Debug, PartialEq, Eq, Structural)]
pub enum PriceError {
    PriceTooOld,
    MismatchedFeedId,
    InsufficientVerificationLevel,
}

/// Why a string is not a feed id.
#[derive(Clone, Copy, Debug, PartialEq, Eq, Structural)]
pub enum FeedIdError {
    MustBe32Bytes,
    NonHexCharacter,
}

/// The price that `update` gives for `feed_id` at time `now`, if it is fully
/// verified, of that feed, and published no more than `maximum_age` seconds
/// before `now`; the checks fail in this order.
pub open spec fn price_no_older_than(
    update: PriceUpdate,
    now: i64,
    maximum_age: u64,
    feed_id: Seq<u8>,
) -> Result<i64, PriceError> {
    if !(update.verification_level is Full) {
        Err(PriceError::InsufficientVerificationLevel)
    } else if update.feed_id@ != feed_id {
        Err(PriceError::MismatchedFeedId)
    } else if update.publish_time + maximum_age < now {
        Err(PriceError::PriceTooOld)
    } else {
        Ok(update.price)
    }
}

/// Calls `PriceUpdateV2::get_price_no_older_than` of the Pyth receiver SDK on
/// an account that carries `update`, with a clock that reads `now`.
///
/// Trusted: the SDK returns the update's price after three checks, in this
/// order: the verification level is `Full`, the feed id is the one asked
/// for, and `publish_time + maximum_age` (saturating) is not before the
/// clock. It converts `maximum_age` to `i64` and panics if that fails, which
/// the precondition rules out.
#[verifier::external_body]
fn get_price_no_older_than(
    update: &PriceUpdate,
    now: i64,
    maximum_age: u64,
    feed_id: &[u8; 32],
) -> (r: Result<i64, PriceError>)
    requires
        maximum_age <= i64::MAX,
    ensures
        r == price_no_older_than(*update, now, maximum_age, feed_id@),
{
    let verification_level = match update.verification_level {
        VerificationLevel::Full => pyth_solana_receiver_sdk::price_update::VerificationLevel::Full,
        VerificationLevel::Partial { num_signatures } => pyth_solana_receiver_sdk::price_update::VerificationLevel::Partial { num_signatures },
    };
    let price_message = PriceFeedMessage { feed_id: update.feed_id, price: update.price, publish_time: update.publish_time,
        conf: 0, exponent: 0, prev_publish_time: 0, ema_price: 0, ema_conf: 0 };
    let account = PriceUpdateV2 { write_authority: Pubkey::default(), verification_level, price_message, posted_slot: 0 };
    let clock = Clock { unix_timestamp: now, ..Clock::default() };
    match account.get_price_no_older_than(&clock, maximum_age, feed_id) {
        Ok(price) => Ok(price.price),
        Err(GetPriceError::MismatchedFeedId) => Err(PriceError::MismatchedFeedId),
        Err(GetPriceError::InsufficientVerificationLevel) => Err(PriceError::InsufficientVerificationLevel),
        Err(_) => Err(PriceError::PriceTooOld),
    }
}

/// The value of a hexadecimal digit, in either case.
pub open spec fn hex_value(c: char) -> Option<int> {
    let n = c as u32 as int;
    if 0x30 <= n <= 0x39 {
        Some(n - 0x30)
    } else if 0x41 <= n <= 0x46 {
        Some(n - 0x41 + 10)
    } else if 0x61 <= n <= 0x66 {
        Some(n - 0x61 + 10)
    } else {
        None
    }
}

/// Every character is a hexadecimal digit.
pub open spec fn is_hex(s: Seq<char>) -> bool {
    forall|i: int| 0 <= i < s.len() ==> (#[trigger] hex_value(s[i])) is Some
}

/// The bytes that the digits of `s` spell, two digits to a byte, the high
/// half first.
pub open spec fn hex_bytes(s: Seq<char>) -> Seq<u8> {
    Seq::new(
        s.len() / 2,
        |i: int| (16 * hex_value(s[2 * i])->0 + hex_value(s[2 * i + 1])->0) as u8,
    )
}

/// The feed id that `s` spells: 64 hexadecimal digits, or 66 characters of
/// which the first two are skipped.
pub open spec fn feed_id_from_hex(s: Seq<char>) -> Result<Seq<u8>, FeedIdError> {
    if s.len() == 66 {
        if is_hex(s.skip(2)) {
            Ok(hex_bytes(s.skip(2)))
        } else {
            Err(FeedIdError::NonHexCharacter)
        }
    } else if s.len() == 64 {
        if is_hex(s) {
            Ok(hex_bytes(s))
        } else {
            Err(FeedIdError::NonHexCharacter)
        }
    } else {
        Err(FeedIdError::MustBe32Bytes)
    }
}

/// Calls `get_feed_id_from_hex` of the Pyth receiver SDK.
///
/// Trusted: a string of 64 bytes is decoded as hexadecimal digits, one of 66
/// bytes is decoded from its third byte on, whatever the first two are, and
/// any other length is refused. The SDK slices the string at byte 2, which
/// panics inside a multi-byte character; the precondition rules that out and
/// makes bytes and characters the same.
#[verifier::external_body]
fn parse_feed_id(input: &str) -> (r: Result<[u8; 32], FeedIdError>)
    requires
        input.is_ascii(),
    ensures
        match r {
            Ok(id) => feed_id_from_hex(input@) == Ok::<Seq<u8>, FeedIdError>(id@),
            Err(e) => feed_id_from_hex(input@) == Err::<Seq<u8>, FeedIdError>(e),
        },
{
    match get_feed_id_from_hex(input) {
        Ok(id) => Ok(id),
        Err(GetPriceError::FeedIdMustBe32Bytes) => Err(FeedIdError::MustBe32Bytes),
        Err(_) => Err(FeedIdError::NonHexCharacter),
    }
}

/// The SOL/USD feed, as Pyth publishes its id.
pub const SOL_USD_FEED_ID: &'static str =
    "0xef0d8b6fda2ceba41da15d4095d1da392a0d2f8ed0c6c7bc0f4cfac8c280b56d";

/// The USDC/USD feed, as Pyth publishes its id.
pub const USDC_USD_FEED_ID: &'static str =
    "0xeaa020c61cc479712813461ce153894a96a6c00b21ed0cfc2798d1f9a9e9c94a";

/// Oldest price, in seconds, that the ledger acts on.
pub const MAXIMUM_AGE: u64 = 100;

/// The published id of the feed that prices `asset` in USD.
pub open spec fn feed_name(asset: Asset) -> Seq<char> {
    match asset {
        Asset::Sol => SOL_USD_FEED_ID@,
        Asset::Usdc => USDC_USD_FEED_ID@,
    }
}

/// The 32 bytes of the feed that prices `asset` in USD.
pub open spec fn feed_id_of(asset: Asset) -> Seq<u8> {
    hex_bytes(feed_name(asset).skip(2))
}

proof fn lemma_sol_feed_is_hex()
    ensures
        SOL_USD_FEED_ID@.len() == 66,
        SOL_USD_FEED_ID.is_ascii(),
        is_hex(SOL_USD_FEED_ID@.skip(2)),
{
    reveal_strlit("0xef0d8b6fda2ceba41da15d4095d1da392a0d2f8ed0c6c7bc0f4cfac8c280b56d");
}

proof fn lemma_usdc_feed_is_hex()
    ensures
        USDC_USD_FEED_ID@.len() == 66,
        USDC_USD_FEED_ID.is_ascii(),
        is_hex(USDC_USD_FEED_ID@.skip(2)),
{
    reveal_strlit("0xeaa020c61cc479712813461ce153894a96a6c00b21ed0cfc2798d1f9a9e9c94a");
}

/// The id of the feed that prices `asset` in USD.
pub fn feed_id(asset: Asset) -> (r: [u8; 32])
    ensures
        r@ == feed_id_of(asset),
{
    let name = match asset {
        Asset::Sol => SOL_USD_FEED_ID,
        Asset::Usdc => USDC_USD_FEED_ID,
    };
    proof {
        lemma_sol_feed_is_hex();
        lemma_usdc_feed_is_hex();
    }
    match parse_feed_id(name) {
        Ok(id) => id,
        Err(_) => vstd::pervasive::unreached(),
    }
}

/// What the ledger makes of the SDK's answer: a price that is not negative
/// is used as it is, a negative one has no place in an unsigned value, and
/// an update that the SDK refused counts as no fresh price.
pub open spec fn accepted_price(quote: Result<i64, PriceError>) -> Result<u64, ErrorCode> {
    match quote {
        Ok(price) => if price < 0 {
            Err(ErrorCode::ArithmeticOverflow)
        } else {
            Ok(price as u64)
        },
        Err(_) => Err(ErrorCode::StalePrice),
    }
}

/// The price of `asset` at time `now` according to `update`.
pub open spec fn price_of(update: PriceUpdate, asset: Asset, now: i64) -> Result<u64, ErrorCode> {
    accepted_price(price_no_older_than(update, now, MAXIMUM_AGE, feed_id_of(asset)))
}

/// Turns the SDK's answer into a price for the ledger, or into the error
/// the operation fails with.
pub fn accept_price(quote: Result<i64, PriceError>) -> (r: Result<u64, ErrorCode>)
    ensures
        r == accepted_price(quote),
{
    match quote {
        Ok(price) => if price < 0 {
            Err(ErrorCode::ArithmeticOverflow)
        } else {
            Ok(price as u64)
        },
        Err(_) => Err(ErrorCode::StalePrice),
    }
}

/// The price of `asset` at time `now`: that of `update`, provided it is a
/// fully verified update of the asset's USD feed published at most
/// `MAXIMUM_AGE` seconds before `now`. Fails with `StalePrice` otherwise, and
/// with `ArithmeticOverflow` on a negative price.
pub fn get_price(update: &PriceUpdate, asset: Asset, now: i64) -> (r: Result<u64, ErrorCode>)
    ensures
        r == price_of(*update, asset, now),
{
    let id = feed_id(asset);
    accept_price(get_price_no_older_than(update, now, MAXIMUM_AGE, &id))
}

} // verus!
