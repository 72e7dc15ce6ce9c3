use lending::error::ErrorCode;
use lending::oracle::{
    accept_price, feed_id, get_price, PriceError, PriceUpdate, VerificationLevel, MAXIMUM_AGE,
};
use lending::state::Asset;

const SOL_FEED: [u8; 32] = [
    0xef, 0x0d, 0x8b, 0x6f, 0xda, 0x2c, 0xeb, 0xa4, 0x1d, 0xa1, 0x5d, 0x40, 0x95, 0xd1, 0xda, 0x39,
    0x2a, 0x0d, 0x2f, 0x8e, 0xd0, 0xc6, 0xc7, 0xbc, 0x0f, 0x4c, 0xfa, 0xc8, 0xc2, 0x80, 0xb5, 0x6d,
];

const USDC_FEED: [u8; 32] = [
    0xea, 0xa0, 0x20, 0xc6, 0x1c, 0xc4, 0x79, 0x71, 0x28, 0x13, 0x46, 0x1c, 0xe1, 0x53, 0x89, 0x4a,
    0x96, 0xa6, 0xc0, 0x0b, 0x21, 0xed, 0x0c, 0xfc, 0x27, 0x98, 0xd1, 0xf9, 0xa9, 0xe9, 0xc9, 0x4a,
];

fn sol_update(price: i64, publish_time: i64) -> PriceUpdate {
    PriceUpdate {
        feed_id: SOL_FEED,
        verification_level: VerificationLevel::Full,
        price,
        publish_time,
    }
}

#[test]
fn feed_ids_are_the_decoded_names() {
    assert_eq!(feed_id(Asset::Sol), SOL_FEED);
    assert_eq!(feed_id(Asset::Usdc), USDC_FEED);
}

#[test]
fn fresh_verified_price_is_accepted() {
    assert_eq!(get_price(&sol_update(150, 1_000), Asset::Sol, 1_050), Ok(150));
}

#[test]
fn price_at_the_age_limit_is_accepted() {
    let now = 1_000 + MAXIMUM_AGE as i64;
    assert_eq!(get_price(&sol_update(150, 1_000), Asset::Sol, now), Ok(150));
}

#[test]
fn price_past_the_age_limit_is_stale() {
    let now = 1_001 + MAXIMUM_AGE as i64;
    assert_eq!(get_price(&sol_update(150, 1_000), Asset::Sol, now), Err(ErrorCode::StalePrice));
}

#[test]
fn price_published_after_now_is_accepted() {
    assert_eq!(get_price(&sol_update(150, 2_000), Asset::Sol, 1_000), Ok(150));
}

#[test]
fn publish_time_near_the_end_of_time_saturates() {
    assert_eq!(get_price(&sol_update(150, i64::MAX - 1), Asset::Sol, i64::MAX), Ok(150));
}

#[test]
fn price_of_another_feed_is_stale() {
    assert_eq!(get_price(&sol_update(150, 1_000), Asset::Usdc, 1_000), Err(ErrorCode::StalePrice));
    let usdc = PriceUpdate { feed_id: USDC_FEED, ..sol_update(1, 1_000) };
    assert_eq!(get_price(&usdc, Asset::Usdc, 1_000), Ok(1));
    assert_eq!(get_price(&usdc, Asset::Sol, 1_000), Err(ErrorCode::StalePrice));
}

#[test]
fn partially_verified_price_is_stale() {
    let update = PriceUpdate {
        verification_level: VerificationLevel::Partial { num_signatures: 12 },
        ..sol_update(150, 1_000)
    };
    assert_eq!(get_price(&update, Asset::Sol, 1_000), Err(ErrorCode::StalePrice));
}

#[test]
fn negative_price_overflows() {
    assert_eq!(
        get_price(&sol_update(-1, 1_000), Asset::Sol, 1_000),
        Err(ErrorCode::ArithmeticOverflow)
    );
}

#[test]
fn zero_price_is_a_price() {
    assert_eq!(get_price(&sol_update(0, 1_000), Asset::Sol, 1_000), Ok(0));
}

#[test]
fn every_refusal_of_the_sdk_counts_as_stale() {
    assert_eq!(accept_price(Err(PriceError::PriceTooOld)), Err(ErrorCode::StalePrice));
    assert_eq!(accept_price(Err(PriceError::MismatchedFeedId)), Err(ErrorCode::StalePrice));
    assert_eq!(
        accept_price(Err(PriceError::InsufficientVerificationLevel)),
        Err(ErrorCode::StalePrice)
    );
    assert_eq!(accept_price(Ok(i64::MAX)), Ok(i64::MAX as u64));
    assert_eq!(accept_price(Ok(i64::MIN)), Err(ErrorCode::ArithmeticOverflow));
}
