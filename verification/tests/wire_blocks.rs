use sigmoid_curve::fixed::SCALE;
use sigmoid_curve::params::CurveParameters;
use sigmoid_curve::wire::{params_from_bytes, parse_pool_info, read_word};
use sigmoid_curve::CurveError;

/// A 32-byte big-endian word holding `v`.
fn word(v: u128) -> Vec<u8> {
    let mut w = vec![0u8; 16];
    w.extend_from_slice(&v.to_be_bytes());
    w
}

/// A parameter block of five consecutive words.
fn param_block(values: [u128; 5]) -> Vec<u8> {
    let mut block = Vec::new();
    for v in values {
        block.extend_from_slice(&word(v));
    }
    block
}

#[test]
fn read_word_roundtrip() {
    let mut data = word(12_345_678_901_234_567_890);
    data.extend_from_slice(&word(u128::MAX));
    assert_eq!(read_word(&data, 0), Some(12_345_678_901_234_567_890));
    assert_eq!(read_word(&data, 32), Some(u128::MAX));
}

#[test]
fn read_word_rejects_oversized_value() {
    let mut data = word(7);
    data[3] = 1; // a nonzero byte in the high half
    assert_eq!(read_word(&data, 0), None);
}

#[test]
fn params_block_decodes_with_defaults() {
    let block = param_block([SCALE, 0, 0, 0, 1_000_000 * SCALE]);
    assert_eq!(
        params_from_bytes(&block),
        Ok(CurveParameters {
            initial_price: SCALE,
            max_price_factor: 10 * SCALE,
            steepness: 10 * SCALE,
            midpoint: SCALE / 2,
            total_supply: 1_000_000 * SCALE,
        })
    );
}

#[test]
fn params_block_keeps_explicit_values() {
    let block = param_block([SCALE, 7 * SCALE, 3 * SCALE, SCALE / 4, 55]);
    assert_eq!(
        params_from_bytes(&block),
        Ok(CurveParameters {
            initial_price: SCALE,
            max_price_factor: 7 * SCALE,
            steepness: 3 * SCALE,
            midpoint: SCALE / 4,
            total_supply: 55,
        })
    );
}

#[test]
fn short_params_block_is_rejected() {
    let block = vec![0u8; 159];
    assert_eq!(params_from_bytes(&block), Err(CurveError::InvalidParameters));
}

#[test]
fn params_block_with_zero_mandatory_field_is_rejected() {
    let no_price = param_block([0, SCALE, SCALE, SCALE, SCALE]);
    assert_eq!(params_from_bytes(&no_price), Err(CurveError::InvalidParameters));
    let no_supply = param_block([SCALE, SCALE, SCALE, SCALE, 0]);
    assert_eq!(params_from_bytes(&no_supply), Err(CurveError::InvalidParameters));
}

#[test]
fn params_block_with_oversized_word_is_rejected() {
    let mut block = param_block([SCALE, 0, 0, 0, SCALE]);
    block[32] = 1; // high half of the second word
    assert_eq!(params_from_bytes(&block), Err(CurveError::InvalidParameters));
}

/// A 192-byte pool record: token and creator addresses, collected reserve,
/// last price, strategy identifier.
fn pool_record(token: u8, creator: u8, weth_collected: u128, last_price: u128) -> Vec<u8> {
    let mut rec = Vec::new();
    let mut token_word = vec![0u8; 12];
    token_word.extend_from_slice(&[token; 20]);
    rec.extend_from_slice(&token_word);
    let mut creator_word = vec![0u8; 12];
    creator_word.extend_from_slice(&[creator; 20]);
    rec.extend_from_slice(&creator_word);
    rec.extend_from_slice(&word(weth_collected));
    rec.extend_from_slice(&word(last_price));
    rec.extend_from_slice(&[0xAB; 32]);
    rec.resize(192, 0);
    rec
}

#[test]
fn pool_record_decodes() {
    let rec = pool_record(0x11, 0x22, 7 * SCALE, 0x100);
    let info = parse_pool_info(&rec).unwrap();
    assert_eq!(info.token_address, vec![0x11; 20]);
    assert_eq!(info.creator, vec![0x22; 20]);
    assert_eq!(info.weth_collected, 7 * SCALE);
    assert_eq!(info.last_price, 0x100);
    // the flag byte is the last byte of the price word, zero here
    assert!(!info.transitioned);
    assert_eq!(info.bonding_curve_strategy, vec![0xAB; 32]);
}

#[test]
fn pool_record_transition_flag_reads_price_low_byte() {
    let rec = pool_record(0, 0, 0, 0x101);
    let info = parse_pool_info(&rec).unwrap();
    assert_eq!(info.last_price, 0x101);
    assert!(info.transitioned);
}

#[test]
fn short_pool_record_is_rejected() {
    let rec = vec![0u8; 191];
    assert!(parse_pool_info(&rec).is_none());
}
