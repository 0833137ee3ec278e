//! Decoding of the byte-packed blocks the host boundary hands over.
//!
//! Curve parameters arrive as five consecutive 32-byte big-endian unsigned
//! integers; pool metadata arrives as a six-word record.  A 32-byte word is
//! accepted only when its value fits the engine's fixed-point width; a word
//! beyond it, like a block too short, rejects the whole record.

use crate::params::CurveParameters;
use crate::CurveError;
use vstd::prelude::*;

verus! {

/// Value of the `n` bytes starting at `off`, big-endian: the first byte is
/// the most significant.
pub open spec fn be_bytes_val(data: Seq<u8>, off: int, n: nat) -> int
    decreases n,
{
    if n == 0 {
        0
    } else {
        be_bytes_val(data, off, (n - 1) as nat) * 256 + data[off + n - 1]
    }
}

/// Weight of a byte position: `256^n`.
pub open spec fn byte_weight(n: nat) -> int
    decreases n,
{
    if n == 0 {
        1
    } else {
        256 * byte_weight((n - 1) as nat)
    }
}

proof fn lemma_byte_weight_pos(n: nat)
    ensures
        byte_weight(n) >= 1,
    decreases n,
{
    if n > 0 {
        lemma_byte_weight_pos((n - 1) as nat);
    }
}

proof fn lemma_byte_weight_mono(a: nat, b: nat)
    requires
        a <= b,
    ensures
        byte_weight(a) <= byte_weight(b),
    decreases b,
{
    if a < b {
        lemma_byte_weight_mono(a, (b - 1) as nat);
        lemma_byte_weight_pos((b - 1) as nat);
    }
}

/// Sixteen bytes weigh exactly one beyond the engine's width.
proof fn lemma_byte_weight_16()
    ensures
        byte_weight(16) == 0x1_0000_0000_0000_0000_0000_0000_0000_0000,
{
    assert(byte_weight(0) == 1);
    assert(byte_weight(1) == 0x100);
    assert(byte_weight(2) == 0x1_0000);
    assert(byte_weight(3) == 0x100_0000);
    assert(byte_weight(4) == 0x1_0000_0000);
    assert(byte_weight(5) == 0x100_0000_0000);
    assert(byte_weight(6) == 0x1_0000_0000_0000);
    assert(byte_weight(7) == 0x100_0000_0000_0000);
    assert(byte_weight(8) == 0x1_0000_0000_0000_0000);
    assert(byte_weight(9) == 0x100_0000_0000_0000_0000);
    assert(byte_weight(10) == 0x1_0000_0000_0000_0000_0000);
    assert(byte_weight(11) == 0x100_0000_0000_0000_0000_0000);
    assert(byte_weight(12) == 0x1_0000_0000_0000_0000_0000_0000);
    assert(byte_weight(13) == 0x100_0000_0000_0000_0000_0000_0000);
    assert(byte_weight(14) == 0x1_0000_0000_0000_0000_0000_0000_0000);
    assert(byte_weight(15) == 0x100_0000_0000_0000_0000_0000_0000_0000);
}

proof fn lemma_be_bytes_val_bound(data: Seq<u8>, off: int, n: nat)
    ensures
        0 <= be_bytes_val(data, off, n) < byte_weight(n),
    decreases n,
{
    if n > 0 {
        lemma_be_bytes_val_bound(data, off, (n - 1) as nat);
    }
}

/// A run of bytes splits at any point into its high and low parts.
proof fn lemma_be_bytes_split(data: Seq<u8>, off: int, m: nat, n: nat)
    ensures
        be_bytes_val(data, off, m + n) == be_bytes_val(data, off, m) * byte_weight(n)
            + be_bytes_val(data, off + m, n),
    decreases n,
{
    if n == 0 {
        assert(be_bytes_val(data, off, m) * 1 == be_bytes_val(data, off, m)) by (nonlinear_arith);
    } else {
        lemma_be_bytes_split(data, off, m, (n - 1) as nat);
        let high = be_bytes_val(data, off, m);
        let w = byte_weight((n - 1) as nat);
        let low = be_bytes_val(data, off + m, (n - 1) as nat);
        let b = data[off + m + n - 1];
        assert((high * w + low) * 256 + b == high * (256 * w) + (low * 256 + b))
            by (nonlinear_arith);
    }
}

/// Read the 32-byte big-endian word at `offset`.  Yields the word's value
/// when it fits the engine's width, nothing when it is too large.
pub fn read_word(data: &Vec<u8>, offset: usize) -> (r: Option<u128>)
    requires
        offset + 32 <= data.len(),
    ensures
        r is Some <==> be_bytes_val(data@, offset as int, 32) <= u128::MAX,
        r matches Some(v) ==> v == be_bytes_val(data@, offset as int, 32),
{
    proof {
        lemma_byte_weight_16();
    }
    // a nonzero byte in the high half puts the word beyond the width
    let mut i: usize = 0;
    while i < 16
        invariant
            offset + 32 <= data.len(),
            i <= 16,
            be_bytes_val(data@, offset as int, i as nat) == 0,
        decreases 16 - i,
    {
        let b: u8 = data[offset + i];
        proof {
            assert(be_bytes_val(data@, offset as int, (i + 1) as nat) == b);
        }
        if b != 0 {
            proof {
                lemma_byte_weight_16();
                lemma_be_bytes_split(data@, offset as int, (i + 1) as nat, (15 - i) as nat);
                lemma_be_bytes_val_bound(data@, offset + i + 1, (15 - i) as nat);
                lemma_byte_weight_pos((15 - i) as nat);
                assert(be_bytes_val(data@, offset as int, 16) >= 1 * byte_weight((15 - i) as nat))
                    by (nonlinear_arith)
                    requires
                        be_bytes_val(data@, offset as int, 16) == be_bytes_val(
                            data@,
                            offset as int,
                            (i + 1) as nat,
                        ) * byte_weight((15 - i) as nat) + be_bytes_val(
                            data@,
                            offset + i + 1,
                            (15 - i) as nat,
                        ),
                        be_bytes_val(data@, offset as int, (i + 1) as nat) >= 1,
                        byte_weight((15 - i) as nat) >= 1,
                        be_bytes_val(data@, offset + i + 1, (15 - i) as nat) >= 0,
                ;
                lemma_be_bytes_split(data@, offset as int, 16, 16);
                lemma_be_bytes_val_bound(data@, offset + 16, 16);
                assert(be_bytes_val(data@, offset as int, 32) > u128::MAX) by (nonlinear_arith)
                    requires
                        be_bytes_val(data@, offset as int, 32) == be_bytes_val(
                            data@,
                            offset as int,
                            16,
                        ) * byte_weight(16) + be_bytes_val(data@, offset + 16, 16),
                        be_bytes_val(data@, offset as int, 16) >= 1,
                        byte_weight(16) == 0x1_0000_0000_0000_0000_0000_0000_0000_0000,
                        be_bytes_val(data@, offset + 16, 16) >= 0,
                ;
            }
            return None;
        }
        i = i + 1;
    }
    // accumulate the low half
    let mut acc: u128 = 0;
    let mut j: usize = 0;
    while j < 16
        invariant
            offset + 32 <= data.len(),
            j <= 16,
            acc == be_bytes_val(data@, offset + 16, j as nat),
            acc < byte_weight(j as nat),
        decreases 16 - j,
    {
        let b: u8 = data[offset + 16 + j];
        proof {
            lemma_byte_weight_16();
            lemma_byte_weight_mono((j + 1) as nat, 16);
        }
        acc = acc * 256 + (b as u128);
        j = j + 1;
    }
    proof {
        lemma_be_bytes_split(data@, offset as int, 16, 16);
    }
    Some(acc)
}

/// What parameter-block decoding yields: the five words in order
/// `initial_price, max_price_factor, steepness, midpoint, total_supply`,
/// rejected wholesale when the block is short of 160 bytes, a word overflows
/// the engine's width, or a mandatory field is zero; defaults replace
/// zero-valued optional fields.
pub open spec fn params_wire_s(data: Seq<u8>) -> Result<CurveParameters, CurveError> {
    if data.len() < 160 {
        Err(CurveError::InvalidParameters)
    } else if be_bytes_val(data, 0, 32) > u128::MAX || be_bytes_val(data, 32, 32) > u128::MAX
        || be_bytes_val(data, 64, 32) > u128::MAX || be_bytes_val(data, 96, 32) > u128::MAX
        || be_bytes_val(data, 128, 32) > u128::MAX {
        Err(CurveError::InvalidParameters)
    } else if be_bytes_val(data, 0, 32) == 0 || be_bytes_val(data, 128, 32) == 0 {
        Err(CurveError::InvalidParameters)
    } else {
        Ok(
            CurveParameters::with_defaults_s(
                be_bytes_val(data, 0, 32) as u128,
                be_bytes_val(data, 32, 32) as u128,
                be_bytes_val(data, 64, 32) as u128,
                be_bytes_val(data, 96, 32) as u128,
                be_bytes_val(data, 128, 32) as u128,
            ),
        )
    }
}

/// Decode a parameter block of five consecutive 32-byte big-endian words, as
/// [`params_wire_s`] describes.
pub fn params_from_bytes(data: &Vec<u8>) -> (r: Result<CurveParameters, CurveError>)
    ensures
        r == params_wire_s(data@),
{
    if data.len() < 160 {
        return Err(CurveError::InvalidParameters);
    }
    let initial_price = match read_word(data, 0) {
        Some(v) => v,
        None => { return Err(CurveError::InvalidParameters) },
    };
    let max_price_factor = match read_word(data, 32) {
        Some(v) => v,
        None => { return Err(CurveError::InvalidParameters) },
    };
    let steepness = match read_word(data, 64) {
        Some(v) => v,
        None => { return Err(CurveError::InvalidParameters) },
    };
    let midpoint = match read_word(data, 96) {
        Some(v) => v,
        None => { return Err(CurveError::InvalidParameters) },
    };
    let total_supply = match read_word(data, 128) {
        Some(v) => v,
        None => { return Err(CurveError::InvalidParameters) },
    };
    CurveParameters::new(initial_price, max_price_factor, steepness, midpoint, total_supply)
}

/// Pool metadata decoded from a registry record.
#[derive(Debug)]
pub struct PoolInfo {
    /// Address of the pool's asset, twenty bytes.
    pub token_address: Vec<u8>,
    /// Address of the pool's creator, twenty bytes.
    pub creator: Vec<u8>,
    /// Monetary reserve collected by the pool.
    pub weth_collected: u128,
    /// Last recorded price.
    pub last_price: u128,
    /// Whether the curve has exited active pricing mode.
    pub transitioned: bool,
    /// Identifier of the pricing strategy, thirty-two bytes.
    pub bonding_curve_strategy: Vec<u8>,
}

/// Copy the bytes of `data` from `start` up to `end`.
fn copy_range(data: &Vec<u8>, start: usize, end: usize) -> (r: Vec<u8>)
    requires
        start <= end <= data.len(),
    ensures
        r@ == data@.subrange(start as int, end as int),
{
    let mut r: Vec<u8> = Vec::new();
    let mut i: usize = start;
    while i < end
        invariant
            start <= i <= end <= data.len(),
            r@.len() == i - start,
            forall|t: int| 0 <= t < r@.len() ==> r@[t] == data@[start + t],
        decreases end - i,
    {
        r.push(data[i]);
        i = i + 1;
    }
    proof {
        assert(r@ =~= data@.subrange(start as int, end as int));
    }
    r
}

/// Decode a pool metadata record: token address, creator, collected reserve,
/// last price, transition flag (the last byte of the price word), and
/// strategy identifier.  Yields nothing when the record is short of 192 bytes
/// or a monetary word overflows the engine's width.
pub fn parse_pool_info(data: &Vec<u8>) -> (r: Option<PoolInfo>)
    ensures
        r is Some <==> data@.len() >= 192 && be_bytes_val(data@, 64, 32) <= u128::MAX
            && be_bytes_val(data@, 96, 32) <= u128::MAX,
        r matches Some(info) ==> {
            &&& info.token_address@ == data@.subrange(12, 32)
            &&& info.creator@ == data@.subrange(44, 64)
            &&& info.weth_collected == be_bytes_val(data@, 64, 32)
            &&& info.last_price == be_bytes_val(data@, 96, 32)
            &&& info.transitioned == (data@[127] != 0)
            &&& info.bonding_curve_strategy@ == data@.subrange(128, 160)
        },
{
    if data.len() < 192 {
        return None;
    }
    let weth_collected = match read_word(data, 64) {
        Some(v) => v,
        None => { return None },
    };
    let last_price = match read_word(data, 96) {
        Some(v) => v,
        None => { return None },
    };
    let token_address = copy_range(data, 12, 32);
    let creator = copy_range(data, 44, 64);
    let transitioned = data[127] != 0;
    let bonding_curve_strategy = copy_range(data, 128, 160);
    Some(
        PoolInfo {
            token_address,
            creator,
            weth_collected,
            last_price,
            transitioned,
            bonding_curve_strategy,
        },
    )
}

} // verus!
