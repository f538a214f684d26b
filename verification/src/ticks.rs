//! Raw timer values: a bounds-checked decode of a readback buffer into
//! (start, end) tick pairs, and the saturating conversion of a tick pair into
//! nanoseconds under a rational tick period.

use vstd::prelude::*;

use crate::ids::NanoSecond;

verus! {

/// Bytes of one readback record: two little-endian 64-bit tick values.
pub const TICK_RECORD_BYTES: usize = 16;

/// The unsigned value of the eight little-endian bytes of `b` starting at
/// `off`.
pub open spec fn le64_at(b: Seq<u8>, off: int) -> int {
    b[off] + b[off + 1] * 0x100 + b[off + 2] * 0x1_0000 + b[off + 3] * 0x100_0000 + b[off + 4]
        * 0x1_0000_0000 + b[off + 5] * 0x100_0000_0000 + b[off + 6] * 0x1_0000_0000_0000 + b[off
        + 7] * 0x100_0000_0000_0000
}

/// How a readback buffer can fail to hold what its frame slot claims.
#[derive(Clone, Copy, PartialEq, Eq, Structural, Debug)]
pub enum TickDecodeError {
    /// The buffer's byte length is not an exact multiple of the record size.
    Misaligned,
    /// The buffer holds fewer whole records than the claimed valid count.
    TooShort,
}

fn read_u64_le(bytes: &Vec<u8>, off: usize) -> (r: u64)
    requires
        off + 8 <= bytes@.len(),
    ensures
        r == le64_at(bytes@, off as int),
{
    let blen = bytes.len();
    proof {
        assert(off + 8 <= blen);
    }
    let b0 = bytes[off] as u64;
    let b1 = bytes[off + 1] as u64;
    let b2 = bytes[off + 2] as u64;
    let b3 = bytes[off + 3] as u64;
    let b4 = bytes[off + 4] as u64;
    let b5 = bytes[off + 5] as u64;
    let b6 = bytes[off + 6] as u64;
    let b7 = bytes[off + 7] as u64;
    b0 + b1 * 0x100 + b2 * 0x1_0000 + b3 * 0x100_0000 + b4 * 0x1_0000_0000 + b5 * 0x100_0000_0000
        + b6 * 0x1_0000_0000_0000 + b7 * 0x100_0000_0000_0000
}

/// Reads the claimed number of (start, end) tick records out of a raw
/// readback buffer, failing loudly when the buffer cannot hold them.
pub fn decode_tick_pairs(bytes: &Vec<u8>, valid_count: usize) -> (r: Result<
    Vec<(u64, u64)>,
    TickDecodeError,
>)
    ensures
        r matches Err(e) ==> e == (if (bytes@.len() as int) % (TICK_RECORD_BYTES as int) != 0 {
            TickDecodeError::Misaligned
        } else {
            TickDecodeError::TooShort
        }),
        r is Err <==> ((bytes@.len() as int) % (TICK_RECORD_BYTES as int) != 0 || (bytes@.len() as int) / (
        TICK_RECORD_BYTES as int) < valid_count),
        r matches Ok(v) ==> v@.len() == valid_count && forall|i: int|
            0 <= i < valid_count ==> (#[trigger] v@[i]).0 == le64_at(
                bytes@,
                i * TICK_RECORD_BYTES,
            ) && v@[i].1 == le64_at(bytes@, i * TICK_RECORD_BYTES + 8),
{
    if bytes.len() % TICK_RECORD_BYTES != 0 {
        return Err(TickDecodeError::Misaligned);
    }
    if bytes.len() / TICK_RECORD_BYTES < valid_count {
        return Err(TickDecodeError::TooShort);
    }
    proof {
        vstd::arithmetic::div_mod::lemma_fundamental_div_mod(
            bytes@.len() as int,
            TICK_RECORD_BYTES as int,
        );
        assert(valid_count * TICK_RECORD_BYTES <= bytes@.len()) by (nonlinear_arith)
            requires
                valid_count <= (bytes@.len() as int) / (TICK_RECORD_BYTES as int),
                bytes@.len() as int == (TICK_RECORD_BYTES as int) * ((bytes@.len() as int) / (
                TICK_RECORD_BYTES as int)) + (bytes@.len() as int) % (TICK_RECORD_BYTES as int),
                (bytes@.len() as int) % (TICK_RECORD_BYTES as int) == 0,
        ;
    }
    let blen = bytes.len();
    let mut out: Vec<(u64, u64)> = Vec::new();
    let mut i: usize = 0;
    while i < valid_count
        invariant
            blen == bytes@.len(),
            i <= valid_count,
            valid_count * TICK_RECORD_BYTES <= blen,
            out@.len() == i,
            forall|j: int|
                0 <= j < i ==> (#[trigger] out@[j]).0 == le64_at(bytes@, j * TICK_RECORD_BYTES)
                    && out@[j].1 == le64_at(bytes@, j * TICK_RECORD_BYTES + 8),
        decreases valid_count - i,
    {
        proof {
            assert((i + 1) * TICK_RECORD_BYTES <= valid_count * TICK_RECORD_BYTES)
                by (nonlinear_arith)
                requires i + 1 <= valid_count;
            assert(i * TICK_RECORD_BYTES + TICK_RECORD_BYTES == (i + 1) * TICK_RECORD_BYTES)
                by (nonlinear_arith);
        }
        let off = i * TICK_RECORD_BYTES;
        let start = read_u64_le(bytes, off);
        let end = read_u64_le(bytes, off + 8);
        out.push((start, end));
        i = i + 1;
    }
    Ok(out)
}

/// The saturating tick distance from `start` to `end`: an end tick that
/// precedes its start yields zero, not a wrapped value.
pub open spec fn tick_delta(start: u64, end: u64) -> int {
    if end >= start {
        end - start
    } else {
        0
    }
}

/// The duration in nanoseconds of a tick pair under a tick period of
/// `period_num / period_den` nanoseconds per tick, rounded down and clamped
/// to the largest representable duration.
pub open spec fn ns_of_ticks(start: u64, end: u64, period_num: u64, period_den: u64) -> int {
    let exact = tick_delta(start, end) * period_num / (period_den as int);
    if exact > u64::MAX {
        u64::MAX as int
    } else {
        exact
    }
}

/// Converts one raw (start, end) tick pair into a duration, saturating both
/// the subtraction (a benign degenerate measurement) and the scaled result.
pub fn ticks_to_nanoseconds(start: u64, end: u64, period_num: u64, period_den: u64) -> (r:
    NanoSecond)
    requires
        period_den > 0,
    ensures
        r.0 == ns_of_ticks(start, end, period_num, period_den),
{
    let delta: u64 = if end >= start {
        end - start
    } else {
        0
    };
    proof {
        assert((delta as int) * (period_num as int) <= u128::MAX) by (nonlinear_arith)
            requires delta <= u64::MAX, period_num <= u64::MAX;
    }
    let wide: u128 = (delta as u128) * (period_num as u128) / (period_den as u128);
    if wide > u64::MAX as u128 {
        NanoSecond(u64::MAX)
    } else {
        NanoSecond(wide as u64)
    }
}

} // verus!
