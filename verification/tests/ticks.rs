use gpu_profiler::decode_tick_pairs;
use gpu_profiler::ticks_to_nanoseconds;
use gpu_profiler::NanoSecond;
use gpu_profiler::ScopeId;
use gpu_profiler::TickDecodeError;

#[test]
fn conversion_scales_by_tick_period() {
    // 500 ticks at 2.0 ns per tick.
    let ns = ticks_to_nanoseconds(1000, 1500, 2, 1);
    assert_eq!(ns.raw_ns(), 1000);
}

#[test]
fn conversion_saturates_underflow_to_zero() {
    let ns = ticks_to_nanoseconds(1500, 1000, 2, 1);
    assert_eq!(ns.raw_ns(), 0);
}

#[test]
fn conversion_rounds_down_fractional_periods() {
    // 3 ticks at 0.5 ns per tick is 1.5 ns, reported as 1 ns.
    let ns = ticks_to_nanoseconds(10, 13, 1, 2);
    assert_eq!(ns.raw_ns(), 1);
}

#[test]
fn conversion_clamps_to_max_duration() {
    let ns = ticks_to_nanoseconds(0, u64::MAX, u64::MAX, 1);
    assert_eq!(ns.raw_ns(), u64::MAX);
}

#[test]
fn decode_reads_little_endian_pairs() {
    let mut bytes: Vec<u8> = Vec::new();
    bytes.extend(1000u64.to_le_bytes());
    bytes.extend(1500u64.to_le_bytes());
    bytes.extend(7u64.to_le_bytes());
    bytes.extend(u64::MAX.to_le_bytes());
    let pairs = decode_tick_pairs(&bytes, 2).expect("well-formed buffer");
    assert_eq!(pairs, vec![(1000, 1500), (7, u64::MAX)]);
}

#[test]
fn decode_ignores_records_past_the_valid_count() {
    let mut bytes: Vec<u8> = Vec::new();
    bytes.extend(1u64.to_le_bytes());
    bytes.extend(2u64.to_le_bytes());
    bytes.extend(3u64.to_le_bytes());
    bytes.extend(4u64.to_le_bytes());
    let pairs = decode_tick_pairs(&bytes, 1).expect("well-formed buffer");
    assert_eq!(pairs, vec![(1, 2)]);
}

#[test]
fn decode_rejects_misaligned_buffer() {
    let bytes: Vec<u8> = vec![0; 15];
    assert_eq!(decode_tick_pairs(&bytes, 0), Err(TickDecodeError::Misaligned));
}

#[test]
fn decode_rejects_short_buffer() {
    let bytes: Vec<u8> = vec![0; 16];
    assert_eq!(decode_tick_pairs(&bytes, 2), Err(TickDecodeError::TooShort));
}

#[test]
fn scope_id_packs_frame_in_high_half() {
    let id = ScopeId { frame: 3, scope: 9 };
    let packed = id.as_u64();
    assert_eq!(packed, (3u64 << 32) | 9);
    assert_eq!(ScopeId::from_u64(packed), id);
}

#[test]
fn invalid_sentinel_is_all_bits_set() {
    let id = ScopeId::invalid();
    assert_eq!(id, ScopeId { frame: u32::MAX, scope: u32::MAX });
    assert_eq!(id.as_u64(), u64::MAX);
}

#[test]
fn nanosecond_round_trips_raw_value() {
    assert_eq!(NanoSecond::from_raw_ns(123456).raw_ns(), 123456);
}
