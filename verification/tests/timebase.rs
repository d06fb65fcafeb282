use zenaudio::timebase::{position_ms, TimeBase};

#[test]
fn positions_are_whole_seconds() {
    let base = TimeBase { numer: 1, denom: 44_100 };
    assert_eq!(position_ms(base, 0), 0);
    assert_eq!(position_ms(base, 44_099), 0);
    assert_eq!(position_ms(base, 44_100), 1_000);
    assert_eq!(position_ms(base, 44_100 * 61 + 7), 61_000);
    assert_eq!(position_ms(TimeBase { numer: 1, denom: 320 }, 12_345), 38_000);
    assert_eq!(position_ms(TimeBase { numer: 3, denom: 2 }, 5), 7_000);
}

#[test]
fn long_streams_keep_their_precision() {
    let base = TimeBase { numer: 1, denom: 320 };
    assert_eq!(position_ms(base, 0x10_0000_0000_0001), 14_073_748_835_532_000);
}

#[test]
fn positions_out_of_range_are_capped() {
    let base = TimeBase { numer: 1, denom: 1 };
    assert_eq!(position_ms(base, u64::MAX / 1000), u64::MAX / 1000 * 1000);
    assert_eq!(position_ms(base, u64::MAX / 1000 + 1), u64::MAX);
    assert_eq!(position_ms(TimeBase { numer: 320, denom: 1 }, u64::MAX), u64::MAX);
}

#[test]
fn seconds_past_the_range_wrap() {
    assert_eq!(position_ms(TimeBase { numer: 2, denom: 1 }, 1 << 63), 0);
    assert_eq!(position_ms(TimeBase { numer: 2, denom: 1 }, (1 << 63) + 3), 6_000);
}

#[test]
fn later_timestamps_are_not_earlier_positions() {
    let base = TimeBase { numer: 1_001, denom: 30_000 };
    let mut last = 0;
    for ts in 0..500u64 {
        let now = position_ms(base, ts * 37);
        assert!(last <= now);
        last = now;
    }
    assert_eq!(last, 616_000);
}
