use iec61850_mms::mms::binary_time::{
    binary_time6_from_epoch_ms, epoch_ms_from_binary_time6, EPOCH_1984_MS, MAX_BINARY_TIME6_MS,
    MS_PER_DAY,
};

#[test]
fn epoch_1984_constant_matches_day_count() {
    assert_eq!(EPOCH_1984_MS, 441_763_200_000);
}

#[test]
fn epoch_encodes_to_all_zero_octets() {
    assert_eq!(binary_time6_from_epoch_ms(EPOCH_1984_MS), [0u8; 6]);
    assert_eq!(epoch_ms_from_binary_time6([0u8; 6]), EPOCH_1984_MS);
}

#[test]
fn round_trip_over_representable_instants() {
    let cases = [
        EPOCH_1984_MS,
        EPOCH_1984_MS + 1,
        EPOCH_1984_MS + MS_PER_DAY - 1,
        EPOCH_1984_MS + MS_PER_DAY,
        1_700_000_000_000, // 2023-11-14T22:13:20Z
        MAX_BINARY_TIME6_MS,
    ];
    for ms in cases {
        let bt = binary_time6_from_epoch_ms(ms);
        assert_eq!(
            epoch_ms_from_binary_time6(bt),
            ms,
            "round trip failed at {ms}"
        );
    }
}

#[test]
fn splits_milliseconds_of_day_and_day_count() {
    let ms_of_day = 12 * 3_600_000 + 34 * 60_000 + 56_789;
    let epoch_ms = EPOCH_1984_MS + MS_PER_DAY + ms_of_day;
    let bt = binary_time6_from_epoch_ms(epoch_ms);
    assert_eq!(
        u32::from_be_bytes([bt[0], bt[1], bt[2], bt[3]]) as u64,
        ms_of_day
    );
    assert_eq!(u16::from_be_bytes([bt[4], bt[5]]), 1);
}

#[test]
fn instants_before_the_epoch_saturate_to_the_epoch() {
    assert_eq!(binary_time6_from_epoch_ms(0), [0u8; 6]);
    assert_eq!(binary_time6_from_epoch_ms(EPOCH_1984_MS - 1), [0u8; 6]);
}

#[test]
fn instants_beyond_the_day_count_saturate_to_the_maximum() {
    let bt = binary_time6_from_epoch_ms(MAX_BINARY_TIME6_MS + 1);
    assert_eq!(bt, binary_time6_from_epoch_ms(MAX_BINARY_TIME6_MS));
    assert_eq!(u16::from_be_bytes([bt[4], bt[5]]), u16::MAX);
}

#[test]
fn known_wire_vector_for_a_fixed_instant() {
    // 1984-01-03T00:00:01.000Z: day count 2, 1000 ms of day.
    let epoch_ms = EPOCH_1984_MS + 2 * MS_PER_DAY + 1_000;
    assert_eq!(
        binary_time6_from_epoch_ms(epoch_ms),
        [0x00, 0x00, 0x03, 0xe8, 0x00, 0x02]
    );
}
