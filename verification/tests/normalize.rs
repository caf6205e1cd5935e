use parquetgrip::cell::{normalize, CellValue, TimeUnit};

#[test]
fn null_renders_as_sentinel() {
    assert_eq!(normalize(&CellValue::Null), "(null)");
}

#[test]
fn booleans_render_as_decimal_words() {
    assert_eq!(normalize(&CellValue::Boolean(true)), "true");
    assert_eq!(normalize(&CellValue::Boolean(false)), "false");
}

#[test]
fn integers_render_canonically() {
    assert_eq!(normalize(&CellValue::Int(0)), "0");
    assert_eq!(normalize(&CellValue::Int(42)), "42");
    assert_eq!(normalize(&CellValue::Int(-123)), "-123");
    assert_eq!(normalize(&CellValue::UInt(0)), "0");
    assert_eq!(normalize(&CellValue::UInt(18446744073709551615)), "18446744073709551615");
}

#[test]
fn extreme_128_bit_integers_render_exactly() {
    assert_eq!(
        normalize(&CellValue::Int(i128::MIN)),
        "-170141183460469231731687303715884105728"
    );
    assert_eq!(
        normalize(&CellValue::Int(i128::MAX)),
        "170141183460469231731687303715884105727"
    );
    assert_eq!(
        normalize(&CellValue::UInt(u128::MAX)),
        "340282366920938463463374607431768211455"
    );
}

#[test]
fn floats_and_decimals_pass_their_storage_text_through() {
    assert_eq!(normalize(&CellValue::Float(String::from("1.5"))), "1.5");
    assert_eq!(normalize(&CellValue::Decimal(String::from("3.140"))), "3.140");
}

#[test]
fn text_is_repaired_lossily() {
    assert_eq!(
        normalize(&CellValue::Text("h\u{e9}llo".as_bytes().to_vec())),
        "h\u{e9}llo"
    );
    assert_eq!(normalize(&CellValue::Text(vec![0xff])), "\u{fffd}");
    assert_eq!(normalize(&CellValue::Text(Vec::new())), "");
}

#[test]
fn blobs_render_as_length_marker() {
    assert_eq!(normalize(&CellValue::Blob(vec![1, 2, 3, 4, 5])), "<blob 5 bytes>");
    assert_eq!(normalize(&CellValue::Blob(Vec::new())), "<blob 0 bytes>");
}

#[test]
fn dates_render_as_iso_text() {
    assert_eq!(normalize(&CellValue::Date32(0)), "1970-01-01");
    assert_eq!(normalize(&CellValue::Date32(-1)), "1969-12-31");
    assert_eq!(normalize(&CellValue::Date32(19000)), "2022-01-08");
    assert_eq!(normalize(&CellValue::Date32(19782)), "2024-02-29");
}

#[test]
fn dates_at_the_edges_of_the_four_digit_range() {
    assert_eq!(normalize(&CellValue::Date32(-719528)), "0000-01-01");
    assert_eq!(normalize(&CellValue::Date32(2932896)), "9999-12-31");
    assert_eq!(normalize(&CellValue::Date32(-719529)), "Date32(-719529)");
    assert_eq!(normalize(&CellValue::Date32(2932897)), "Date32(2932897)");
    assert_eq!(
        normalize(&CellValue::Date32(i32::MIN)),
        "Date32(-2147483648)"
    );
}

#[test]
fn timestamps_render_utc_wall_clock() {
    assert_eq!(
        normalize(&CellValue::Timestamp(TimeUnit::Second, 0)),
        "1970-01-01 00:00:00"
    );
    assert_eq!(
        normalize(&CellValue::Timestamp(TimeUnit::Second, 86399)),
        "1970-01-01 23:59:59"
    );
    assert_eq!(
        normalize(&CellValue::Timestamp(TimeUnit::Millisecond, 1500)),
        "1970-01-01 00:00:01"
    );
    assert_eq!(
        normalize(&CellValue::Timestamp(TimeUnit::Microsecond, 1_000_000)),
        "1970-01-01 00:00:01"
    );
    assert_eq!(
        normalize(&CellValue::Timestamp(TimeUnit::Nanosecond, 1_700_000_000_000_000_000)),
        "2023-11-14 22:13:20"
    );
}

#[test]
fn timestamps_before_the_epoch_round_toward_earlier_seconds() {
    assert_eq!(
        normalize(&CellValue::Timestamp(TimeUnit::Millisecond, -1500)),
        "1969-12-31 23:59:58"
    );
    assert_eq!(
        normalize(&CellValue::Timestamp(TimeUnit::Second, -1)),
        "1969-12-31 23:59:59"
    );
}

#[test]
fn out_of_range_timestamps_fall_back_to_debug_form() {
    assert_eq!(
        normalize(&CellValue::Timestamp(TimeUnit::Second, i64::MAX)),
        "Timestamp(Second, 9223372036854775807)"
    );
    assert_eq!(
        normalize(&CellValue::Timestamp(TimeUnit::Millisecond, i64::MIN)),
        "Timestamp(Millisecond, -9223372036854775808)"
    );
}

#[test]
fn times_render_raw() {
    assert_eq!(
        normalize(&CellValue::Time64(TimeUnit::Microsecond, 123)),
        "Time64(123)"
    );
}

#[test]
fn intervals_render_their_components() {
    assert_eq!(
        normalize(&CellValue::Interval { months: 1, days: 2, nanos: 3 }),
        "Interval(M: 1, D: 2, N: 3)"
    );
    assert_eq!(
        normalize(&CellValue::Interval { months: -1, days: 0, nanos: -9 }),
        "Interval(M: -1, D: 0, N: -9)"
    );
}

#[test]
fn nested_kinds_render_placeholders() {
    assert_eq!(normalize(&CellValue::List), "[List]");
    assert_eq!(normalize(&CellValue::Struct), "{Struct}");
    assert_eq!(normalize(&CellValue::Enum(7)), "Enum(7)");
}

#[test]
fn unknown_kinds_pass_their_debug_text_through() {
    assert_eq!(
        normalize(&CellValue::Other(String::from("Union(raw)"))),
        "Union(raw)"
    );
}

#[test]
fn every_kind_yields_non_empty_text() {
    let values = vec![
        CellValue::Null,
        CellValue::Boolean(false),
        CellValue::Int(-7),
        CellValue::UInt(7),
        CellValue::Float(String::from("0.25")),
        CellValue::Decimal(String::from("1.00")),
        CellValue::Text(vec![b'x']),
        CellValue::Blob(vec![0]),
        CellValue::Date32(12345),
        CellValue::Date32(i32::MAX),
        CellValue::Timestamp(TimeUnit::Nanosecond, -1),
        CellValue::Time64(TimeUnit::Second, 0),
        CellValue::Interval { months: 0, days: 0, nanos: 0 },
        CellValue::List,
        CellValue::Struct,
        CellValue::Enum(0),
        CellValue::Other(String::from("?")),
    ];
    for v in &values {
        assert!(!normalize(v).is_empty());
    }
}
