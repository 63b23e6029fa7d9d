use scrollcal::color::{convert_part, from_value, rgb, ByteColor};
use scrollcal::error::{u64_to_string, UpdaterError};

#[test]
fn convert_part_threshold_spread_values() {
    // 6-bit inputs around the point where the spread value crosses 96.
    assert_eq!(convert_part(23).unwrap(), 92);
    assert_eq!(convert_part(24).unwrap(), 96);
    assert_eq!(convert_part(25).unwrap(), 102);
}

#[test]
fn convert_part_boundary_values() {
    // Raw inputs 95, 96, 97: the shift wraps within the byte before the
    // nudge is applied.
    assert_eq!(convert_part(95).unwrap(), 126);
    assert_eq!(convert_part(96).unwrap(), 130);
    assert_eq!(convert_part(97).unwrap(), 134);
}

#[test]
fn convert_part_extremes() {
    assert_eq!(convert_part(0).unwrap(), 0);
    assert_eq!(convert_part(63).unwrap(), 254);
    assert!(convert_part(256).is_err());
}

#[test]
fn convert_part_monotonic_on_six_bits() {
    let mut last = 0u8;
    for v in 0..64u32 {
        let c = convert_part(v).unwrap();
        assert!(c >= last);
        assert!(c <= 255);
        last = c;
    }
}

#[test]
fn from_value_packs_channels() {
    // Zero packs to black with opaque alpha, in B G R A order.
    assert_eq!(from_value(0).unwrap(), [0, 0, 0, 0xFF]);
    // The largest representable value saturates every channel at 254.
    assert_eq!(from_value((1 << 18) - 1).unwrap(), [254, 254, 254, 0xFF]);
    // Bit 12 is the low bit of the red group.
    assert_eq!(from_value(1 << 12).unwrap(), [0, 0, 4, 0xFF]);
    // Bit 6 is the low bit of the green group.
    assert_eq!(from_value(1 << 6).unwrap(), [0, 4, 0, 0xFF]);
    assert!(from_value(1 << 18).is_err());
}

#[test]
fn bytecolor_from_value_matches_array_form() {
    let c = ByteColor::from_value(0x15555).unwrap();
    assert_eq!(c.to_array(), from_value(0x15555).unwrap());
    assert_eq!(c.a, 0xFF);
}

#[test]
fn bytecolor_from_value_rejects_large() {
    match ByteColor::from_value(0x40000) {
        Err(UpdaterError::ValueTooLarge { value, .. }) => assert_eq!(value, 0x40000),
        _ => panic!("expected a value-too-large error"),
    }
}

#[test]
fn rgb_splits_channels() {
    assert_eq!(rgb(0xABCDEF), (0xAB, 0xCD, 0xEF));
    assert_eq!(rgb(0x000000), (0, 0, 0));
}

#[test]
fn bytecolor_from_rgb_is_opaque() {
    let c = ByteColor::from_rgb((1, 2, 3));
    assert_eq!((c.r, c.g, c.b, c.a), (1, 2, 3, 0xFF));
}

#[test]
fn decimal_rendering() {
    assert_eq!(u64_to_string(0), "0");
    assert_eq!(u64_to_string(1234), "1234");
    assert_eq!(u64_to_string(1000000), "1000000");
}

#[test]
fn error_messages_name_the_value() {
    let e = UpdaterError::ValueTooLarge { field: "viewport_w", value: 262144 };
    assert_eq!(e.message(), "value 262144 of viewport_w is too large to be represented");
    let e = UpdaterError::CapacityExceeded { needed: 40, capacity: 4 };
    assert_eq!(e.message(), "not enough space for datastream: 40 pixels needed, 4 reserved");
}

#[test]
fn color_array_sheet() {
    let ca = scrollcal::color::color_array();
    assert_eq!(ca.0.len(), 8);
    assert_eq!(ca.0[0], (0x7D, 0x8D, 0x93));
    assert_eq!(ca.0[7], (0xFF, 0x00, 0xFF));
    assert_eq!(ca.bounds(), (64, 128));
}

#[test]
fn text_stats_accumulate() {
    let mut stats = scrollcal::stats::TextStats::new();
    stats.record_width(12);
    stats.record_width(7);
    stats.record_width(12);
    assert_eq!(stats.widths, vec![(12, 2), (7, 1)]);
    stats.record_text("ab".to_owned());
    stats.record_text("cd".to_owned());
    stats.record_text("ab".to_owned());
    assert_eq!(stats.texts, vec![("ab".to_owned(), 2), ("cd".to_owned(), 1)]);
}
