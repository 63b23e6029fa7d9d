use scrollcal::color::ByteColor;
use scrollcal::config::config_datastream_info;
use scrollcal::datastream::{DatastreamElements, RowColorInfo, VerticalData, FLAG_IS_DAY_HEADER};
use scrollcal::error::UpdaterError;

fn small_record() -> DatastreamElements {
    let mut d = config_datastream_info();
    // Replace the placeholders with representable values.
    d.datastream_width = 8;
    d.datastream_height = 6;
    d.scroll_height = 56;
    d.scroll_tex_y = 1205;
    d.bg_sample_y = 1000;
    d.header_tex_y = 254;
    d.footer_tex_y = 911;
    d.day_header_tex_x = 792;
    d.day_header_tex_alpha_x = 872;
    d.day_header_tex_y = 0;
    d.day_header_side_width = 8;
    d.day_header_true_width = 512;
    d
}

#[test]
fn config_record_carries_the_fixed_geometry() {
    let d = config_datastream_info();
    assert_eq!(d.viewport_w, 1024);
    assert_eq!(d.viewport_h, 1447);
    assert_eq!(d.header_h, 585);
    assert_eq!(d.footer_h, 1447 - 1313);
    assert_eq!(d.border_l, 23);
    assert_eq!(d.border_r, 71);
    assert_eq!(d.day_header_height, 95);
    assert_eq!(d.col_divs, [139, 153, 1024]);
    assert_eq!(d.section_pad, 32);
    assert_eq!(d.bg_sample_h, 32);
    assert_eq!(d.header_blend_start, 8);
    assert_eq!(d.header_blend_end, 16);
    assert_eq!(d.scroll_split_point, 1313);
    assert!(d.vdata.is_empty());
    // First palette entry is the date color, stored as a direct color.
    assert_eq!(d.palette[0], ByteColor::from_rgb((0xEF, 0xD4, 0xA5)));
    assert_eq!(d.palette[6], ByteColor::from_rgb((0xFF, 0x00, 0xFF)));
}

#[test]
fn encode_layout_and_order() {
    let mut d = small_record();
    d.vdata.push(VerticalData { prev_day_header: 0, col_info: RowColorInfo::Colors([1, 2, 3, 4]) });
    d.vdata.push(VerticalData { prev_day_header: 7, col_info: RowColorInfo::DayHeader { offset: 5 } });
    let ds = d.encode().unwrap();
    // 12 scalars, 8 palette entries, 16 scalars, then two rows twice over.
    assert_eq!(ds.len(), 12 + 8 + 16 + 2 + 2);
    assert_eq!(ds[0], ByteColor::from_value(8).unwrap());
    assert_eq!(ds[1], ByteColor::from_value(6).unwrap());
    assert_eq!(ds[2], ByteColor::from_value(1024).unwrap());
    assert_eq!(ds[3], ByteColor::from_value(1447).unwrap());
    assert_eq!(ds[9], ByteColor::from_value(139).unwrap());
    assert_eq!(ds[11], ByteColor::from_value(1024).unwrap());
    assert_eq!(ds[12], d.palette[0]);
    assert_eq!(ds[19], d.palette[7]);
    assert_eq!(ds[20], ByteColor::from_value(32).unwrap());
    // The table length scalar closes the fixed part.
    assert_eq!(ds[35], ByteColor::from_value(2).unwrap());
    // Back-pointer rows.
    assert_eq!(ds[36], ByteColor::from_value(0).unwrap());
    assert_eq!(ds[37], ByteColor::from_value(7).unwrap());
    // Row-info rows: the packed 3-bit tuple, then the marked offset.
    let packed = (1 << 9) | (2 << 6) | (3 << 3) | 4;
    assert_eq!(ds[38], ByteColor::from_value(packed).unwrap());
    assert_eq!(ds[39], ByteColor::from_value(5 | FLAG_IS_DAY_HEADER).unwrap());
}

#[test]
fn encode_rejects_oversized_scalar() {
    let mut d = small_record();
    d.scroll_tex_y = 0x40000;
    match d.encode() {
        Err(UpdaterError::ValueTooLarge { value, .. }) => assert_eq!(value, 0x40000),
        _ => panic!("expected a value-too-large error"),
    }
}

#[test]
fn encode_rejects_out_of_range_palette_index() {
    let mut d = small_record();
    d.vdata.push(VerticalData { prev_day_header: 0, col_info: RowColorInfo::Colors([1, 8, 0, 0]) });
    match d.encode() {
        Err(UpdaterError::ColorOutOfRange { value }) => assert_eq!(value, 8),
        _ => panic!("expected a color-out-of-range error"),
    }
}

#[test]
fn write_fails_on_capacity_without_touching_the_image() {
    // 36 pixels of fixed data cannot fit a 2 by 2 reserved block.
    let mut d = small_record();
    d.datastream_width = 2;
    d.datastream_height = 2;
    let mut img = vec![0u8; 64 * 2];
    let before = img.clone();
    match d.write(&mut img, 64, 16) {
        Err(UpdaterError::CapacityExceeded { needed, capacity }) => {
            assert_eq!(needed, 36);
            assert_eq!(capacity, 4);
        },
        _ => panic!("expected a capacity error"),
    }
    assert_eq!(img, before);
}

#[test]
fn write_blits_right_to_left() {
    let d = small_record();
    let ds = d.encode().unwrap();
    assert_eq!(ds.len(), 36);
    // Image 10 pixels wide, stride 40, tall enough for 6 datastream rows.
    let mut img = vec![0u8; 40 * 6];
    d.write(&mut img, 40, 10).unwrap();
    // Element 0 lands on row 0, column 10 - 0 - 1 = 9.
    assert_eq!(&img[9 * 4..10 * 4], &ds[0].to_array());
    // Element 1 lands one column to the left.
    assert_eq!(&img[8 * 4..9 * 4], &ds[1].to_array());
    // Element 8 starts the second row at the right edge.
    assert_eq!(&img[40 + 9 * 4..40 + 10 * 4], &ds[8].to_array());
    // Columns left of the reserved block stay untouched.
    assert_eq!(&img[0..8], &[0u8; 8]);
    // The last element: index 35 = row 4, rx 3, column 6.
    assert_eq!(&img[4 * 40 + 6 * 4..4 * 40 + 7 * 4], &ds[35].to_array());
    // Unwritten cells of the last row stay untouched.
    assert_eq!(&img[5 * 40..5 * 40 + 4], &[0u8; 4]);
}

#[test]
fn squash_packs_thirds_into_channels() {
    // Input: stride 4, width 2, three thirds of 2 rows each.
    let input: Vec<u8> = (0u8..24).collect();
    let out = scrollcal::channels::squash_surface(&input, 4, 2, 2);
    assert_eq!(out.len(), 16);
    // Pixel (0,0): blue from third 0, green from third 1, red from third 2.
    assert_eq!(&out[0..4], &[input[0], input[8], input[16], 0xFF]);
    // Pixel (1,1): base = 1*4 + 1 = 5.
    assert_eq!(&out[12..16], &[input[5], input[13], input[21], 0xFF]);
}
