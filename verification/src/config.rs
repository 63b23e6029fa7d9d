use vstd::prelude::*;

use crate::color::{rgb, spec_bytecolor_of_rgb, spec_rgb, ByteColor, RGBInt};
use crate::datastream::DatastreamElements;

verus! {

pub const RGB_TEXT_ENDED: u32 = 0x9BAEC0;

pub const RGB_TIME_ENDED: u32 = 0x7D8D93;

pub const RGB_TEXT: u32 = 0x694342;

pub const RGB_TIME: u32 = 0x7D5757;

pub const RGB_DATE: u32 = 0xEFD4A5;

pub const RGB_TIME_DASH: u32 = 0xC28979;

pub const RGB_EVENT_MARKER: u32 = 0x5A494F;

pub const PAL_DATE: u8 = 0;

pub const PAL_TEXT_ENDED: u8 = 1;

pub const PAL_TIME_ENDED: u8 = 2;

pub const PAL_TEXT: u8 = 3;

pub const PAL_TIME: u8 = 4;

pub const PAL_TIME_DASH: u8 = 5;

pub const VIEWPORT_HEIGHT: u32 = 1447;

pub const VIEWPORT_WIDTH: u32 = 1024;

pub const TEXTURE_HEIGHT: u32 = 4096;

pub const TEXTURE_WIDTH: u32 = VIEWPORT_WIDTH;

pub const MARGIN: u32 = 8;

pub const PADDING: u32 = 8;

pub const SECTION_PAD: u32 = 32;

pub const LEFT_BORDER: u32 = 23;

pub const RIGHT_BORDER: u32 = 71;

pub const VARIABLE_OUTER_LEFT: u32 = 23;

pub const VARIABLE_OUTER_RIGHT: u32 = 953;

pub const VARIABLE_TOP: u32 = 585;

pub const VARIABLE_TEMPLATE_TOP: u32 = 590;

pub const VARIABLE_BOTTOM: u32 = 1313;

pub const VARIABLE_HEADER_BOTTOM: u32 = VARIABLE_TOP + 95;

pub const DAY_HEADER_HEIGHT: u32 = VARIABLE_HEADER_BOTTOM - VARIABLE_TOP;

pub const TIME_COL_LEFT: u32 = 28;

pub const TIME_COL_RIGHT: u32 = 139;

pub const EVENT_INFO_LEFT: u32 = 144 + 16;

pub const EVENT_INFO_RIGHT: u32 = 948;

pub const VARIABLE_LEFT: u32 = TIME_COL_LEFT;

pub const VARIABLE_RIGHT: u32 = EVENT_INFO_RIGHT;

pub const EVENT_MARKER_HEIGHT: u32 = 16;

/// The marker height scaled by cos 30 degrees, rounded up to whole pixels.
pub const EVENT_MARKER_WIDTH: u32 = 14;

pub const EVENT_MARKER_CLIP: u32 = 4;

pub const SWATCH_SIZE: u32 = 32;

pub const BG_SAMPLE_HEIGHT: u32 = 32;

pub const SCROLL_SPLIT_POINT: u32 = VARIABLE_BOTTOM;

pub const HEADER_BLEND_START: u32 = 8;

pub const HEADER_BLEND_END: u32 = 16;

/// Blank space kept above and below the scrollable event list.
pub const HEADER_TEMPLATE_MARGIN: u32 = 16;

/// Width of each corner crop kept from the day-header template.
pub const DAY_HEADER_CORNER_SIZE: u32 = 8;

/// The largest pixel dimension any layout quantity may reach: everything
/// must stay encodable as an 18-bit datastream scalar.
pub const MAX_DIM: u32 = 0x3FFFF;

pub const FONT_DAY_HEADER: &'static str = "M+ 1m bold 21.6";

pub const FONT_TIME: &'static str = "M+ 1m bold 16.2";

pub const FONT_END_TIME: &'static str = "M+ 1m regular 10.8";

pub const FONT_EVENT_INFO: &'static str = "M+ 1m medium 16.2";

pub const FONT_CONFIG_INFO: &'static str = "M+ 1m regular 10.8";

/// The eight display colors, referenced by palette index in per-row
/// metadata.
pub open spec fn spec_palette_rgb() -> Seq<RGBInt> {
    seq![
        spec_rgb(RGB_DATE),
        spec_rgb(RGB_TEXT_ENDED),
        spec_rgb(RGB_TIME_ENDED),
        spec_rgb(RGB_TEXT),
        spec_rgb(RGB_TIME),
        spec_rgb(RGB_TIME_DASH),
        spec_rgb(0xFF00FF),
        spec_rgb(0x00FFFF),
    ]
}

pub fn palette_colors() -> (r: [RGBInt; 8])
    ensures
        r@ == spec_palette_rgb(),
{
    let r = [
        rgb(RGB_DATE),
        rgb(RGB_TEXT_ENDED),
        rgb(RGB_TIME_ENDED),
        rgb(RGB_TEXT),
        rgb(RGB_TIME),
        rgb(RGB_TIME_DASH),
        rgb(0xFF00FF),
        rgb(0x00FFFF),
    ];
    proof {
        assert(r@ =~= spec_palette_rgb());
    }
    r
}

pub open spec fn spec_config_palette() -> Seq<ByteColor> {
    spec_palette_rgb().map_values(|c: RGBInt| spec_bytecolor_of_rgb(c))
}

/// The fixed part of the datastream record: every geometry scalar that the
/// configuration alone determines, with placeholders (the largest `u32`)
/// in the fields that the layout stages fill in later.
pub fn config_datastream_info() -> (r: DatastreamElements)
    ensures
        r.datastream_width == 0xFFFFFFFFu32,
        r.datastream_height == 0xFFFFFFFFu32,
        r.viewport_h == VIEWPORT_HEIGHT,
        r.viewport_w == VIEWPORT_WIDTH,
        r.header_h == VARIABLE_TOP,
        r.footer_h == VIEWPORT_HEIGHT - VARIABLE_BOTTOM,
        r.border_l == LEFT_BORDER,
        r.border_r == RIGHT_BORDER,
        r.day_header_height == DAY_HEADER_HEIGHT,
        r.header_blend_start == HEADER_BLEND_START,
        r.header_blend_end == HEADER_BLEND_END,
        r.scroll_split_point == SCROLL_SPLIT_POINT,
        r.col_divs@ == seq![
            TIME_COL_RIGHT,
            (TIME_COL_RIGHT + EVENT_MARKER_WIDTH) as u32,
            VIEWPORT_WIDTH,
        ],
        r.palette@ == spec_config_palette(),
        r.section_pad == SECTION_PAD,
        r.scroll_height == 0xFFFFFFFFu32,
        r.scroll_tex_y == 0xFFFFFFFFu32,
        r.bg_sample_y == 0xFFFFFFFFu32,
        r.bg_sample_h == BG_SAMPLE_HEIGHT,
        r.header_tex_y == 0xFFFFFFFFu32,
        r.footer_tex_y == 0xFFFFFFFFu32,
        r.day_header_tex_x == 0xFFFFFFFFu32,
        r.day_header_tex_alpha_x == 0xFFFFFFFFu32,
        r.day_header_tex_y == 0xFFFFFFFFu32,
        r.day_header_side_width == 0xFFFFFFFFu32,
        r.day_header_true_width == 0xFFFFFFFFu32,
        r.vdata@ == Seq::<crate::datastream::VerticalData>::empty(),
{
    let pal = palette_colors();
    let palette: [ByteColor; 8] = [
        ByteColor::from_rgb(pal[0]),
        ByteColor::from_rgb(pal[1]),
        ByteColor::from_rgb(pal[2]),
        ByteColor::from_rgb(pal[3]),
        ByteColor::from_rgb(pal[4]),
        ByteColor::from_rgb(pal[5]),
        ByteColor::from_rgb(pal[6]),
        ByteColor::from_rgb(pal[7]),
    ];
    proof {
        assert(palette@ =~= spec_config_palette());
    }
    let r = DatastreamElements {
        datastream_width: 0xFFFFFFFF,
        datastream_height: 0xFFFFFFFF,
        viewport_h: VIEWPORT_HEIGHT,
        viewport_w: VIEWPORT_WIDTH,
        header_h: VARIABLE_TOP,
        footer_h: VIEWPORT_HEIGHT - VARIABLE_BOTTOM,
        border_l: LEFT_BORDER,
        border_r: RIGHT_BORDER,
        day_header_height: DAY_HEADER_HEIGHT,
        header_blend_start: HEADER_BLEND_START,
        header_blend_end: HEADER_BLEND_END,
        scroll_split_point: SCROLL_SPLIT_POINT,
        col_divs: [TIME_COL_RIGHT, (TIME_COL_RIGHT + EVENT_MARKER_WIDTH) as u32, VIEWPORT_WIDTH],
        palette,
        section_pad: SECTION_PAD,
        scroll_height: 0xFFFFFFFF,
        scroll_tex_y: 0xFFFFFFFF,
        bg_sample_y: 0xFFFFFFFF,
        bg_sample_h: BG_SAMPLE_HEIGHT,
        header_tex_y: 0xFFFFFFFF,
        footer_tex_y: 0xFFFFFFFF,
        day_header_tex_x: 0xFFFFFFFF,
        day_header_tex_alpha_x: 0xFFFFFFFF,
        day_header_tex_y: 0xFFFFFFFF,
        day_header_side_width: 0xFFFFFFFF,
        day_header_true_width: 0xFFFFFFFF,
        vdata: Vec::new(),
    };
    proof {
        assert(r.col_divs@ =~= seq![
            TIME_COL_RIGHT,
            (TIME_COL_RIGHT + EVENT_MARKER_WIDTH) as u32,
            VIEWPORT_WIDTH,
        ]);
    }
    r
}

} // verus!
