use vstd::prelude::*;

use chrono::Datelike;
use chrono::Timelike;

use crate::calendar::{
    info_line_text, spec_info_line, spec_now_valid, CalendarDay, CivilDate, NowInfo, Timestamp,
};
use crate::color::rgb;
use crate::config::{
    BG_SAMPLE_HEIGHT, DAY_HEADER_CORNER_SIZE, LEFT_BORDER, MAX_DIM, RGB_TEXT, RIGHT_BORDER,
    SECTION_PAD, TEXTURE_HEIGHT, VARIABLE_BOTTOM, VARIABLE_OUTER_RIGHT, VARIABLE_TEMPLATE_TOP,
    VARIABLE_TOP, VIEWPORT_HEIGHT, VIEWPORT_WIDTH,
};
use crate::config::config_datastream_info;
use crate::datastream::{DatastreamElements, VerticalData};
use crate::error::UpdaterError;
use crate::layout::{
    generate_variable_layout, shapes_sum_height, spec_days_req_count, spec_days_shapes_opt,
    spec_days_valid, spec_vd_views, spec_walk,
};
use crate::color::spec_rgb;
use crate::render::{
    fill_rect, is_pad_sides_of, is_pad_vertical_of, max2, pad_sides, pad_vertical, surface,
    text_box, FontKind, NodeKind, PaintOp, RcRenderable, Rect, RenderColumn, RenderGroup, SwapXY,
    TextMetrics,
};

verus! {

/// Surface handle of the background template raster.
pub const SURFACE_TEMPLATE: u32 = 0;

/// Surface handle of the day-header template raster.
pub const SURFACE_DAY_HEADER: u32 = 1;

/// Surface handle of the channel-packed event texture.
pub const SURFACE_EVENTS: u32 = 2;

/// Everything the composition stages need: the two template rasters
/// (already scaled to the target width) and the build label.
pub struct SetupInfo {
    pub branch_name: String,
    pub template: RcRenderable,
    pub day_header_template: RcRenderable,
    pub header_template_margin: u32,
}

/// Reads the wall clock.
///
/// Relies on chrono's `Local::now` for the current instant in the local
/// timezone: month, day, hour, minute and second are within their
/// documented calendar ranges, and `local_minus_utc` is strictly between
/// minus and plus one day.
#[verifier::external_body]
fn now_local() -> (n: NowInfo)
    ensures
        spec_now_valid(n),
{
    let now = chrono::Local::now();
    NowInfo {
        ts: Timestamp {
            date: CivilDate {
                year: now.year(),
                month: now.month() as u8,
                day: now.day() as u8,
            },
            hour: now.hour() as u8,
            minute: now.minute() as u8,
        },
        second: now.second() as u8,
        tz_offset_seconds: now.offset().local_minus_utc(),
    }
}

/// Reads the clock once and renders the footer info line for the given
/// build label.  Whatever instant came back, the returned reading is
/// within calendar ranges and the line is its exact ISO-8601 rendering
/// followed by the label.
pub fn current_info_line(branch: &str) -> (r: (NowInfo, String))
    ensures
        spec_now_valid(r.0),
        r.1@ == spec_info_line(r.0, branch@),
{
    let n = now_local();
    let line = info_line_text(&n, branch);
    (n, line)
}

/// The smallest power of two at or above `v`.
pub open spec fn spec_next_pow2(v: int) -> int
    decreases v,
{
    if v <= 1 {
        1
    } else {
        2 * spec_next_pow2((v + 1) / 2)
    }
}

pub proof fn lemma_next_pow2_bounds(v: int)
    requires
        v >= 1,
    ensures
        spec_next_pow2(v) >= v,
        spec_next_pow2(v) < 2 * v,
    decreases v,
{
    if v > 1 {
        lemma_next_pow2_bounds((v + 1) / 2);
    }
}

/// Rounds a dimension up to the next power of two, as the final image
/// size requires.
pub fn next_power_of_two(v: u32) -> (r: u32)
    requires
        v <= 0x80000000,
    ensures
        r == spec_next_pow2(v as int),
        r >= v,
    decreases v,
{
    proof {
        if v >= 1 {
            lemma_next_pow2_bounds(v as int);
        }
    }
    if v <= 1 {
        1
    } else {
        2 * next_power_of_two((v + 1) / 2)
    }
}

/// Builds the scaled template handles: both rasters are uniformly scaled
/// so the background template becomes exactly the viewport width.
pub fn setup_environment(
    branch_name: Option<String>,
    template_dims: (u32, u32),
    header_dims: (u32, u32),
) -> (r: Result<SetupInfo, UpdaterError>)
    requires
        template_dims.0 <= MAX_DIM,
        template_dims.1 <= MAX_DIM,
        header_dims.0 <= MAX_DIM,
        header_dims.1 <= MAX_DIM,
    ensures
        r.is_ok() <==> (template_dims.0 >= 1 && (template_dims.0 * VIEWPORT_WIDTH) / (
        template_dims.0 as int) <= MAX_DIM && (template_dims.1 * VIEWPORT_WIDTH) / (
        template_dims.0 as int) <= MAX_DIM && (header_dims.0 * VIEWPORT_WIDTH) / (
        template_dims.0 as int) <= MAX_DIM && (header_dims.1 * VIEWPORT_WIDTH) / (
        template_dims.0 as int) <= MAX_DIM),
        r.is_ok() ==> ({
            let st = r.unwrap();
            &&& st.template.wf()
            &&& st.day_header_template.wf()
            &&& st.template.spec_width() == (template_dims.0 * VIEWPORT_WIDTH) / (
            template_dims.0 as int)
            &&& st.template.spec_height() == (template_dims.1 * VIEWPORT_WIDTH) / (
            template_dims.0 as int)
            &&& st.day_header_template.spec_width() == (header_dims.0 * VIEWPORT_WIDTH) / (
            template_dims.0 as int)
            &&& st.day_header_template.spec_height() == (header_dims.1 * VIEWPORT_WIDTH) / (
            template_dims.0 as int)
            &&& is_scaled_surface(
                st.template,
                SURFACE_TEMPLATE,
                template_dims.0,
                template_dims.1,
                VIEWPORT_WIDTH,
                template_dims.0,
            )
            &&& is_scaled_surface(
                st.day_header_template,
                SURFACE_DAY_HEADER,
                header_dims.0,
                header_dims.1,
                VIEWPORT_WIDTH,
                template_dims.0,
            )
            &&& st.header_template_margin == crate::config::HEADER_TEMPLATE_MARGIN
            &&& st.branch_name@ == (match branch_name {
                Some(b) => b@,
                None => "DEVEL"@,
            })
        }),
{
    if template_dims.0 < 1 {
        return Err(
            UpdaterError::GeometryOverflow { field: "template width", value: 0 },
        );
    }
    let template_node = match surface(SURFACE_TEMPLATE, template_dims.0, template_dims.1) {
        Ok(v) => v.into_rc(),
        Err(e) => {
            proof {
                assert(false);
            }
            return Err(e);
        },
    };
    let header_node = match surface(SURFACE_DAY_HEADER, header_dims.0, header_dims.1) {
        Ok(v) => v.into_rc(),
        Err(e) => {
            proof {
                assert(false);
            }
            return Err(e);
        },
    };
    let template = match template_node.scale_by(
        VIEWPORT_WIDTH,
        template_dims.0,
        VIEWPORT_WIDTH,
        template_dims.0,
    ) {
        Ok(v) => v,
        Err(e) => {
            return Err(e);
        },
    };
    let day_title = match header_node.scale_by(
        VIEWPORT_WIDTH,
        template_dims.0,
        VIEWPORT_WIDTH,
        template_dims.0,
    ) {
        Ok(v) => v,
        Err(e) => {
            return Err(e);
        },
    };
    let branch = match branch_name {
        Some(b) => b,
        None => "DEVEL".to_owned(),
    };
    Ok(
        SetupInfo {
            branch_name: branch,
            template,
            day_header_template: day_title,
            header_template_margin: crate::config::HEADER_TEMPLATE_MARGIN,
        },
    )
}

/// One border strip: the template cropped beside the variable region,
/// transposed, and edge-stretch padded for the texture atlas.  Returns
/// the strip and the crop's own size.
pub fn template_column(setup: &SetupInfo, col: u32) -> (r: Result<
    (RcRenderable, u32, u32),
    UpdaterError,
>)
    requires
        setup.template.wf(),
        col <= 1,
    ensures
        r.is_ok(),
        r.is_ok() ==> ({
            let (node, w, h) = r.unwrap();
            let bw = if col == 0 {
                LEFT_BORDER
            } else {
                RIGHT_BORDER
            };
            &&& (*node.0).wf()
            &&& w == bw
            &&& h == VARIABLE_BOTTOM - VARIABLE_TOP
            &&& (*node.0).width == VARIABLE_BOTTOM - VARIABLE_TOP + SECTION_PAD
            &&& (*node.0).height == bw + 2 * SECTION_PAD
            &&& is_border_strip(
                node,
                setup.template,
                Rect {
                    x: if col == 0 {
                        0
                    } else {
                        VARIABLE_OUTER_RIGHT
                    },
                    y: VARIABLE_TOP,
                    width: bw,
                    height: (VARIABLE_BOTTOM - VARIABLE_TOP) as u32,
                },
            )
        }),
{
    let border_w: u32 = if col == 0 {
        LEFT_BORDER
    } else {
        RIGHT_BORDER
    };
    let clip = match setup.template.clip_to(
        Rect {
            x: col * crate::config::VARIABLE_OUTER_RIGHT,
            y: VARIABLE_TOP,
            width: border_w,
            height: VARIABLE_BOTTOM - VARIABLE_TOP,
        },
    ) {
        Ok(v) => v,
        Err(e) => {
            proof {
                assert(false);
            }
            return Err(e);
        },
    };
    let w = clip.width();
    let h = clip.height();
    let swapped = SwapXY::new(clip).into_node();
    let padded = match pad_vertical(&swapped, SECTION_PAD, SECTION_PAD) {
        Ok(v) => v,
        Err(e) => {
            proof {
                assert(false);
            }
            return Err(e);
        },
    };
    let sided = match pad_sides(&padded, 0, SECTION_PAD) {
        Ok(v) => v,
        Err(e) => {
            proof {
                assert(false);
            }
            return Err(e);
        },
    };
    proof {
        assert(is_pad_sides_of(sided, padded, 0, SECTION_PAD));
        assert(is_pad_vertical_of(padded, swapped, SECTION_PAD, SECTION_PAD));
        assert(is_border_strip(
            sided,
            setup.template,
            Rect {
                x: if col == 0 {
                    0
                } else {
                    VARIABLE_OUTER_RIGHT
                },
                y: VARIABLE_TOP,
                width: border_w,
                height: (VARIABLE_BOTTOM - VARIABLE_TOP) as u32,
            },
        ));
    }
    Ok((sided, w, h))
}



/// `n` is the raster with the given handle and size, uniformly scaled
/// by num/den on both axes.
pub open spec fn is_scaled_surface(
    n: RcRenderable,
    id: u32,
    w: u32,
    h: u32,
    num: u32,
    den: u32,
) -> bool {
    match (*n.0).kind {
        NodeKind::Scale { child, sx_num, sx_den, sy_num, sy_den } => {
            &&& sx_num == num
            &&& sx_den == den
            &&& sy_num == num
            &&& sy_den == den
            &&& match (*child.0).kind {
                NodeKind::Surface { surface_id } => surface_id == id && (*child.0).width == w && (
                *child.0).height == h,
                _ => false,
            }
        },
        _ => false,
    }
}

/// `n` is `src` cropped at `rect`.
pub open spec fn is_clip_of(n: RcRenderable, src: RcRenderable, rect: Rect) -> bool {
    match (*n.0).kind {
        NodeKind::Clip { child, rect: r } => child == src && r == rect,
        _ => false,
    }
}

/// `n` is `src` cropped at `rect` and placed at (dx, dy).
pub open spec fn is_placed_clip(
    n: RcRenderable,
    src: RcRenderable,
    rect: Rect,
    dx: int,
    dy: int,
) -> bool {
    match (*n.0).kind {
        NodeKind::Translate { child, dx: tx, dy: ty } => tx == dx && ty == dy && is_clip_of(
            child,
            src,
            rect,
        ),
        _ => false,
    }
}

/// One atlas border strip: the template cropped at `rect`, transposed,
/// edge-stretch padded vertically on both sides and on its right.
pub open spec fn is_border_strip(n: RcRenderable, template: RcRenderable, rect: Rect) -> bool {
    exists|padded: RcRenderable, swapped: RcRenderable|
        #![trigger is_pad_sides_of(n, padded, 0, SECTION_PAD), is_pad_vertical_of(padded, swapped, SECTION_PAD, SECTION_PAD)]
        {
            &&& is_pad_sides_of(n, padded, 0, SECTION_PAD)
            &&& is_pad_vertical_of(padded, swapped, SECTION_PAD, SECTION_PAD)
            &&& match (*swapped.0).kind {
                NodeKind::Swap { child } => is_clip_of(child, template, rect),
                _ => false,
            }
        }
}

/// The day-header atlas block: the template's two corner crops side by
/// side, edge-stretch padded on both sides and below.
pub open spec fn is_day_header_block(n: RcRenderable, dh: RcRenderable) -> bool {
    let dhw = (*dh.0).width;
    let dhh = (*dh.0).height;
    exists|sided: RcRenderable, grp: RcRenderable|
        #![trigger is_pad_vertical_of(n, sided, 0, SECTION_PAD), is_pad_sides_of(sided, grp, SECTION_PAD, SECTION_PAD)]
        {
            &&& is_pad_vertical_of(n, sided, 0, SECTION_PAD)
            &&& is_pad_sides_of(sided, grp, SECTION_PAD, SECTION_PAD)
            &&& match (*grp.0).kind {
                NodeKind::Group { children } => {
                    &&& children@.len() == 2
                    &&& is_placed_clip(
                        children@[0],
                        dh,
                        Rect { x: 0, y: 0, width: DAY_HEADER_CORNER_SIZE, height: dhh },
                        0,
                        0,
                    )
                    &&& is_placed_clip(
                        children@[1],
                        dh,
                        Rect {
                            x: (dhw - DAY_HEADER_CORNER_SIZE) as u32,
                            y: 0,
                            width: DAY_HEADER_CORNER_SIZE,
                            height: dhh,
                        },
                        DAY_HEADER_CORNER_SIZE as int,
                        0,
                    )
                },
                _ => false,
            }
        }
}

/// The first atlas segment: border strips, the day-header block, and
/// its alpha mask (solid white with the block punched in), side by
/// side.
pub open spec fn is_init_segment(
    n: RcRenderable,
    template: RcRenderable,
    dh: RcRenderable,
) -> bool {
    let side_w = (VARIABLE_BOTTOM - VARIABLE_TOP + SECTION_PAD) as int;
    match (*n.0).kind {
        NodeKind::Group { children } => {
            let cs = children@;
            &&& cs.len() == 3
            &&& match (*cs[0].0).kind {
                NodeKind::Column { children: sides } => {
                    &&& sides@.len() == 2
                    &&& is_border_strip(
                        sides@[0],
                        template,
                        Rect {
                            x: 0,
                            y: VARIABLE_TOP,
                            width: LEFT_BORDER,
                            height: (VARIABLE_BOTTOM - VARIABLE_TOP) as u32,
                        },
                    )
                    &&& is_border_strip(
                        sides@[1],
                        template,
                        Rect {
                            x: VARIABLE_OUTER_RIGHT,
                            y: VARIABLE_TOP,
                            width: RIGHT_BORDER,
                            height: (VARIABLE_BOTTOM - VARIABLE_TOP) as u32,
                        },
                    )
                },
                _ => false,
            }
            &&& match (*cs[1].0).kind {
                NodeKind::Translate { child, dx, dy } => dx == side_w && dy == 0
                    && is_day_header_block(child, dh),
                _ => false,
            }
            &&& match (*cs[2].0).kind {
                NodeKind::Translate { child, dx, dy } => {
                    &&& dx == side_w + 2 * DAY_HEADER_CORNER_SIZE + 2 * SECTION_PAD
                    &&& dy == 0
                    &&& match (*child.0).kind {
                        NodeKind::Group { children: ag } => {
                            &&& ag@.len() == 2
                            &&& match (*ag@[0].0).kind {
                                NodeKind::FillRect { color } => color == (0xFFu8, 0xFFu8, 0xFFu8),
                                _ => false,
                            }
                            &&& match (*ag@[1].0).kind {
                                NodeKind::Operator { child: oc, op } => op == PaintOp::DestIn
                                    && is_day_header_block(oc, dh),
                                _ => false,
                            }
                        },
                        _ => false,
                    }
                },
                _ => false,
            }
        },
        _ => false,
    }
}

/// The non-scrolled header band: the template's top crop overlaid with
/// the day-header template's top strip, padded above and below.
pub open spec fn is_header_band(n: RcRenderable, template: RcRenderable, dh: RcRenderable) -> bool {
    let tw = (*template.0).width;
    let dhw = (*dh.0).width;
    exists|inner: RcRenderable|
        #![trigger is_pad_vertical_of(n, inner, SECTION_PAD, SECTION_PAD)]
        {
            &&& is_pad_vertical_of(n, inner, SECTION_PAD, SECTION_PAD)
            &&& match (*inner.0).kind {
                NodeKind::Group { children } => {
                    &&& children@.len() == 2
                    &&& is_clip_of(
                        children@[0],
                        template,
                        Rect {
                            x: 0,
                            y: 0,
                            width: tw,
                            height: (DAY_HEADER_CORNER_SIZE + VARIABLE_TOP) as u32,
                        },
                    )
                    &&& is_placed_clip(
                        children@[1],
                        dh,
                        Rect { x: 0, y: 0, width: dhw, height: DAY_HEADER_CORNER_SIZE },
                        LEFT_BORDER as int,
                        VARIABLE_TOP as int,
                    )
                },
                _ => false,
            }
        }
}

/// The footer band: the template's bottom crop with the info line laid
/// over its lower edge, padded above and below.
pub open spec fn is_footer_band(
    n: RcRenderable,
    template: RcRenderable,
    info: Seq<char>,
    im: TextMetrics,
) -> bool {
    let tw = (*template.0).width;
    let th = (*template.0).height;
    let fh = (th - VARIABLE_BOTTOM) as u32;
    exists|inner: RcRenderable|
        #![trigger is_pad_vertical_of(n, inner, SECTION_PAD, SECTION_PAD)]
        {
            &&& is_pad_vertical_of(n, inner, SECTION_PAD, SECTION_PAD)
            &&& match (*inner.0).kind {
                NodeKind::Group { children } => {
                    &&& children@.len() == 2
                    &&& is_clip_of(
                        children@[0],
                        template,
                        Rect { x: 0, y: VARIABLE_BOTTOM, width: tw, height: fh },
                    )
                    &&& crate::layout::is_text_at(
                        children@[1],
                        info,
                        spec_rgb(crate::config::RGB_TEXT),
                        FontKind::ConfigInfo,
                        tw as int,
                        1,
                        0,
                        max2(fh - im.height, 0),
                    )
                },
                _ => false,
            }
        }
}

/// The background color sample band: the template's sample strip,
/// padded above and below.
pub open spec fn is_bg_band(n: RcRenderable, template: RcRenderable) -> bool {
    let tw = (*template.0).width;
    exists|clip: RcRenderable|
        #![trigger is_pad_vertical_of(n, clip, SECTION_PAD, SECTION_PAD)]
        {
            &&& is_pad_vertical_of(n, clip, SECTION_PAD, SECTION_PAD)
            &&& is_clip_of(
                clip,
                template,
                Rect {
                    x: 0,
                    y: VARIABLE_TEMPLATE_TOP,
                    width: tw,
                    height: BG_SAMPLE_HEIGHT,
                },
            )
        }
}

/// The whole template section of the atlas: the init segment, the
/// header band, the footer band and the sample band, stacked.
pub open spec fn is_template_atlas(
    n: RcRenderable,
    template: RcRenderable,
    dh: RcRenderable,
    info: Seq<char>,
    im: TextMetrics,
) -> bool {
    match (*n.0).kind {
        NodeKind::Column { children } => {
            &&& children@.len() == 4
            &&& is_init_segment(children@[0], template, dh)
            &&& is_header_band(children@[1], template, dh)
            &&& is_footer_band(children@[2], template, info, im)
            &&& is_bg_band(children@[3], template)
        },
        _ => false,
    }
}

/// The scrollable band of the final composite: the channel-packed event
/// texture cropped to the variable region, padded above and on its
/// right.
pub open spec fn is_event_band(n: RcRenderable, ev_h: u32) -> bool {
    exists|padded: RcRenderable, clip: RcRenderable|
        #![trigger is_pad_sides_of(n, padded, 0, SECTION_PAD), is_pad_vertical_of(padded, clip, SECTION_PAD, 0)]
        {
            &&& is_pad_sides_of(n, padded, 0, SECTION_PAD)
            &&& is_pad_vertical_of(padded, clip, SECTION_PAD, 0)
            &&& match (*clip.0).kind {
                NodeKind::Clip { child, rect } => {
                    &&& rect == (Rect {
                        x: LEFT_BORDER,
                        y: 0,
                        width: (VIEWPORT_WIDTH - (LEFT_BORDER + RIGHT_BORDER)) as u32,
                        height: ev_h,
                    })
                    &&& match (*child.0).kind {
                        NodeKind::Surface { surface_id } => surface_id == SURFACE_EVENTS && (
                        *child.0).width == VIEWPORT_WIDTH && (*child.0).height == ev_h,
                        _ => false,
                    }
                },
                _ => false,
            }
        }
}

/// Where each texture-atlas element ended up, in texture coordinates.
pub struct TemplateElementCoordinates {
    pub left_border: Rect,
    pub right_border: Rect,
    pub day_header_tex: Rect,
    pub day_header_true_size: (u32, u32),
    pub header: Rect,
    pub footer: Rect,
}

/// The atlas height of the combined border strips.
pub open spec fn spec_side_h() -> int {
    LEFT_BORDER + RIGHT_BORDER + 4 * SECTION_PAD
}

/// The height of the atlas segment holding borders, day-header crops and
/// the day-header alpha mask.
pub open spec fn spec_init_h(dhh: int) -> int {
    max2(spec_side_h(), dhh + SECTION_PAD)
}

pub open spec fn spec_footer_inner_h(th: int, ih: int) -> int {
    max2(th - VARIABLE_BOTTOM, ih)
}

/// The total atlas column height of the template section.
pub open spec fn spec_template_total_h(th: int, dhh: int, ih: int) -> int {
    spec_init_h(dhh) + (DAY_HEADER_CORNER_SIZE + VARIABLE_TOP + 2 * SECTION_PAD)
        + (spec_footer_inner_h(th, ih) + 2 * SECTION_PAD) + (BG_SAMPLE_HEIGHT + 2 * SECTION_PAD)
}

/// The template section can be composed exactly when the crops exist and
/// every extent stays representable.
pub open spec fn spec_template_ok(tw: int, th: int, dhw: int, dhh: int, im: TextMetrics) -> bool {
    &&& dhw >= DAY_HEADER_CORNER_SIZE
    &&& th >= VARIABLE_BOTTOM
    &&& dhh + SECTION_PAD <= VIEWPORT_HEIGHT
    &&& LEFT_BORDER + dhw <= MAX_DIM
    &&& im.width <= MAX_DIM
    &&& im.height <= MAX_DIM
    &&& spec_template_total_h(th, dhh, im.height as int) <= MAX_DIM
}

/// Composes the template part of the texture atlas: border strips,
/// day-header corner crops with their alpha mask, the non-scrolled
/// header band, the footer with the info line, and the background color
/// sample strip — recording every offset the downstream device needs
/// into the datastream record.
#[verifier::rlimit(100)]
pub fn layout_template(
    setup: &SetupInfo,
    info_text: String,
    info_metrics: TextMetrics,
    data: &mut DatastreamElements,
) -> (r: Result<(RcRenderable, TemplateElementCoordinates), UpdaterError>)
    requires
        setup.template.wf(),
        setup.day_header_template.wf(),
    ensures
        r.is_ok() <==> spec_template_ok(
            setup.template.spec_width(),
            setup.template.spec_height(),
            setup.day_header_template.spec_width(),
            setup.day_header_template.spec_height(),
            info_metrics,
        ),
        r.is_err() ==> *final(data) == *old(data),
        r.is_ok() ==> ({
            let tw = setup.template.spec_width();
            let th = setup.template.spec_height();
            let dhw = setup.day_header_template.spec_width();
            let dhh = setup.day_header_template.spec_height();
            let ih = info_metrics.height as int;
            let init_h = spec_init_h(dhh);
            let header_y = init_h + SECTION_PAD;
            let footer_y = init_h + DAY_HEADER_CORNER_SIZE + VARIABLE_TOP + 2 * SECTION_PAD
                + SECTION_PAD;
            let bg_y = init_h + DAY_HEADER_CORNER_SIZE + VARIABLE_TOP + 2 * SECTION_PAD
                + spec_footer_inner_h(th, ih) + 2 * SECTION_PAD + SECTION_PAD;
            let (node, coords) = r.unwrap();
            &&& (*node.0).wf()
            &&& (*node.0).height == spec_template_total_h(th, dhh, ih)
            &&& is_template_atlas(
                node,
                setup.template,
                setup.day_header_template,
                info_text@,
                info_metrics,
            )
            &&& final(data).day_header_side_width == DAY_HEADER_CORNER_SIZE
            &&& final(data).day_header_tex_x == (VARIABLE_BOTTOM - VARIABLE_TOP) + 2
                * SECTION_PAD
            &&& final(data).day_header_tex_alpha_x == final(data).day_header_tex_x + 2
                * DAY_HEADER_CORNER_SIZE + 2 * SECTION_PAD
            &&& final(data).day_header_tex_y == 0
            &&& final(data).day_header_true_width == dhw
            &&& final(data).day_header_height == dhh
            &&& final(data).datastream_width == VIEWPORT_WIDTH - ((VARIABLE_BOTTOM - VARIABLE_TOP
                + SECTION_PAD) + 2 * (2 * DAY_HEADER_CORNER_SIZE + 2 * SECTION_PAD))
            &&& final(data).datastream_height == VIEWPORT_HEIGHT - init_h
            &&& final(data).header_tex_y == header_y
            &&& final(data).footer_tex_y == footer_y
            &&& final(data).bg_sample_y == bg_y
            &&& final(data).viewport_w == old(data).viewport_w
            &&& final(data).viewport_h == old(data).viewport_h
            &&& final(data).header_h == old(data).header_h
            &&& final(data).footer_h == old(data).footer_h
            &&& final(data).border_l == old(data).border_l
            &&& final(data).border_r == old(data).border_r
            &&& final(data).header_blend_start == old(data).header_blend_start
            &&& final(data).header_blend_end == old(data).header_blend_end
            &&& final(data).scroll_split_point == old(data).scroll_split_point
            &&& final(data).col_divs == old(data).col_divs
            &&& final(data).palette == old(data).palette
            &&& final(data).section_pad == old(data).section_pad
            &&& final(data).scroll_height == old(data).scroll_height
            &&& final(data).scroll_tex_y == old(data).scroll_tex_y
            &&& final(data).bg_sample_h == old(data).bg_sample_h
            &&& final(data).vdata == old(data).vdata
            &&& coords.left_border == (Rect {
                x: 0,
                y: SECTION_PAD,
                width: LEFT_BORDER,
                height: (VARIABLE_BOTTOM - VARIABLE_TOP) as u32,
            })
            &&& coords.right_border == (Rect {
                x: 0,
                y: (LEFT_BORDER + 3 * SECTION_PAD) as u32,
                width: RIGHT_BORDER,
                height: (VARIABLE_BOTTOM - VARIABLE_TOP) as u32,
            })
            &&& coords.day_header_tex == (Rect {
                x: final(data).day_header_tex_x,
                y: 0,
                width: (2 * DAY_HEADER_CORNER_SIZE) as u32,
                height: dhh as u32,
            })
            &&& coords.day_header_true_size == (dhw as u32, dhh as u32)
            &&& coords.header == (Rect {
                x: 0,
                y: header_y as u32,
                width: tw as u32,
                height: VARIABLE_TOP,
            })
            &&& coords.footer == (Rect {
                x: 0,
                y: footer_y as u32,
                width: tw as u32,
                height: (th - VARIABLE_BOTTOM) as u32,
            })
        }),
{
    let ghost info_text_v = info_text;
    let tw = setup.template.width();
    let th = setup.template.height();
    let dhw = setup.day_header_template.width();
    let dhh = setup.day_header_template.height();
    let ih = info_metrics.height;
    let iw = info_metrics.width;

    if dhw < DAY_HEADER_CORNER_SIZE {
        return Err(
            UpdaterError::GeometryOverflow { field: "day header width", value: dhw as u64 },
        );
    }
    if th < VARIABLE_BOTTOM {
        return Err(
            UpdaterError::GeometryOverflow { field: "template height", value: th as u64 },
        );
    }
    if dhh > VIEWPORT_HEIGHT - SECTION_PAD {
        return Err(
            UpdaterError::GeometryOverflow { field: "day header height", value: dhh as u64 },
        );
    }
    if dhw > MAX_DIM - LEFT_BORDER {
        return Err(
            UpdaterError::GeometryOverflow { field: "day header width", value: dhw as u64 },
        );
    }
    if iw > MAX_DIM || ih > MAX_DIM {
        return Err(
            UpdaterError::GeometryOverflow { field: "info line", value: iw as u64 },
        );
    }
    let footer_inner: u32 = if th - VARIABLE_BOTTOM > ih {
        th - VARIABLE_BOTTOM
    } else {
        ih
    };
    let init_h_v: u32 = if LEFT_BORDER + RIGHT_BORDER + 4 * SECTION_PAD > dhh + SECTION_PAD {
        LEFT_BORDER + RIGHT_BORDER + 4 * SECTION_PAD
    } else {
        dhh + SECTION_PAD
    };
    let total_h: u64 = (init_h_v as u64) + ((DAY_HEADER_CORNER_SIZE + VARIABLE_TOP + 2
        * SECTION_PAD) as u64) + ((footer_inner as u64) + (2 * SECTION_PAD) as u64) + ((
    BG_SAMPLE_HEIGHT + 2 * SECTION_PAD) as u64);
    if total_h > MAX_DIM as u64 {
        return Err(
            UpdaterError::GeometryOverflow { field: "template column", value: total_h },
        );
    }

    // Border strips.
    let mut side_layout = RenderColumn::new();
    let ghost mut col0v = arbitrary::<RcRenderable>();
    let ghost mut col1v = arbitrary::<RcRenderable>();
    let (column0, w0, h0) = match template_column(setup, 0) {
        Ok(v) => v,
        Err(e) => {
            proof {
                assert(false);
            }
            return Err(e);
        },
    };
    proof {
        col0v = column0;
    }
    match side_layout.push(column0) {
        Ok(_) => (),
        Err(e) => {
            proof {
                assert(false);
            }
            return Err(e);
        },
    }
    let left_border = Rect { x: 0, y: SECTION_PAD, width: w0, height: h0 };
    let (column1, w1, h1) = match template_column(setup, 1) {
        Ok(v) => v,
        Err(e) => {
            proof {
                assert(false);
            }
            return Err(e);
        },
    };
    let right_border = Rect {
        x: 0,
        y: side_layout.height() + SECTION_PAD,
        width: w1,
        height: h1,
    };
    proof {
        col1v = column1;
    }
    match side_layout.push(column1) {
        Ok(_) => (),
        Err(e) => {
            proof {
                assert(false);
            }
            return Err(e);
        },
    }
    let side_width = side_layout.width();
    proof {
        assert(side_layout.items@ =~= seq![col0v, col1v]);
    }

    // Day-header corner crops, stretched over the middle at paint time.
    let mut day_header_group = RenderGroup::new();
    let mut cx: u32 = 0;
    let c0 = match setup.day_header_template.clip_to(
        Rect { x: 0, y: 0, width: DAY_HEADER_CORNER_SIZE, height: dhh },
    ) {
        Ok(v) => v,
        Err(e) => {
            proof {
                assert(false);
            }
            return Err(e);
        },
    };
    let c0p = match c0.offset(0, 0) {
        Ok(v) => v,
        Err(e) => {
            proof {
                assert(false);
            }
            return Err(e);
        },
    };
    let ghost c0pv = c0p;
    day_header_group.push(c0p);
    let c1 = match setup.day_header_template.clip_to(
        Rect {
            x: dhw - DAY_HEADER_CORNER_SIZE,
            y: 0,
            width: DAY_HEADER_CORNER_SIZE,
            height: dhh,
        },
    ) {
        Ok(v) => v,
        Err(e) => {
            proof {
                assert(false);
            }
            return Err(e);
        },
    };
    let c1p = match c1.offset(DAY_HEADER_CORNER_SIZE, 0) {
        Ok(v) => v,
        Err(e) => {
            proof {
                assert(false);
            }
            return Err(e);
        },
    };
    let ghost c1pv = c1p;
    day_header_group.push(c1p);
    let ghost dhg_items = day_header_group.items@;
    let dh_node = day_header_group.into_node();
    proof {
        crate::render::lemma_fold_step(dhg_items);
        crate::render::lemma_fold_step(dhg_items.drop_last());
        assert(dhg_items.drop_last().drop_last() =~= Seq::<RcRenderable>::empty());
    }
    let dh_sided = match pad_sides(&dh_node, SECTION_PAD, SECTION_PAD) {
        Ok(v) => v,
        Err(e) => {
            proof {
                assert(false);
            }
            return Err(e);
        },
    };
    let day_header = match pad_vertical(&dh_sided, 0, SECTION_PAD) {
        Ok(v) => v,
        Err(e) => {
            proof {
                assert(false);
            }
            return Err(e);
        },
    };
    proof {
        assert(dhg_items =~= seq![c0pv, c1pv]);
        assert(is_pad_vertical_of(day_header, dh_sided, 0, SECTION_PAD));
        assert(is_pad_sides_of(dh_sided, dh_node, SECTION_PAD, SECTION_PAD));
        assert(is_day_header_block(day_header, setup.day_header_template));
    }

    // The alpha-mask version: solid white with the header punched in.
    let dh_w = day_header.width();
    let dh_h = day_header.height();
    let mut day_header_alpha = RenderGroup::new();
    let white = match fill_rect(rgb(0xFFFFFF), dh_w, dh_h) {
        Ok(v) => v.into_rc(),
        Err(e) => {
            proof {
                assert(false);
            }
            return Err(e);
        },
    };
    let ghost whitev = white;
    day_header_alpha.push(white);
    let masked = day_header.with_operator(PaintOp::DestIn);
    let ghost maskedv = masked;
    day_header_alpha.push(masked);
    let ghost dha_items = day_header_alpha.items@;
    let alpha_node = day_header_alpha.into_node();
    proof {
        crate::render::lemma_fold_step(dha_items);
        crate::render::lemma_fold_step(dha_items.drop_last());
        assert(dha_items.drop_last().drop_last() =~= Seq::<RcRenderable>::empty());
    }

    let day_header_tex = Rect {
        x: SECTION_PAD + side_width,
        y: 0,
        width: 2 * DAY_HEADER_CORNER_SIZE,
        height: dhh,
    };

    // First atlas segment: borders, day header, alpha mask, side by side.
    let mut init_seg = RenderGroup::new();
    let side_node = side_layout.into_node();
    let ghost sidenv = side_node;
    init_seg.push(side_node);
    let dh_placed = match day_header.offset(side_width, 0) {
        Ok(v) => v,
        Err(e) => {
            proof {
                assert(false);
            }
            return Err(e);
        },
    };
    let ghost dhpv = dh_placed;
    init_seg.push(dh_placed);
    let alpha_placed = match alpha_node.offset(side_width + dh_w, 0) {
        Ok(v) => v,
        Err(e) => {
            proof {
                assert(false);
            }
            return Err(e);
        },
    };
    let ghost alpv = alpha_placed;
    init_seg.push(alpha_placed);

    data.day_header_side_width = DAY_HEADER_CORNER_SIZE;
    data.day_header_tex_x = side_width + SECTION_PAD;
    data.day_header_tex_alpha_x = data.day_header_tex_x + data.day_header_side_width * 2
        + SECTION_PAD * 2;
    data.day_header_tex_y = 0;
    data.day_header_true_width = dhw;
    data.day_header_height = dhh;

    let ghost init_items = init_seg.items@;
    let init_node = init_seg.into_node();
    proof {
        crate::render::lemma_fold_step(init_items);
        crate::render::lemma_fold_step(init_items.drop_last());
        crate::render::lemma_fold_step(init_items.drop_last().drop_last());
        assert(init_items.drop_last().drop_last().drop_last() =~= Seq::<RcRenderable>::empty());
    }
    let init_w = init_node.width();
    let init_h = init_node.height();
    proof {
        assert(init_items =~= seq![sidenv, dhpv, alpv]);
        assert(dha_items =~= seq![whitev, maskedv]);
        assert(((0xFFFFFFu32 >> 16) as u8) == 0xFFu8 && ((0xFFFFFFu32 >> 8) as u8) == 0xFFu8 && (
        0xFFFFFFu32 as u8) == 0xFFu8) by (bit_vector);
        assert(is_init_segment(init_node, setup.template, setup.day_header_template));
    }

    data.datastream_width = VIEWPORT_WIDTH - init_w;
    data.datastream_height = VIEWPORT_HEIGHT - init_h;

    let mut column = RenderColumn::new();
    let ghost b0 = init_node;
    match column.push(init_node) {
        Ok(_) => (),
        Err(e) => {
            proof {
                assert(false);
            }
            return Err(e);
        },
    }

    // The non-scrolled header band.
    let mut header_renderer = RenderGroup::new();
    let hc = match setup.template.clip_to(
        Rect { x: 0, y: 0, width: tw, height: DAY_HEADER_CORNER_SIZE + VARIABLE_TOP },
    ) {
        Ok(v) => v,
        Err(e) => {
            proof {
                assert(false);
            }
            return Err(e);
        },
    };
    let ghost hcv = hc;
    header_renderer.push(hc);
    let hdh = match setup.day_header_template.clip_to(
        Rect { x: 0, y: 0, width: dhw, height: DAY_HEADER_CORNER_SIZE },
    ) {
        Ok(v) => v,
        Err(e) => {
            proof {
                assert(false);
            }
            return Err(e);
        },
    };
    let hdh_placed = match hdh.offset(LEFT_BORDER, VARIABLE_TOP) {
        Ok(v) => v,
        Err(e) => {
            proof {
                assert(false);
            }
            return Err(e);
        },
    };
    let ghost hdhv = hdh_placed;
    header_renderer.push(hdh_placed);
    let ghost hr_items = header_renderer.items@;
    let header_node = header_renderer.into_node();
    proof {
        crate::render::lemma_fold_step(hr_items);
        crate::render::lemma_fold_step(hr_items.drop_last());
        assert(hr_items.drop_last().drop_last() =~= Seq::<RcRenderable>::empty());
    }
    let header_block = match pad_vertical(&header_node, SECTION_PAD, SECTION_PAD) {
        Ok(v) => v,
        Err(e) => {
            proof {
                assert(false);
            }
            return Err(e);
        },
    };
    proof {
        assert(hr_items =~= seq![hcv, hdhv]);
        assert(is_pad_vertical_of(header_block, header_node, SECTION_PAD, SECTION_PAD));
        assert(is_header_band(header_block, setup.template, setup.day_header_template));
    }
    let ghost b1 = header_block;
    let header_y = column.height();
    match column.push(header_block) {
        Ok(_) => (),
        Err(e) => {
            proof {
                assert(false);
            }
            return Err(e);
        },
    }
    let header = Rect {
        x: 0,
        y: header_y + SECTION_PAD,
        width: tw,
        height: VARIABLE_TOP,
    };
    data.header_tex_y = header.y;

    // The footer band with the info line laid over it.
    let footer_height = th - VARIABLE_BOTTOM;
    let mut footer_tex = RenderGroup::new();
    let fc = match setup.template.clip_to(
        Rect { x: 0, y: VARIABLE_BOTTOM, width: tw, height: footer_height },
    ) {
        Ok(v) => v,
        Err(e) => {
            proof {
                assert(false);
            }
            return Err(e);
        },
    };
    let ghost fcv = fc;
    footer_tex.push(fc);
    let info_box = match text_box(
        info_text,
        rgb(RGB_TEXT),
        FontKind::ConfigInfo,
        tw,
        1,
        info_metrics,
    ) {
        Ok(v) => v.into_rc(),
        Err(e) => {
            proof {
                assert(false);
            }
            return Err(e);
        },
    };
    let info_dy: u32 = if footer_height > ih {
        footer_height - ih
    } else {
        0
    };
    let info_placed = match info_box.offset(0, info_dy) {
        Ok(v) => v,
        Err(e) => {
            proof {
                assert(false);
            }
            return Err(e);
        },
    };
    let ghost ipv = info_placed;
    footer_tex.push(info_placed);
    let ghost ft_items = footer_tex.items@;
    let footer_node = footer_tex.into_node();
    proof {
        crate::render::lemma_fold_step(ft_items);
        crate::render::lemma_fold_step(ft_items.drop_last());
        assert(ft_items.drop_last().drop_last() =~= Seq::<RcRenderable>::empty());
    }
    let footer_block = match pad_vertical(&footer_node, SECTION_PAD, SECTION_PAD) {
        Ok(v) => v,
        Err(e) => {
            proof {
                assert(false);
            }
            return Err(e);
        },
    };
    proof {
        assert(ft_items =~= seq![fcv, ipv]);
        assert(is_pad_vertical_of(footer_block, footer_node, SECTION_PAD, SECTION_PAD));
        assert(is_footer_band(footer_block, setup.template, info_text_v@, info_metrics));
    }
    let ghost b2 = footer_block;
    let footer_y = column.height();
    match column.push(footer_block) {
        Ok(_) => (),
        Err(e) => {
            proof {
                assert(false);
            }
            return Err(e);
        },
    }
    let footer = Rect {
        x: 0,
        y: footer_y + SECTION_PAD,
        width: tw,
        height: footer_height,
    };
    data.footer_tex_y = footer.y;

    // The background color sample strip.
    data.bg_sample_y = column.height() + SECTION_PAD;
    let bg = match setup.template.clip_to(
        Rect { x: 0, y: VARIABLE_TEMPLATE_TOP, width: tw, height: BG_SAMPLE_HEIGHT },
    ) {
        Ok(v) => v,
        Err(e) => {
            proof {
                assert(false);
            }
            return Err(e);
        },
    };
    let bg_block = match pad_vertical(&bg, SECTION_PAD, SECTION_PAD) {
        Ok(v) => v,
        Err(e) => {
            proof {
                assert(false);
            }
            return Err(e);
        },
    };
    proof {
        assert(is_pad_vertical_of(bg_block, bg, SECTION_PAD, SECTION_PAD));
        assert(is_bg_band(bg_block, setup.template));
    }
    let ghost b3 = bg_block;
    match column.push(bg_block) {
        Ok(_) => (),
        Err(e) => {
            proof {
                assert(false);
            }
            return Err(e);
        },
    }
    proof {
        assert(column.items@ =~= seq![b0, b1, b2, b3]);
    }
    let atlas = column.into_node();
    proof {
        assert(is_template_atlas(
            atlas,
            setup.template,
            setup.day_header_template,
            info_text_v@,
            info_metrics,
        ));
    }

    Ok(
        (
            atlas,
            TemplateElementCoordinates {
                left_border,
                right_border,
                day_header_tex,
                day_header_true_size: (dhw, dhh),
                header,
                footer,
            },
        ),
    )
}


/// The scrollable event list as a subtree plus the alpha-texture height
/// it needs: the natural layout height rounded up to a multiple of
/// three, capped at three times the scroll budget.
pub fn compute_layout(
    days: &Vec<CalendarDay>,
    now: &Timestamp,
    title_wrap: u32,
    metrics: &Vec<crate::render::TextMetrics>,
    vdata: &mut Vec<VerticalData>,
    max_height: u32,
) -> (r: Result<(RcRenderable, u32), UpdaterError>)
    requires
        spec_days_valid(days@),
        spec_days_req_count(days@) <= metrics@.len(),
        max_height <= MAX_DIM,
        old(vdata)@.len() <= 3 * max_height,
    ensures
        final(vdata)@.len() >= old(vdata)@.len(),
        final(vdata)@.take(old(vdata)@.len() as int) == old(vdata)@,
        r.is_ok() <==> (spec_days_shapes_opt(days@, *now, metrics@).is_some()
            && shapes_sum_height(spec_days_shapes_opt(days@, *now, metrics@).unwrap()) <= MAX_DIM),
        r.is_ok() ==> ({
            let shapes = spec_days_shapes_opt(days@, *now, metrics@).unwrap();
            let h = shapes_sum_height(shapes);
            let rounded = h + ((3 - (h % 3)) % 3);
            let (tree, tex) = r.unwrap();
            &&& (*tree.0).wf()
            &&& (*tree.0).height == h
            &&& (*tree.0).width == crate::layout::shapes_max_width(shapes)
            &&& tex == (if rounded <= 3 * max_height {
                rounded
            } else {
                3 * max_height as int
            })
            &&& spec_vd_views(final(vdata)@.skip(old(vdata)@.len() as int)) == spec_walk(
                shapes,
                3 * max_height as int,
                old(vdata)@.len() as int,
                0,
            )
        }),
{
    let limit: usize = (3 * max_height) as usize;
    let tree = match generate_variable_layout(days, now, title_wrap, metrics, vdata, limit) {
        Ok(v) => v,
        Err(e) => {
            return Err(e);
        },
    };
    let h = tree.height();
    let rem = h % 3;
    let rounded: u32 = h + ((3 - rem) % 3);
    let cap = 3 * max_height;
    let tex_height: u32 = if rounded <= cap {
        rounded
    } else {
        cap
    };
    Ok((tree, tex_height))
}

/// The outcome of the full composition: the final composite tree, the
/// event subtree still to be rasterized into the alpha texture, the
/// rounded alpha-texture height, and the completed datastream record.
pub struct FullLayout {
    pub layout: RcRenderable,
    pub event_tree: RcRenderable,
    pub tex_height: u32,
    pub data: DatastreamElements,
}

/// Composes the whole output: the template atlas column on top, then the
/// channel-packed event texture cropped to the variable region, while
/// the datastream record collects every offset each stage discovered.
#[verifier::rlimit(100)]
pub fn compute_full_layout(
    setup: &SetupInfo,
    days: &Vec<CalendarDay>,
    now: &Timestamp,
    metrics: &Vec<crate::render::TextMetrics>,
    info_text: String,
    info_metrics: TextMetrics,
) -> (r: Result<FullLayout, UpdaterError>)
    requires
        setup.template.wf(),
        setup.day_header_template.wf(),
        spec_days_valid(days@),
        spec_days_req_count(days@) <= metrics@.len(),
    ensures
        r.is_ok() <==> ({
            let tw = setup.template.spec_width();
            let th = setup.template.spec_height();
            let dhw = setup.day_header_template.spec_width();
            let dhh = setup.day_header_template.spec_height();
            let total = spec_template_total_h(th, dhh, info_metrics.height as int);
            &&& spec_template_ok(tw, th, dhw, dhh, info_metrics)
            &&& total + SECTION_PAD <= TEXTURE_HEIGHT
            &&& spec_days_shapes_opt(days@, *now, metrics@).is_some()
            &&& shapes_sum_height(spec_days_shapes_opt(days@, *now, metrics@).unwrap()) <= MAX_DIM
        }),
        r.is_ok() ==> ({
            let th = setup.template.spec_height();
            let dhh = setup.day_header_template.spec_height();
            let total = spec_template_total_h(th, dhh, info_metrics.height as int);
            let max_h = TEXTURE_HEIGHT - total - SECTION_PAD;
            let shapes = spec_days_shapes_opt(days@, *now, metrics@).unwrap();
            let h = shapes_sum_height(shapes);
            let rounded = h + ((3 - (h % 3)) % 3);
            let tex = if rounded <= 3 * max_h {
                rounded
            } else {
                3 * max_h
            };
            let fl = r.unwrap();
            &&& (*fl.layout.0).wf()
            &&& (*fl.layout.0).height == total + SECTION_PAD + tex / 3
            &&& (*fl.event_tree.0).wf()
            &&& (*fl.event_tree.0).height == h
            &&& fl.tex_height == tex
            &&& fl.data.scroll_height == tex / 3
            &&& fl.data.scroll_tex_y == total + SECTION_PAD
            &&& fl.data.viewport_w == VIEWPORT_WIDTH
            &&& fl.data.viewport_h == VIEWPORT_HEIGHT
            &&& fl.data.header_h == VARIABLE_TOP
            &&& fl.data.footer_h == VIEWPORT_HEIGHT - VARIABLE_BOTTOM
            &&& fl.data.border_l == LEFT_BORDER
            &&& fl.data.border_r == RIGHT_BORDER
            &&& fl.data.day_header_height == dhh
            &&& fl.data.day_header_true_width == setup.day_header_template.spec_width()
            &&& fl.data.day_header_side_width == DAY_HEADER_CORNER_SIZE
            &&& fl.data.day_header_tex_x == (VARIABLE_BOTTOM - VARIABLE_TOP) + 2 * SECTION_PAD
            &&& fl.data.day_header_tex_alpha_x == fl.data.day_header_tex_x + 2
                * DAY_HEADER_CORNER_SIZE + 2 * SECTION_PAD
            &&& fl.data.day_header_tex_y == 0
            &&& fl.data.datastream_width == VIEWPORT_WIDTH - ((VARIABLE_BOTTOM - VARIABLE_TOP
                + SECTION_PAD) + 2 * (2 * DAY_HEADER_CORNER_SIZE + 2 * SECTION_PAD))
            &&& fl.data.datastream_height == VIEWPORT_HEIGHT - spec_init_h(dhh)
            &&& fl.data.header_tex_y == spec_init_h(dhh) + SECTION_PAD
            &&& fl.data.footer_tex_y == spec_init_h(dhh) + DAY_HEADER_CORNER_SIZE + VARIABLE_TOP
                + 2 * SECTION_PAD + SECTION_PAD
            &&& fl.data.bg_sample_y == spec_init_h(dhh) + DAY_HEADER_CORNER_SIZE + VARIABLE_TOP + 2
                * SECTION_PAD + spec_footer_inner_h(th, info_metrics.height as int) + 2
                * SECTION_PAD + SECTION_PAD
            &&& fl.data.bg_sample_h == BG_SAMPLE_HEIGHT
            &&& spec_vd_views(fl.data.vdata@) == spec_walk(shapes, 3 * max_h, 0, 0)
            &&& match (*fl.layout.0).kind {
                NodeKind::Column { children } => {
                    &&& children@.len() == 2
                    &&& is_template_atlas(
                        children@[0],
                        setup.template,
                        setup.day_header_template,
                        info_text@,
                        info_metrics,
                    )
                    &&& is_event_band(children@[1], (tex / 3) as u32)
                },
                _ => false,
            }
        }),
{
    let ghost info_text_v = info_text;
    let mut data = config_datastream_info();
    let (header_col, _coords) = match layout_template(setup, info_text, info_metrics, &mut data) {
        Ok(v) => v,
        Err(e) => {
            return Err(e);
        },
    };

    let mut layout = RenderColumn::new();
    let ghost hv = header_col;
    match layout.push(header_col) {
        Ok(_) => (),
        Err(e) => {
            proof {
                assert(false);
            }
            return Err(e);
        },
    }
    let base_offset = layout.height();
    if base_offset + SECTION_PAD > TEXTURE_HEIGHT {
        return Err(
            UpdaterError::GeometryOverflow {
                field: "scroll region offset",
                value: (base_offset as u64) + (SECTION_PAD as u64),
            },
        );
    }
    let max_h = TEXTURE_HEIGHT - base_offset - SECTION_PAD;
    let title_wrap = setup.day_header_template.width();
    let (event_tree, tex_height) = match compute_layout(
        days,
        now,
        title_wrap,
        metrics,
        &mut data.vdata,
        max_h,
    ) {
        Ok(v) => v,
        Err(e) => {
            return Err(e);
        },
    };

    let ev_h = tex_height / 3;
    let event_surface = match surface(SURFACE_EVENTS, VIEWPORT_WIDTH, ev_h) {
        Ok(v) => v.into_rc(),
        Err(e) => {
            proof {
                assert(false);
            }
            return Err(e);
        },
    };
    data.scroll_height = ev_h;
    data.scroll_tex_y = base_offset + SECTION_PAD;

    let clipped = match event_surface.clip_to(
        Rect {
            x: LEFT_BORDER,
            y: 0,
            width: VIEWPORT_WIDTH - (LEFT_BORDER + RIGHT_BORDER),
            height: ev_h,
        },
    ) {
        Ok(v) => v,
        Err(e) => {
            proof {
                assert(false);
            }
            return Err(e);
        },
    };
    let padded = match pad_vertical(&clipped, SECTION_PAD, 0) {
        Ok(v) => v,
        Err(e) => {
            proof {
                assert(false);
            }
            return Err(e);
        },
    };
    let sided = match pad_sides(&padded, 0, SECTION_PAD) {
        Ok(v) => v,
        Err(e) => {
            proof {
                assert(false);
            }
            return Err(e);
        },
    };
    proof {
        assert(is_pad_sides_of(sided, padded, 0, SECTION_PAD));
        assert(is_pad_vertical_of(padded, clipped, SECTION_PAD, 0));
        assert(is_event_band(sided, ev_h));
    }
    let ghost sv = sided;
    match layout.push(sided) {
        Ok(_) => (),
        Err(e) => {
            proof {
                assert(false);
            }
            return Err(e);
        },
    }
    proof {
        assert(layout.items@ =~= seq![hv, sv]);
    }
    let composite = layout.into_node();
    proof {
        assert(match (*composite.0).kind {
            NodeKind::Column { children } => children@.len() == 2,
            _ => false,
        });
    }
    Ok(FullLayout { layout: composite, event_tree, tex_height, data })
}

} // verus!
