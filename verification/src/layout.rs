use vstd::prelude::*;

use crate::calendar::{
    spec_date_valid, spec_day_title, spec_dedup, spec_event_eq, spec_event_valid, spec_format_end,
    spec_ts_lt, day_title_string, event_eq, format_end, format_start, timestamp_lt, CalendarDay,
    CalendarEvent, Timestamp,
};
use crate::color::{rgb, spec_rgb, RGBInt};
use crate::config::{
    DAY_HEADER_HEIGHT, EVENT_INFO_LEFT, EVENT_INFO_RIGHT, EVENT_MARKER_HEIGHT, EVENT_MARKER_WIDTH,
    HEADER_TEMPLATE_MARGIN, MAX_DIM, PAL_DATE, PAL_TEXT, PAL_TEXT_ENDED, PAL_TIME, PAL_TIME_DASH,
    PAL_TIME_ENDED, RGB_DATE, RGB_TEXT, RGB_TEXT_ENDED, RGB_TIME, RGB_TIME_DASH, RGB_TIME_ENDED,
    TIME_COL_LEFT, TIME_COL_RIGHT, VARIABLE_OUTER_LEFT, VARIABLE_OUTER_RIGHT,
};
use crate::datastream::{RowColorInfo, VerticalData};
use crate::error::UpdaterError;
use crate::render::{
    marker, max2, pad, separator, text_box, FontKind, NodeKind, RcRenderable, RenderColumn,
    RenderGroup, TextMetrics,
};

verus! {

/// One laid-out row-group: its subtree, the palette index for each of
/// the four output column positions, and whether it is a day header.
pub struct EventStackEntry {
    pub renderable: RcRenderable,
    pub colors: [u8; 4],
    pub is_day_header: bool,
}

/// The externally visible shape of a row-group: day-header flag, the
/// four palette indices, and the pixel bounds of its subtree.
pub open spec fn spec_entry_shape(e: EventStackEntry) -> (bool, Seq<u8>, int, int) {
    (e.is_day_header, e.colors@, e.renderable.spec_width(), e.renderable.spec_height())
}

/// Whether the event counts as over at the given instant.
pub open spec fn spec_is_ended(e: CalendarEvent, now: Timestamp) -> bool {
    match e.end_time {
        Some(t) => spec_ts_lt(t, now),
        None => false,
    }
}

/// The metrics used for the end-time label: the measured ones, or all
/// zero when there is no end label.
pub open spec fn spec_end_metrics(me: Option<TextMetrics>) -> TextMetrics {
    match me {
        Some(m) => m,
        None => TextMetrics { width: 0, height: 0, baseline: 0 },
    }
}

/// Where the end-time label goes: inline after the start label when it
/// fits before the time column's right edge (aligned to the start
/// label's baseline), otherwise on a second line, right-aligned.
pub open spec fn spec_end_pos(ms: TextMetrics, me: TextMetrics) -> (int, int) {
    let end_offset = TIME_COL_LEFT + 8 + ms.width;
    if end_offset + me.width < TIME_COL_RIGHT {
        (end_offset as int, max2(ms.baseline - me.baseline, 0))
    } else {
        (max2(TIME_COL_RIGHT - me.width, 0), ms.baseline as int)
    }
}

/// The width of an event row-group: the widest of the marker, the start
/// label, the end label and the description at their offsets.
pub open spec fn spec_event_entry_width(ms: TextMetrics, me: TextMetrics, md: TextMetrics) -> int {
    let ex = spec_end_pos(ms, me).0;
    max2(
        max2(EVENT_MARKER_WIDTH as int, TIME_COL_LEFT + 8 + ms.width),
        max2(ex + me.width, EVENT_INFO_LEFT + md.width),
    )
}

/// The height of an event row-group: the tallest of the marker (hung at
/// half the start label's height), the start label, the end label at
/// its vertical position, and the description.
pub open spec fn spec_event_entry_height(ms: TextMetrics, me: TextMetrics, md: TextMetrics) -> int {
    let ey = spec_end_pos(ms, me).1;
    max2(
        max2(ms.height as int / 2 + EVENT_MARKER_HEIGHT, ms.height as int),
        max2(ey + me.height, md.height as int),
    )
}

/// An event row-group can be laid out exactly when its own extents stay
/// representable.
pub open spec fn spec_event_entry_ok(ms: TextMetrics, me: TextMetrics, md: TextMetrics) -> bool {
    spec_event_entry_width(ms, me, md) <= MAX_DIM && spec_event_entry_height(ms, me, md) <= MAX_DIM
}

/// The palette indices of an event row-group.
pub open spec fn spec_event_colors(ended: bool) -> Seq<u8> {
    if ended {
        seq![PAL_TIME_ENDED, PAL_TEXT_ENDED, PAL_TEXT_ENDED, PAL_TEXT_ENDED]
    } else {
        seq![PAL_TIME, PAL_TEXT, PAL_TEXT, PAL_TEXT]
    }
}


/// `n` is a text leaf with the given content, color, font and wrapping,
/// translated to (dx, dy).
pub open spec fn is_text_at(
    n: RcRenderable,
    text: Seq<char>,
    color: RGBInt,
    font: FontKind,
    wrap: int,
    lines: int,
    dx: int,
    dy: int,
) -> bool {
    match (*n.0).kind {
        NodeKind::Translate { child, dx: tx, dy: ty } => {
            &&& tx == dx
            &&& ty == dy
            &&& match (*child.0).kind {
                NodeKind::Text { text: t, color: c, font: f, wrap_width, max_lines } => {
                    &&& t@ == text
                    &&& c == color
                    &&& f == font
                    &&& wrap_width == wrap
                    &&& max_lines == lines
                },
                _ => false,
            }
        },
        _ => false,
    }
}

/// `n` is the event marker, solid or dimmed as `ended` says, translated
/// to (dx, dy).
pub open spec fn is_marker_at(n: RcRenderable, ended: bool, dx: int, dy: int) -> bool {
    match (*n.0).kind {
        NodeKind::Translate { child, dx: tx, dy: ty } => {
            &&& tx == dx
            &&& ty == dy
            &&& match (*child.0).kind {
                NodeKind::Marker { is_ended } => is_ended == ended,
                _ => false,
            }
        },
        _ => false,
    }
}

/// `n` is a zero-size blank translated to (dx, dy): the stand-in where
/// an event has no end label.
pub open spec fn is_blank_at(n: RcRenderable, dx: int, dy: int) -> bool {
    match (*n.0).kind {
        NodeKind::Translate { child, dx: tx, dy: ty } => {
            &&& tx == dx
            &&& ty == dy
            &&& (*child.0).width == 0
            &&& (*child.0).height == 0
            &&& (*child.0).kind is Pad
        },
        _ => false,
    }
}

/// The composed subtree of one event row-group: the marker hung at half
/// the start label's height, the start label in the time column, the
/// end label at its inline or wrapped position, and the description in
/// the info column, overlaid in that order.
pub open spec fn spec_event_subtree(
    n: RcRenderable,
    e: CalendarEvent,
    now: Timestamp,
    ms: TextMetrics,
    me: TextMetrics,
    md: TextMetrics,
) -> bool {
    let ended = spec_is_ended(e, now);
    let time_color = spec_rgb(
        if ended {
            RGB_TIME_ENDED
        } else {
            RGB_TIME
        },
    );
    let text_color = spec_rgb(
        if ended {
            RGB_TEXT_ENDED
        } else {
            RGB_TEXT
        },
    );
    let time_wrap = (TIME_COL_RIGHT - TIME_COL_LEFT) as int;
    let ep = spec_end_pos(ms, me);
    match (*n.0).kind {
        NodeKind::Group { children } => {
            &&& children@.len() == 4
            &&& is_marker_at(children@[0], ended, 0, ms.height as int / 2)
            &&& is_text_at(
                children@[1],
                crate::calendar::spec_format_start(e),
                time_color,
                FontKind::Time,
                time_wrap,
                1,
                TIME_COL_LEFT + 8,
                0,
            )
            &&& match spec_format_end(e) {
                Some(t) => is_text_at(
                    children@[2],
                    t,
                    time_color,
                    FontKind::EndTime,
                    time_wrap,
                    1,
                    ep.0,
                    ep.1,
                ),
                None => is_blank_at(children@[2], ep.0, ep.1),
            }
            &&& is_text_at(
                children@[3],
                e.body@,
                text_color,
                FontKind::EventInfo,
                (EVENT_INFO_RIGHT - EVENT_INFO_LEFT) as int,
                2,
                EVENT_INFO_LEFT as int,
                0,
            )
        },
        _ => false,
    }
}

/// Lays out one event as a row-group: marker, start label, optional end
/// label (inline or wrapped), and description, with colors dimmed when
/// the event has already ended.
pub fn layout_single_event(
    event: &CalendarEvent,
    now: &Timestamp,
    m_start: TextMetrics,
    m_end: Option<TextMetrics>,
    m_desc: TextMetrics,
) -> (r: Result<EventStackEntry, UpdaterError>)
    requires
        spec_event_valid(*event),
        m_end.is_some() == spec_format_end(*event).is_some(),
    ensures
        r.is_ok() <==> spec_event_entry_ok(m_start, spec_end_metrics(m_end), m_desc),
        r.is_ok() ==> ({
            let en = r.unwrap();
            let me = spec_end_metrics(m_end);
            &&& en.renderable.wf()
            &&& spec_entry_shape(en) == (
                false,
                spec_event_colors(spec_is_ended(*event, *now)),
                spec_event_entry_width(m_start, me, m_desc),
                spec_event_entry_height(m_start, me, m_desc),
            )
            &&& spec_event_subtree(en.renderable, *event, *now, m_start, me, m_desc)
        }),
{
    let start_time_text = format_start(event);
    let end_time_text = format_end(event);

    let is_ended = match &event.end_time {
        Some(et) => timestamp_lt(et, now),
        None => false,
    };

    let color_text = rgb(if is_ended {
        RGB_TEXT_ENDED
    } else {
        RGB_TEXT
    });
    let color_time = rgb(if is_ended {
        RGB_TIME_ENDED
    } else {
        RGB_TIME
    });

    let time_wrap = TIME_COL_RIGHT - TIME_COL_LEFT;
    let start_box = match text_box(
        start_time_text,
        color_time,
        FontKind::Time,
        time_wrap,
        1,
        m_start,
    ) {
        Ok(v) => v.into_rc(),
        Err(e) => {
            return Err(e);
        },
    };

    let mut end_baseline: u32 = 0;
    let mut end_width: u32 = 0;
    let end_node: RcRenderable = match end_time_text {
        Some(t) => {
            let m = match m_end {
                Some(m) => m,
                None => {
                    proof {
                        assert(false);
                    }
                    TextMetrics { width: 0, height: 0, baseline: 0 }
                },
            };
            end_baseline = m.baseline;
            end_width = m.width;
            match text_box(t, color_time, FontKind::EndTime, time_wrap, 1, m) {
                Ok(v) => v.into_rc(),
                Err(e) => {
                    return Err(e);
                },
            }
        },
        None => {
            match pad(0, 0) {
                Ok(v) => v.into_rc(),
                Err(e) => {
                    proof {
                        assert(false);
                    }
                    return Err(e);
                },
            }
        },
    };

    let start_offset = TIME_COL_LEFT + 8;
    if start_offset + m_start.width > MAX_DIM {
        return Err(
            UpdaterError::GeometryOverflow {
                field: "start label extent",
                value: (start_offset as u64) + (m_start.width as u64),
            },
        );
    }
    let end_offset = start_offset + m_start.width;

    let end_placed: RcRenderable = if end_offset + end_width < TIME_COL_RIGHT {
        let dy: u32 = if m_start.baseline > end_baseline {
            m_start.baseline - end_baseline
        } else {
            0
        };
        match end_node.offset(end_offset, dy) {
            Ok(v) => v,
            Err(e) => {
                return Err(e);
            },
        }
    } else {
        let dx: u32 = if TIME_COL_RIGHT > end_width {
            TIME_COL_RIGHT - end_width
        } else {
            0
        };
        match end_node.offset(dx, m_start.baseline) {
            Ok(v) => v,
            Err(e) => {
                return Err(e);
            },
        }
    };

    let start_placed = match start_box.offset(start_offset, 0) {
        Ok(v) => v,
        Err(e) => {
            return Err(e);
        },
    };

    let desc_box = match text_box(
        event.body.clone(),
        color_text,
        FontKind::EventInfo,
        EVENT_INFO_RIGHT - EVENT_INFO_LEFT,
        2,
        m_desc,
    ) {
        Ok(v) => v.into_rc(),
        Err(e) => {
            return Err(e);
        },
    };
    let desc_placed = match desc_box.offset(EVENT_INFO_LEFT, 0) {
        Ok(v) => v,
        Err(e) => {
            return Err(e);
        },
    };

    let marker_node = marker(is_ended).into_rc();
    let marker_placed = match marker_node.offset(0, m_start.height / 2) {
        Ok(v) => v,
        Err(e) => {
            return Err(e);
        },
    };

    let ghost mv = marker_placed;
    let ghost sv = start_placed;
    let ghost ev2 = end_placed;
    let ghost dv = desc_placed;
    let mut render_group = RenderGroup::new();
    render_group.push(marker_placed);
    render_group.push(start_placed);
    render_group.push(end_placed);
    render_group.push(desc_placed);
    let ghost items = render_group.items@;
    let node = render_group.into_node();
    proof {
        lemma_shape4(items);
        assert(items =~= seq![mv, sv, ev2, dv]);
        let me_eff = spec_end_metrics(m_end);
        assert(me_eff.width == end_width && me_eff.baseline == end_baseline);
        let ep = spec_end_pos(m_start, me_eff);
        assert(is_marker_at(mv, spec_is_ended(*event, *now), 0, m_start.height as int / 2));
        assert(is_text_at(
            sv,
            crate::calendar::spec_format_start(*event),
            spec_rgb(
                if spec_is_ended(*event, *now) {
                    RGB_TIME_ENDED
                } else {
                    RGB_TIME
                },
            ),
            FontKind::Time,
            (TIME_COL_RIGHT - TIME_COL_LEFT) as int,
            1,
            TIME_COL_LEFT + 8,
            0,
        ));
        match spec_format_end(*event) {
            Some(t) => {
                assert(is_text_at(
                    ev2,
                    t,
                    spec_rgb(
                        if spec_is_ended(*event, *now) {
                            RGB_TIME_ENDED
                        } else {
                            RGB_TIME
                        },
                    ),
                    FontKind::EndTime,
                    (TIME_COL_RIGHT - TIME_COL_LEFT) as int,
                    1,
                    ep.0,
                    ep.1,
                ));
            },
            None => {
                assert(is_blank_at(ev2, ep.0, ep.1));
            },
        }
        assert(is_text_at(
            dv,
            event.body@,
            spec_rgb(
                if spec_is_ended(*event, *now) {
                    RGB_TEXT_ENDED
                } else {
                    RGB_TEXT
                },
            ),
            FontKind::EventInfo,
            (EVENT_INFO_RIGHT - EVENT_INFO_LEFT) as int,
            2,
            EVENT_INFO_LEFT as int,
            0,
        ));
    }

    let colors: [u8; 4] = if is_ended {
        [PAL_TIME_ENDED, PAL_TEXT_ENDED, PAL_TEXT_ENDED, PAL_TEXT_ENDED]
    } else {
        [PAL_TIME, PAL_TEXT, PAL_TEXT, PAL_TEXT]
    };
    let entry = EventStackEntry { renderable: node, colors, is_day_header: false };
    proof {
        assert(entry.colors@ =~= spec_event_colors(spec_is_ended(*event, *now)));
    }
    Ok(entry)
}

/// The bounds fold over exactly four overlaid children.
proof fn lemma_shape4(s: Seq<RcRenderable>)
    requires
        s.len() == 4,
    ensures
        crate::render::max_width(s) == max2(
            max2((*s[0].0).width as int, (*s[1].0).width as int),
            max2((*s[2].0).width as int, (*s[3].0).width as int),
        ),
        crate::render::max_height(s) == max2(
            max2((*s[0].0).height as int, (*s[1].0).height as int),
            max2((*s[2].0).height as int, (*s[3].0).height as int),
        ),
{
    let s3 = s.drop_last();
    let s2 = s3.drop_last();
    let s1 = s2.drop_last();
    assert(s1.drop_last() =~= Seq::<RcRenderable>::empty());
    assert(s.last() == s[3]);
    assert(s3.last() == s[2]);
    assert(s2.last() == s[1]);
    assert(s1.last() == s[0]);
    crate::render::lemma_fold_step(s);
    crate::render::lemma_fold_step(s3);
    crate::render::lemma_fold_step(s2);
    crate::render::lemma_fold_step(s1);
}


/// A day and everything in it is within the library's date model.
pub open spec fn spec_day_valid(day: CalendarDay) -> bool {
    spec_date_valid(day.date) && forall|i: int|
        0 <= i < day.events@.len() ==> spec_event_valid(#[trigger] day.events@[i])
}

pub open spec fn spec_days_valid(days: Seq<CalendarDay>) -> bool {
    forall|i: int| 0 <= i < days.len() ==> spec_day_valid(#[trigger] days[i])
}

/// One piece of text to be measured by the font-shaping collaborator.
pub struct TextRequest {
    pub text: String,
    pub font: FontKind,
    pub wrap_width: u32,
    pub max_lines: u32,
}

pub open spec fn spec_req_view(t: TextRequest) -> (Seq<char>, FontKind, int, int) {
    (t.text@, t.font, t.wrap_width as int, t.max_lines as int)
}

pub open spec fn spec_req_views(s: Seq<TextRequest>) -> Seq<(Seq<char>, FontKind, int, int)> {
    s.map_values(|t: TextRequest| spec_req_view(t))
}

/// How many measurements one event consumes: start label, optional end
/// label, description.
pub open spec fn spec_event_req_count(e: CalendarEvent) -> int {
    if spec_format_end(e).is_some() {
        3
    } else {
        2
    }
}

pub open spec fn spec_events_req_count(s: Seq<CalendarEvent>) -> int
    decreases s.len(),
{
    if s.len() == 0 {
        0
    } else {
        spec_events_req_count(s.drop_last()) + spec_event_req_count(s.last())
    }
}

/// How many measurements one day consumes: its title, then either the
/// filler line or its deduplicated events.
pub open spec fn spec_day_req_count(day: CalendarDay) -> int {
    1 + if day.events@.len() == 0 {
        1
    } else {
        spec_events_req_count(spec_dedup(day.events@))
    }
}

pub open spec fn spec_days_req_count(days: Seq<CalendarDay>) -> int
    decreases days.len(),
{
    if days.len() == 0 {
        0
    } else {
        spec_days_req_count(days.drop_last()) + spec_day_req_count(days.last())
    }
}

pub open spec fn spec_event_reqs(e: CalendarEvent) -> Seq<(Seq<char>, FontKind, int, int)> {
    seq![
        (
            crate::calendar::spec_format_start(e),
            FontKind::Time,
            (TIME_COL_RIGHT - TIME_COL_LEFT) as int,
            1int,
        ),
    ] + (match spec_format_end(e) {
        Some(t) => seq![(t, FontKind::EndTime, (TIME_COL_RIGHT - TIME_COL_LEFT) as int, 1int)],
        None => Seq::empty(),
    }) + seq![(e.body@, FontKind::EventInfo, (EVENT_INFO_RIGHT - EVENT_INFO_LEFT) as int, 2int)]
}

pub open spec fn spec_events_reqs(s: Seq<CalendarEvent>) -> Seq<(Seq<char>, FontKind, int, int)>
    decreases s.len(),
{
    if s.len() == 0 {
        Seq::empty()
    } else {
        spec_events_reqs(s.drop_last()) + spec_event_reqs(s.last())
    }
}

pub open spec fn spec_filler_text() -> Seq<char> {
    "【イベント情報がありません】"@
}

/// The measurements one day asks for, in the order the layout consumes
/// them.
pub open spec fn spec_day_reqs(day: CalendarDay, title_wrap: int) -> Seq<
    (Seq<char>, FontKind, int, int),
> {
    seq![(spec_day_title(day.date), FontKind::DayHeader, title_wrap, 1int)] + if day.events@.len()
        == 0 {
        seq![
            (
                spec_filler_text(),
                FontKind::EventInfo,
                (VARIABLE_OUTER_RIGHT - VARIABLE_OUTER_LEFT) as int,
                2int,
            ),
        ]
    } else {
        spec_events_reqs(spec_dedup(day.events@))
    }
}

pub open spec fn spec_days_reqs(days: Seq<CalendarDay>, title_wrap: int) -> Seq<
    (Seq<char>, FontKind, int, int),
>
    decreases days.len(),
{
    if days.len() == 0 {
        Seq::empty()
    } else {
        spec_days_reqs(days.drop_last(), title_wrap) + spec_day_reqs(days.last(), title_wrap)
    }
}

/// The request list agrees with the request count.
pub proof fn lemma_events_reqs_len(s: Seq<CalendarEvent>)
    ensures
        spec_events_reqs(s).len() == spec_events_req_count(s),
        spec_events_req_count(s) >= 0,
    decreases s.len(),
{
    if s.len() > 0 {
        lemma_events_reqs_len(s.drop_last());
    }
}

/// The texts one day asks the font-shaping collaborator to measure.
#[verifier::rlimit(80)]
pub fn day_text_requests(day: &CalendarDay, title_wrap: u32) -> (r: Vec<TextRequest>)
    requires
        spec_day_valid(*day),
    ensures
        spec_req_views(r@) == spec_day_reqs(*day, title_wrap as int),
{
    let mut r: Vec<TextRequest> = Vec::new();
    r.push(
        TextRequest {
            text: day_title_string(&day.date),
            font: FontKind::DayHeader,
            wrap_width: title_wrap,
            max_lines: 1,
        },
    );
    if day.events.len() == 0 {
        r.push(
            TextRequest {
                text: "【イベント情報がありません】".to_owned(),
                font: FontKind::EventInfo,
                wrap_width: VARIABLE_OUTER_RIGHT - VARIABLE_OUTER_LEFT,
                max_lines: 2,
            },
        );
        proof {
            assert(spec_req_views(r@) =~~= spec_day_reqs(*day, title_wrap as int));
        }
        return r;
    }
    let ghost evs = day.events@;
    let mut j: usize = 0;
    while j < day.events.len()
        invariant
            spec_day_valid(*day),
            evs == day.events@,
            evs.len() > 0,
            0 <= j <= evs.len(),
            spec_req_views(r@) == seq![
                (spec_day_title(day.date), FontKind::DayHeader, title_wrap as int, 1int),
            ] + spec_events_reqs(spec_dedup(evs.take(j as int))),
        decreases evs.len() - j,
    {
        proof {
            assert(evs.take(j + 1).drop_last() =~= evs.take(j as int));
            assert(evs.take(j + 1).last() == evs[j as int]);
            if j > 0 {
                assert(evs.take(j + 1)[j - 1] == evs[j - 1]);
            }
        }
        let keep = if j == 0 {
            true
        } else {
            !event_eq(&day.events[j - 1], &day.events[j])
        };
        if keep {
            let e = &day.events[j];
            let ghost e_spec = evs[j as int];
            let ghost ded = spec_dedup(evs.take(j as int));
            let ghost old_map = spec_req_views(r@);
            let ghost title_tuple = (
                spec_day_title(day.date),
                FontKind::DayHeader,
                title_wrap as int,
                1int,
            );
            proof {
                assert(spec_dedup(evs.take(j + 1)) == ded.push(e_spec));
                assert(ded.push(e_spec).drop_last() =~= ded);
                assert(ded.push(e_spec).last() == e_spec);
                assert(spec_events_reqs(ded.push(e_spec)) == spec_events_reqs(ded)
                    + spec_event_reqs(e_spec));
                lemma_events_reqs_len(ded);
            }
            let req_a = TextRequest {
                text: format_start(e),
                font: FontKind::Time,
                wrap_width: TIME_COL_RIGHT - TIME_COL_LEFT,
                max_lines: 1,
            };
            let ghost va = spec_req_view(req_a);
            r.push(req_a);
            proof {
                assert(spec_req_views(r@) =~= old_map.push(va));
            }
            let end_text = format_end(e);
            let has_end = match end_text {
                Some(t) => {
                    let req_b = TextRequest {
                        text: t,
                        font: FontKind::EndTime,
                        wrap_width: TIME_COL_RIGHT - TIME_COL_LEFT,
                        max_lines: 1,
                    };
                    let ghost vb = spec_req_view(req_b);
                    r.push(req_b);
                    proof {
                        assert(spec_req_views(r@) =~= old_map.push(va).push(vb));
                    }
                    true
                },
                None => false,
            };
            let req_c = TextRequest {
                text: e.body.clone(),
                font: FontKind::EventInfo,
                wrap_width: EVENT_INFO_RIGHT - EVENT_INFO_LEFT,
                max_lines: 2,
            };
            let ghost vc = spec_req_view(req_c);
            let ghost mid_map = spec_req_views(r@);
            r.push(req_c);
            proof {
                assert(spec_req_views(r@) =~= mid_map.push(vc));
                let tw = (TIME_COL_RIGHT - TIME_COL_LEFT) as int;
                let dw = (EVENT_INFO_RIGHT - EVENT_INFO_LEFT) as int;
                if has_end {
                    assert(spec_event_reqs(e_spec).len() == 3);
                    assert(spec_event_reqs(e_spec)[0] == va);
                    assert(spec_event_reqs(e_spec)[1] == (
                        spec_format_end(e_spec).unwrap(),
                        FontKind::EndTime,
                        tw,
                        1int,
                    ));
                    assert(spec_event_reqs(e_spec)[2] == vc);
                } else {
                    assert(spec_event_reqs(e_spec).len() == 2);
                    assert(spec_event_reqs(e_spec)[0] == va);
                    assert(spec_event_reqs(e_spec)[1] == vc);
                }
                assert(spec_req_views(r@) =~= seq![title_tuple] + spec_events_reqs(
                    spec_dedup(evs.take(j + 1)),
                ));
            }
        } else {
            proof {
                assert(spec_event_eq(evs[j - 1], evs[j as int]));
                assert(spec_dedup(evs.take(j + 1)) == spec_dedup(evs.take(j as int)));
            }
        }
        j = j + 1;
    }
    proof {
        assert(evs.take(evs.len() as int) =~= evs);
    }
    r
}

/// Runtime form of the day-list validity the composer requires, for
/// callers outside the proved world.
pub fn days_valid(days: &Vec<CalendarDay>) -> (r: bool)
    ensures
        r == spec_days_valid(days@),
{
    let mut i: usize = 0;
    while i < days.len()
        invariant
            0 <= i <= days@.len(),
            forall|k: int| 0 <= k < i ==> spec_day_valid(#[trigger] days@[k]),
        decreases days@.len() - i,
    {
        let day = &days[i];
        if !crate::calendar::date_valid(&day.date) {
            proof {
                assert(!spec_day_valid(days@[i as int]));
            }
            return false;
        }
        let mut j: usize = 0;
        while j < day.events.len()
            invariant
                0 <= i < days@.len(),
                *day == days@[i as int],
                0 <= j <= day.events@.len(),
                spec_date_valid(day.date),
                forall|k: int| 0 <= k < j ==> spec_event_valid(#[trigger] day.events@[k]),
            decreases day.events@.len() - j,
        {
            if !crate::calendar::event_valid(&day.events[j]) {
                proof {
                    assert(!spec_day_valid(days@[i as int]));
                }
                return false;
            }
            j = j + 1;
        }
        i = i + 1;
    }
    true
}

/// The request list and the measurement count agree.
pub proof fn lemma_days_reqs_len(days: Seq<CalendarDay>, title_wrap: int)
    ensures
        spec_days_reqs(days, title_wrap).len() == spec_days_req_count(days),
    decreases days.len(),
{
    if days.len() > 0 {
        lemma_days_reqs_len(days.drop_last(), title_wrap);
        lemma_events_reqs_len(spec_dedup(days.last().events@));
    }
}

/// Every text the whole layout will ask to be measured, day by day.
pub fn text_requests(days: &Vec<CalendarDay>, title_wrap: u32) -> (r: Vec<TextRequest>)
    requires
        spec_days_valid(days@),
    ensures
        spec_req_views(r@) == spec_days_reqs(days@, title_wrap as int),
        r@.len() == spec_days_req_count(days@),
{
    proof {
        lemma_days_reqs_len(days@, title_wrap as int);
    }
    let mut r: Vec<TextRequest> = Vec::new();
    let mut i: usize = 0;
    while i < days.len()
        invariant
            spec_days_valid(days@),
            0 <= i <= days@.len(),
            spec_req_views(r@) == spec_days_reqs(days@.take(i as int), title_wrap as int),
        decreases days@.len() - i,
    {
        proof {
            assert(days@.take(i + 1).drop_last() =~= days@.take(i as int));
            assert(days@.take(i + 1).last() == days@[i as int]);
        }
        let mut day_reqs = day_text_requests(&days[i], title_wrap);
        let ghost before = r@;
        let ghost dr = day_reqs@;
        while day_reqs.len() > 0
            invariant
                day_reqs@.len() <= dr.len(),
                day_reqs@ == dr.skip(dr.len() - day_reqs@.len()),
                r@ == before + dr.take(dr.len() - day_reqs@.len()),
            decreases day_reqs@.len(),
        {
            let ghost done = dr.len() - day_reqs@.len();
            let item = day_reqs.remove(0);
            proof {
                assert(item == dr[done]);
                assert(day_reqs@ =~= dr.skip(done + 1));
                assert(dr.take(done + 1) =~= dr.take(done).push(dr[done]));
            }
            r.push(item);
        }
        proof {
            assert(dr.take(dr.len() as int) =~= dr);
            assert(r@ == before + dr);
            assert(spec_req_views(r@) =~~= spec_req_views(before) + spec_req_views(dr));
        }
        i = i + 1;
    }
    proof {
        assert(days@.take(days@.len() as int) =~= days@);
    }
    r
}


/// The shape of one row-group for contracts: day-header flag, colors,
/// width, height.
pub open spec fn spec_entry_shapes(s: Seq<EventStackEntry>) -> Seq<(bool, Seq<u8>, int, int)> {
    s.map_values(|e: EventStackEntry| spec_entry_shape(e))
}

/// The day-header row-group: the title centered horizontally in the
/// variable region and vertically in the day-header band, with matching
/// blank space below.
pub open spec fn spec_header_shape(title: TextMetrics) -> (bool, Seq<u8>, int, int) {
    let x_off = max2((VARIABLE_OUTER_RIGHT - VARIABLE_OUTER_LEFT - title.width) / 2, 0);
    let y_off = max2((DAY_HEADER_HEIGHT - title.height) / 2, 0);
    (
        true,
        seq![PAL_DATE, PAL_DATE, PAL_DATE, PAL_DATE],
        VARIABLE_OUTER_LEFT + x_off + title.width,
        title.height + 2 * y_off,
    )
}

/// The fixed blank row-group between sections.
pub open spec fn spec_margin_shape() -> (bool, Seq<u8>, int, int) {
    (false, seq![PAL_TEXT, PAL_TEXT, PAL_TEXT, PAL_TEXT], 0int, HEADER_TEMPLATE_MARGIN as int)
}

/// The "no events" filler line, centered in the variable region.
pub open spec fn spec_filler_shape(f: TextMetrics) -> (bool, Seq<u8>, int, int) {
    let fx = max2((VARIABLE_OUTER_RIGHT - VARIABLE_OUTER_LEFT - f.width) / 2, 0);
    (
        false,
        seq![PAL_TEXT, PAL_TEXT, PAL_TEXT, PAL_TEXT],
        VARIABLE_OUTER_LEFT + fx + f.width,
        f.height as int,
    )
}

/// The dashed separator between events whose start hours differ.
pub open spec fn spec_separator_shape() -> (bool, Seq<u8>, int, int) {
    (
        false,
        seq![PAL_TIME_DASH, PAL_TIME_DASH, PAL_TIME_DASH, PAL_TIME_DASH],
        TIME_COL_RIGHT as int,
        6int,
    )
}

pub open spec fn spec_event_shape(
    e: CalendarEvent,
    now: Timestamp,
    ms: TextMetrics,
    me: TextMetrics,
    md: TextMetrics,
) -> (bool, Seq<u8>, int, int) {
    (
        false,
        spec_event_colors(spec_is_ended(e, now)),
        spec_event_entry_width(ms, me, md),
        spec_event_entry_height(ms, me, md),
    )
}

/// The row-groups of a sequence of (already deduplicated) events, with a
/// separator before each event whose start hour differs from the
/// previous one; `None` when some extent is unrepresentable.  Metric
/// indices follow the request order.
pub open spec fn spec_event_shapes_opt(
    evs: Seq<CalendarEvent>,
    now: Timestamp,
    ms: Seq<TextMetrics>,
) -> Option<Seq<(bool, Seq<u8>, int, int)>>
    decreases evs.len(),
{
    if evs.len() == 0 {
        Some(Seq::empty())
    } else {
        match spec_event_shapes_opt(evs.drop_last(), now, ms) {
            None => None,
            Some(rest) => {
                let e = evs.last();
                let base = spec_events_req_count(evs.drop_last());
                let has_end = spec_format_end(e).is_some();
                let m_s = ms[base];
                let m_e = if has_end {
                    ms[base + 1]
                } else {
                    TextMetrics { width: 0, height: 0, baseline: 0 }
                };
                let m_d = if has_end {
                    ms[base + 2]
                } else {
                    ms[base + 1]
                };
                if !spec_event_entry_ok(m_s, m_e, m_d) {
                    None
                } else {
                    let sep = evs.len() >= 2 && evs[evs.len() - 2].start_time.hour
                        != e.start_time.hour;
                    Some(
                        rest + (if sep {
                            seq![spec_separator_shape()]
                        } else {
                            Seq::empty()
                        }) + seq![spec_event_shape(e, now, m_s, m_e, m_d)],
                    )
                }
            },
        }
    }
}

/// The row-groups one day contributes: header, margin, then either the
/// filler or its events with separators, then a closing margin; `None`
/// when some extent is unrepresentable.
pub open spec fn spec_day_shapes_opt(day: CalendarDay, now: Timestamp, ms: Seq<TextMetrics>) -> Option<
    Seq<(bool, Seq<u8>, int, int)>,
> {
    let hs = spec_header_shape(ms[0]);
    if hs.2 > MAX_DIM || hs.3 > MAX_DIM {
        None
    } else if day.events@.len() == 0 {
        let fs = spec_filler_shape(ms[1]);
        if fs.2 > MAX_DIM || fs.3 > MAX_DIM {
            None
        } else {
            Some(seq![hs, spec_margin_shape(), fs, spec_margin_shape()])
        }
    } else {
        match spec_event_shapes_opt(spec_dedup(day.events@), now, ms.skip(1)) {
            None => None,
            Some(es) => Some(seq![hs, spec_margin_shape()] + es + seq![spec_margin_shape()]),
        }
    }
}

/// Request counts only grow along a prefix of the event list.
pub proof fn lemma_dedup_count_mono(evs: Seq<CalendarEvent>, j: int)
    requires
        0 <= j <= evs.len(),
    ensures
        spec_events_req_count(spec_dedup(evs.take(j))) <= spec_events_req_count(spec_dedup(evs)),
        spec_events_req_count(spec_dedup(evs.take(j))) >= 0,
    decreases evs.len() - j,
{
    lemma_events_reqs_len(spec_dedup(evs.take(j)));
    if j == evs.len() {
        assert(evs.take(j) =~= evs);
    } else {
        lemma_dedup_count_mono(evs, j + 1);
        assert(evs.take(j + 1).drop_last() =~= evs.take(j));
        assert(evs.take(j + 1).last() == evs[j]);
        let ded = spec_dedup(evs.take(j));
        if !(j > 0 && spec_event_eq(evs[j - 1], evs[j])) {
            assert(spec_dedup(evs.take(j + 1)) == ded.push(evs[j]));
            assert(ded.push(evs[j]).drop_last() =~= ded);
        }
    }
}

/// A failure while laying out a prefix of the deduplicated events dooms
/// the whole day.
pub proof fn lemma_dedup_shapes_none(
    evs: Seq<CalendarEvent>,
    now: Timestamp,
    ms: Seq<TextMetrics>,
    j: int,
)
    requires
        0 <= j <= evs.len(),
        spec_event_shapes_opt(spec_dedup(evs.take(j)), now, ms).is_none(),
    ensures
        spec_event_shapes_opt(spec_dedup(evs), now, ms).is_none(),
    decreases evs.len() - j,
{
    if j == evs.len() {
        assert(evs.take(j) =~= evs);
    } else {
        assert(evs.take(j + 1).drop_last() =~= evs.take(j));
        assert(evs.take(j + 1).last() == evs[j]);
        let ded = spec_dedup(evs.take(j));
        if !(j > 0 && spec_event_eq(evs[j - 1], evs[j])) {
            assert(spec_dedup(evs.take(j + 1)) == ded.push(evs[j]));
            assert(ded.push(evs[j]).drop_last() =~= ded);
        }
        lemma_dedup_shapes_none(evs, now, ms, j + 1);
    }
}

/// A blank margin row-group.
fn margin_entry() -> (r: EventStackEntry)
    ensures
        r.renderable.wf(),
        spec_entry_shape(r) == spec_margin_shape(),
{
    let node = match pad(0, HEADER_TEMPLATE_MARGIN) {
        Ok(v) => v.into_rc(),
        Err(e) => {
            proof {
                assert(false);
            }
            marker(false).into_rc()
        },
    };
    let r = EventStackEntry {
        renderable: node,
        colors: [PAL_TEXT, PAL_TEXT, PAL_TEXT, PAL_TEXT],
        is_day_header: false,
    };
    proof {
        assert(r.colors@ =~= seq![PAL_TEXT, PAL_TEXT, PAL_TEXT, PAL_TEXT]);
    }
    r
}

/// The dashed separator row-group between events of differing start
/// hours.
fn separator_entry() -> (r: EventStackEntry)
    ensures
        r.renderable.wf(),
        spec_entry_shape(r) == spec_separator_shape(),
{
    let sep = match separator(
        rgb(RGB_TIME_DASH),
        TIME_COL_RIGHT - TIME_COL_LEFT,
        2,
        4,
        4,
    ) {
        Ok(v) => v.into_rc(),
        Err(e) => {
            proof {
                assert(false);
            }
            marker(false).into_rc()
        },
    };
    let node = match sep.offset(TIME_COL_LEFT, 0) {
        Ok(v) => v,
        Err(e) => {
            proof {
                assert(false);
            }
            marker(false).into_rc()
        },
    };
    let r = EventStackEntry {
        renderable: node,
        colors: [PAL_TIME_DASH, PAL_TIME_DASH, PAL_TIME_DASH, PAL_TIME_DASH],
        is_day_header: false,
    };
    proof {
        assert(r.colors@ =~= seq![PAL_TIME_DASH, PAL_TIME_DASH, PAL_TIME_DASH, PAL_TIME_DASH]);
    }
    r
}


/// The day-header row-group's subtree: the centered date title over
/// matching blank space below, stacked in a column.
pub open spec fn is_header_column(
    n: RcRenderable,
    date: crate::calendar::CivilDate,
    title_wrap: int,
    tm: TextMetrics,
) -> bool {
    let x_off = max2((VARIABLE_OUTER_RIGHT - VARIABLE_OUTER_LEFT - tm.width) / 2, 0);
    let y_off = max2((DAY_HEADER_HEIGHT - tm.height) / 2, 0);
    match (*n.0).kind {
        NodeKind::Column { children } => {
            &&& children@.len() == 2
            &&& is_text_at(
                children@[0],
                spec_day_title(date),
                spec_rgb(RGB_DATE),
                FontKind::DayHeader,
                title_wrap,
                1,
                VARIABLE_OUTER_LEFT + x_off,
                y_off,
            )
            &&& (*children@[1].0).kind is Pad
            &&& (*children@[1].0).width == 0
            &&& (*children@[1].0).height == y_off
        },
        _ => false,
    }
}

/// The "no events" filler subtree: the fixed filler line centered in
/// the variable region.
pub open spec fn is_filler_text(n: RcRenderable, fm: TextMetrics) -> bool {
    let fx = max2((VARIABLE_OUTER_RIGHT - VARIABLE_OUTER_LEFT - fm.width) / 2, 0);
    is_text_at(
        n,
        spec_filler_text(),
        spec_rgb(RGB_TEXT),
        FontKind::EventInfo,
        (VARIABLE_OUTER_RIGHT - VARIABLE_OUTER_LEFT) as int,
        2,
        VARIABLE_OUTER_LEFT + fx,
        0,
    )
}

/// Lays out one deduplicated event (and its separator, when needed)
/// onto the end of `entries`, keeping the shape correspondence.
#[verifier::rlimit(100)]
fn layout_event_step(
    e: &CalendarEvent,
    now: &Timestamp,
    metrics: &Vec<TextMetrics>,
    mi: usize,
    sep_needed: bool,
    entries: &mut Vec<EventStackEntry>,
    Ghost(ded): Ghost<Seq<CalendarEvent>>,
    Ghost(ms_ev): Ghost<Seq<TextMetrics>>,
    Ghost(start_ev): Ghost<int>,
    Ghost(old_len): Ghost<int>,
    Ghost(prefix): Ghost<Seq<(bool, Seq<u8>, int, int)>>,
) -> (r: Result<usize, UpdaterError>)
    requires
        spec_event_valid(*e),
        0 <= start_ev,
        ms_ev == metrics@.skip(start_ev),
        mi == start_ev + spec_events_req_count(ded),
        spec_events_req_count(ded) >= 0,
        mi + spec_event_req_count(*e) <= metrics@.len(),
        spec_event_shapes_opt(ded, *now, ms_ev).is_some(),
        sep_needed == (ded.len() >= 1 && ded.last().start_time.hour != e.start_time.hour),
        0 <= old_len <= old(entries)@.len(),
        spec_entry_shapes(old(entries)@.skip(old_len)) == prefix + spec_event_shapes_opt(
            ded,
            *now,
            ms_ev,
        ).unwrap(),
        forall|k: int|
            old_len <= k < old(entries)@.len() ==> (#[trigger] old(
                entries,
            )@[k]).renderable.wf(),
    ensures
        final(entries)@.len() >= old(entries)@.len(),
        final(entries)@.take(old(entries)@.len() as int) == old(entries)@,
        r.is_ok() <==> spec_event_shapes_opt(ded.push(*e), *now, ms_ev).is_some(),
        r.is_ok() ==> ({
            &&& r.unwrap() == mi + spec_event_req_count(*e)
            &&& spec_entry_shapes(final(entries)@.skip(old_len)) == prefix
                + spec_event_shapes_opt(ded.push(*e), *now, ms_ev).unwrap()
            &&& forall|k: int|
                old_len <= k < final(entries)@.len() ==> (#[trigger] final(entries)@[k]).renderable.wf()
        }),
{
    let ghost e_spec = *e;
    let ghost ded2 = ded.push(e_spec);
    proof {
        assert(ded2.drop_last() =~= ded);
        assert(ded2.last() == e_spec);
        lemma_events_reqs_len(ded);
        lemma_events_reqs_len(ded2);
        assert(spec_events_reqs(ded2) == spec_events_reqs(ded) + spec_event_reqs(e_spec));
    }
    let ml = metrics.len();
    let has_end = match format_end(e) {
        Some(_) => true,
        None => false,
    };
    let m_s = metrics[mi];
    let m_e: Option<TextMetrics> = if has_end {
        Some(metrics[mi + 1])
    } else {
        None
    };
    let m_d = if has_end {
        metrics[mi + 2]
    } else {
        metrics[mi + 1]
    };
    proof {
        let base = spec_events_req_count(ded);
        assert(m_s == ms_ev[base]);
        if has_end {
            assert(metrics@[mi + 1] == ms_ev[base + 1]);
            assert(metrics@[mi + 2] == ms_ev[base + 2]);
        } else {
            assert(metrics@[mi + 1] == ms_ev[base + 1]);
        }
    }
    let ghost snap0 = entries@;
    let mut pushed_sep = false;
    let ghost mut sepv = arbitrary::<EventStackEntry>();
    if sep_needed {
        let sep_e = separator_entry();
        proof {
            sepv = sep_e;
        }
        entries.push(sep_e);
        pushed_sep = true;
    }
    let entry = match layout_single_event(e, now, m_s, m_e, m_d) {
        Ok(v) => v,
        Err(err) => {
            proof {
                assert(spec_event_shapes_opt(ded2, *now, ms_ev).is_none());
                assert(entries@.take(old(entries)@.len() as int) =~= old(entries)@);
            }
            return Err(err);
        },
    };
    let ghost entryv = entry;
    entries.push(entry);
    proof {
        let rest = spec_event_shapes_opt(ded, *now, ms_ev).unwrap();
        let me_eff = spec_end_metrics(m_e);
        let sep_spec = ded2.len() >= 2 && ded2[ded2.len() - 2].start_time.hour
            != e_spec.start_time.hour;
        if ded.len() >= 1 {
            assert(ded2[ded2.len() - 2] == ded.last());
        }
        assert(sep_needed == sep_spec);
        assert(spec_event_entry_ok(m_s, me_eff, m_d));
        assert(spec_event_shapes_opt(ded2, *now, ms_ev) == Some(
            rest + (if sep_spec {
                seq![spec_separator_shape()]
            } else {
                Seq::<(bool, Seq<u8>, int, int)>::empty()
            }) + seq![spec_event_shape(e_spec, *now, m_s, me_eff, m_d)],
        ));
        assert(spec_entry_shape(entryv) == spec_event_shape(e_spec, *now, m_s, me_eff, m_d));
        if sep_needed {
            assert(entries@ == snap0.push(sepv).push(entryv));
            assert(entries@.skip(old_len) =~= snap0.skip(old_len) + seq![sepv] + seq![entryv]);
            assert(spec_entry_shape(sepv) == spec_separator_shape());
            assert(spec_entry_shapes(snap0.skip(old_len) + seq![sepv] + seq![entryv]) =~~=
                spec_entry_shapes(snap0.skip(old_len)) + seq![spec_separator_shape()] + seq![
                spec_event_shape(e_spec, *now, m_s, me_eff, m_d),
            ]);
        } else {
            assert(entries@ == snap0.push(entryv));
            assert(entries@.skip(old_len) =~= snap0.skip(old_len) + seq![entryv]);
            assert(spec_entry_shapes(snap0.skip(old_len) + seq![entryv]) =~~= spec_entry_shapes(
                snap0.skip(old_len),
            ) + seq![spec_event_shape(e_spec, *now, m_s, me_eff, m_d)]);
        }
        assert(spec_entry_shapes(entries@.skip(old_len)) =~~= prefix + spec_event_shapes_opt(
            ded2,
            *now,
            ms_ev,
        ).unwrap());
        assert(entries@.take(old(entries)@.len() as int) =~= old(entries)@);
    }
    if has_end {
        Ok(mi + 3)
    } else {
        Ok(mi + 2)
    }
}

/// Lays out one calendar day: a centered day-header row-group, a fixed
/// margin, then either the "no events" filler or one row-group per
/// deduplicated event with separators between differing start hours,
/// then a closing margin.  Returns how many measurements it consumed.
#[verifier::rlimit(100)]
pub fn layout_day(
    day: &CalendarDay,
    now: &Timestamp,
    title_wrap: u32,
    metrics: &Vec<TextMetrics>,
    start: usize,
    entries: &mut Vec<EventStackEntry>,
) -> (r: Result<usize, UpdaterError>)
    requires
        spec_day_valid(*day),
        start + spec_day_req_count(*day) <= metrics@.len(),
    ensures
        final(entries)@.len() >= old(entries)@.len(),
        final(entries)@.take(old(entries)@.len() as int) == old(entries)@,
        r.is_ok() <==> spec_day_shapes_opt(*day, *now, metrics@.skip(start as int)).is_some(),
        r.is_ok() ==> ({
            let shapes = spec_day_shapes_opt(*day, *now, metrics@.skip(start as int)).unwrap();
            &&& r.unwrap() == spec_day_req_count(*day)
            &&& final(entries)@.len() == old(entries)@.len() + shapes.len()
            &&& spec_entry_shapes(final(entries)@.skip(old(entries)@.len() as int)) == shapes
            &&& is_header_column(
                final(entries)@[old(entries)@.len() as int].renderable,
                day.date,
                title_wrap as int,
                metrics@[start as int],
            )
            &&& day.events@.len() == 0 ==> is_filler_text(
                final(entries)@[old(entries)@.len() as int + 2].renderable,
                metrics@[start as int + 1],
            )
            &&& forall|k: int|
                old(entries)@.len() <= k < final(entries)@.len() ==> (#[trigger] final(entries)@[k]).renderable.wf()
        }),
{
    let ghost ms = metrics@.skip(start as int);
    let ghost old_entries = entries@;
    let ghost old_len = entries@.len();
    let ml = metrics.len();
    proof {
        lemma_events_reqs_len(spec_dedup(day.events@));
        assert(metrics@.len() == ml);
    }

    let title_m = metrics[start];
    proof {
        assert(title_m == ms[0]);
    }
    let ghost hs = spec_header_shape(title_m);
    let title_text = day_title_string(&day.date);
    let center_w = VARIABLE_OUTER_RIGHT - VARIABLE_OUTER_LEFT;
    let x_off: u32 = if title_m.width <= center_w {
        (center_w - title_m.width) / 2
    } else {
        0
    };
    let y_off: u32 = if title_m.height <= DAY_HEADER_HEIGHT {
        (DAY_HEADER_HEIGHT - title_m.height) / 2
    } else {
        0
    };
    proof {
        assert(x_off == max2((VARIABLE_OUTER_RIGHT - VARIABLE_OUTER_LEFT - title_m.width) / 2, 0));
        assert(y_off == max2((DAY_HEADER_HEIGHT - title_m.height) / 2, 0));
    }
    let title_box = match text_box(
        title_text,
        rgb(RGB_DATE),
        FontKind::DayHeader,
        title_wrap,
        1,
        title_m,
    ) {
        Ok(v) => v.into_rc(),
        Err(e) => {
            return Err(e);
        },
    };
    let placed_title = match title_box.offset(VARIABLE_OUTER_LEFT + x_off, y_off) {
        Ok(v) => v,
        Err(e) => {
            return Err(e);
        },
    };
    let mut col = RenderColumn::new();
    let ghost pt = placed_title;
    match col.push(placed_title) {
        Ok(_) => (),
        Err(e) => {
            return Err(e);
        },
    }
    let pad_node = match pad(0, y_off) {
        Ok(v) => v.into_rc(),
        Err(e) => {
            proof {
                assert(false);
            }
            return Err(e);
        },
    };
    let ghost pn = pad_node;
    match col.push(pad_node) {
        Ok(_) => (),
        Err(e) => {
            return Err(e);
        },
    }
    proof {
        assert(col.items@ =~= seq![pt, pn]);
    }
    let header_entry = EventStackEntry {
        renderable: col.into_node(),
        colors: [PAL_DATE, PAL_DATE, PAL_DATE, PAL_DATE],
        is_day_header: true,
    };
    proof {
        assert(header_entry.colors@ =~= seq![PAL_DATE, PAL_DATE, PAL_DATE, PAL_DATE]);
        assert(spec_entry_shape(header_entry) == hs);
        assert(is_header_column(
            header_entry.renderable,
            day.date,
            title_wrap as int,
            metrics@[start as int],
        ));
    }
    entries.push(header_entry);
    entries.push(margin_entry());
    proof {
        assert(spec_entry_shapes(entries@.skip(old_len as int)) =~~= seq![
            hs,
            spec_margin_shape(),
        ]);
        assert(entries@.take(old_len as int) =~= old_entries);
    }

    if day.events.len() == 0 {
        let f_m = metrics[start + 1];
        proof {
            assert(f_m == ms[1]);
        }
        let ghost fs = spec_filler_shape(f_m);
        let filler_box = match text_box(
            "【イベント情報がありません】".to_owned(),
            rgb(RGB_TEXT),
            FontKind::EventInfo,
            center_w,
            2,
            f_m,
        ) {
            Ok(v) => v.into_rc(),
            Err(e) => {
                return Err(e);
            },
        };
        let fx: u32 = if f_m.width <= center_w {
            (center_w - f_m.width) / 2
        } else {
            0
        };
        proof {
            assert(fx == max2(
                (VARIABLE_OUTER_RIGHT - VARIABLE_OUTER_LEFT - f_m.width) / 2,
                0,
            ));
        }
        let placed = match filler_box.offset(VARIABLE_OUTER_LEFT + fx, 0) {
            Ok(v) => v,
            Err(e) => {
                return Err(e);
            },
        };
        let filler_entry = EventStackEntry {
            renderable: placed,
            colors: [PAL_TEXT, PAL_TEXT, PAL_TEXT, PAL_TEXT],
            is_day_header: false,
        };
        proof {
            assert(filler_entry.colors@ =~= seq![PAL_TEXT, PAL_TEXT, PAL_TEXT, PAL_TEXT]);
            assert(spec_entry_shape(filler_entry) == fs);
            assert(is_filler_text(filler_entry.renderable, metrics@[start as int + 1]));
        }
        entries.push(filler_entry);
        entries.push(margin_entry());
        proof {
            assert(spec_entry_shapes(entries@.skip(old_len as int)) =~~= spec_day_shapes_opt(
                *day,
                *now,
                ms,
            ).unwrap());
            assert(entries@.take(old_len as int) =~= old_entries);
        }
        return Ok(2);
    }

    let ghost evs = day.events@;
    let ghost ms_ev = ms.skip(1);
    let mut mi: usize = start + 1;
    let mut j: usize = 0;
    let mut prior_hour: Option<u8> = None;
    while j < day.events.len()
        invariant
            spec_day_valid(*day),
            evs == day.events@,
            evs.len() > 0,
            ms == metrics@.skip(start as int),
            ms_ev == ms.skip(1),
            old_entries == old(entries)@,
            old_len == old_entries.len(),
            start + spec_day_req_count(*day) <= metrics@.len(),
            spec_day_req_count(*day) == 1 + spec_events_req_count(spec_dedup(evs)),
            hs == spec_header_shape(ms[0]),
            hs.2 <= MAX_DIM && hs.3 <= MAX_DIM,
            0 <= j <= evs.len(),
            metrics@.len() == ml,
            mi == start + 1 + spec_events_req_count(spec_dedup(evs.take(j as int))),
            match prior_hour {
                Some(h) => spec_dedup(evs.take(j as int)).len() > 0 && h == spec_dedup(
                    evs.take(j as int),
                ).last().start_time.hour,
                None => spec_dedup(evs.take(j as int)).len() == 0,
            },
            spec_event_shapes_opt(spec_dedup(evs.take(j as int)), *now, ms_ev).is_some(),
            spec_entry_shapes(entries@.skip(old_len as int)) == seq![hs, spec_margin_shape()]
                + spec_event_shapes_opt(spec_dedup(evs.take(j as int)), *now, ms_ev).unwrap(),
            entries@.len() >= old_len + 2,
            is_header_column(
                entries@[old_len as int].renderable,
                day.date,
                title_wrap as int,
                metrics@[start as int],
            ),
            entries@.take(old_len as int) == old_entries,
            forall|k: int|
                old_len <= k < entries@.len() ==> (#[trigger] entries@[k]).renderable.wf(),
        decreases evs.len() - j,
    {
        proof {
            assert(evs.take(j + 1).drop_last() =~= evs.take(j as int));
            assert(evs.take(j + 1).last() == evs[j as int]);
            if j > 0 {
                assert(evs.take(j + 1)[j - 1] == evs[j - 1]);
            }
            lemma_dedup_count_mono(evs, j as int);
            lemma_events_reqs_len(spec_dedup(evs.take(j as int)));
        }
        let keep = if j == 0 {
            true
        } else {
            !event_eq(&day.events[j - 1], &day.events[j])
        };
        if keep {
            let e = &day.events[j];
            let ghost e_spec = evs[j as int];
            let ghost ded = spec_dedup(evs.take(j as int));
            let ghost ded2 = ded.push(e_spec);
            proof {
                assert(spec_dedup(evs.take(j + 1)) == ded2);
                assert(ded2.drop_last() =~= ded);
                assert(ded2.last() == e_spec);
                assert(spec_events_reqs(ded2) == spec_events_reqs(ded) + spec_event_reqs(e_spec));
                lemma_events_reqs_len(ded2);
                lemma_dedup_count_mono(evs, j + 1);
                assert(spec_events_req_count(ded2) == spec_events_req_count(ded)
                    + spec_event_req_count(e_spec));
                assert(mi + spec_event_req_count(e_spec) <= metrics@.len());
                if ded.len() >= 1 {
                    crate::calendar::lemma_dedup_last(evs.take(j as int));
                }
            }
            let sep_needed = match prior_hour {
                Some(h) => h != e.start_time.hour,
                None => false,
            };
            proof {
                assert(metrics@.skip(start as int).skip(1) =~= metrics@.skip(start as int + 1));
            }
            let ghost sev: int = start as int + 1;
            let ghost oln: int = old_len as int;
            let ghost pfx: Seq<(bool, Seq<u8>, int, int)> = seq![hs, spec_margin_shape()];
            let step = layout_event_step(
                e,
                now,
                metrics,
                mi,
                sep_needed,
                entries,
                Ghost(ded),
                Ghost(ms_ev),
                Ghost(sev),
                Ghost(oln),
                Ghost(pfx),
            );
            match step {
                Ok(new_mi) => {
                    proof {
                        assert(entries@[old_len as int] == entries@.take(
                            entries@.len() as int,
                        )[old_len as int]);
                    }
                    mi = new_mi;
                },
                Err(err) => {
                    proof {
                        lemma_dedup_shapes_none(evs, *now, ms_ev, j + 1);
                        assert(entries@.take(old_len as int) =~= old_entries);
                    }
                    return Err(err);
                },
            }
            prior_hour = Some(e_hour_of(&day.events[j]));
        } else {
            proof {
                assert(spec_event_eq(evs[j - 1], evs[j as int]));
                assert(spec_dedup(evs.take(j + 1)) == spec_dedup(evs.take(j as int)));
                assert(evs[j - 1].start_time == evs[j as int].start_time);
                crate::calendar::lemma_dedup_last(evs.take(j as int));
                assert(evs.take(j as int).last() == evs[j - 1]);
            }
            prior_hour = Some(e_hour_of(&day.events[j]));
        }
        j = j + 1;
    }
    proof {
        assert(evs.take(evs.len() as int) =~= evs);
    }
    entries.push(margin_entry());
    proof {
        let es = spec_event_shapes_opt(spec_dedup(evs), *now, ms_ev).unwrap();
        assert(spec_entry_shapes(entries@.skip(old_len as int)) =~~= seq![
            hs,
            spec_margin_shape(),
        ] + es + seq![spec_margin_shape()]);
        assert(spec_day_shapes_opt(*day, *now, ms).unwrap() == seq![hs, spec_margin_shape()] + es
            + seq![spec_margin_shape()]);
        assert(entries@.take(old_len as int) =~= old_entries);
    }
    Ok(mi - start)
}

/// The start hour of an event.
fn e_hour_of(e: &CalendarEvent) -> (r: u8)
    ensures
        r == e.start_time.hour,
{
    e.start_time.hour
}


/// The row-groups of the whole day list, day by day.
pub open spec fn spec_days_shapes_opt(
    days: Seq<CalendarDay>,
    now: Timestamp,
    ms: Seq<TextMetrics>,
) -> Option<Seq<(bool, Seq<u8>, int, int)>>
    decreases days.len(),
{
    if days.len() == 0 {
        Some(Seq::empty())
    } else {
        match spec_days_shapes_opt(days.drop_last(), now, ms) {
            None => None,
            Some(rest) => {
                let base = spec_days_req_count(days.drop_last());
                match spec_day_shapes_opt(days.last(), now, ms.skip(base)) {
                    None => None,
                    Some(ds) => Some(rest + ds),
                }
            },
        }
    }
}

/// Day request counts are nonnegative and only grow along a prefix.
pub proof fn lemma_days_count_mono(days: Seq<CalendarDay>, i: int)
    requires
        0 <= i <= days.len(),
    ensures
        0 <= spec_days_req_count(days.take(i)) <= spec_days_req_count(days),
    decreases days.len() - i,
{
    if i == days.len() {
        assert(days.take(i) =~= days);
        lemma_days_count_nonneg(days);
    } else {
        assert(days.take(i + 1).drop_last() =~= days.take(i));
        assert(days.take(i + 1).last() == days[i]);
        lemma_events_reqs_len(spec_dedup(days[i].events@));
        lemma_days_count_mono(days, i + 1);
        lemma_days_count_nonneg(days.take(i));
    }
}

pub proof fn lemma_days_count_nonneg(days: Seq<CalendarDay>)
    ensures
        spec_days_req_count(days) >= 0,
    decreases days.len(),
{
    if days.len() > 0 {
        lemma_days_count_nonneg(days.drop_last());
        lemma_events_reqs_len(spec_dedup(days.last().events@));
    }
}

/// What the per-scanline metadata of one row says, as plain values:
/// back-pointer, day-header flag, offset, colors.
pub open spec fn spec_vd_view(v: VerticalData) -> (int, bool, int, Seq<u8>) {
    match v.col_info {
        RowColorInfo::DayHeader { offset } => (
            v.prev_day_header as int,
            true,
            offset as int,
            Seq::empty(),
        ),
        RowColorInfo::Colors(c) => (v.prev_day_header as int, false, 0int, c@),
    }
}

pub open spec fn spec_vd_views(s: Seq<VerticalData>) -> Seq<(int, bool, int, Seq<u8>)> {
    s.map_values(|v: VerticalData| spec_vd_view(v))
}

/// How many scanlines of a row-group fit before the budget.
pub open spec fn spec_row_count(h: int, cur: int, limit: int) -> int {
    if cur >= limit {
        0
    } else if h <= limit - cur {
        h
    } else {
        limit - cur
    }
}

/// The metadata rows one row-group contributes, starting at scanline
/// `cur` with back-pointer `prev` (already updated for this group).
pub open spec fn spec_rows(
    sh: (bool, Seq<u8>, int, int),
    cur: int,
    prev: int,
    limit: int,
) -> Seq<(int, bool, int, Seq<u8>)> {
    Seq::new(
        spec_row_count(sh.3, cur, limit) as nat,
        |k: int|
            if sh.0 {
                (prev, true, k, Seq::empty())
            } else {
                (prev, false, 0int, sh.1)
            },
    )
}

/// The whole per-scanline metadata table of a row-group sequence: each
/// group contributes one row per scanline it covers, up to the budget;
/// day headers reset the back-pointer to their own first scanline and
/// carry per-row offsets instead of colors.
pub open spec fn spec_walk(
    shapes: Seq<(bool, Seq<u8>, int, int)>,
    limit: int,
    cur: int,
    prev: int,
) -> Seq<(int, bool, int, Seq<u8>)>
    decreases shapes.len(),
{
    if shapes.len() == 0 {
        Seq::empty()
    } else {
        let sh = shapes[0];
        let prev2 = if sh.0 {
            cur
        } else {
            prev
        };
        spec_rows(sh, cur, prev2, limit) + spec_walk(
            shapes.drop_first(),
            limit,
            cur + spec_row_count(sh.3, cur, limit),
            prev2,
        )
    }
}

/// The scanline position after a row-group sequence.
pub open spec fn spec_walk_len(
    shapes: Seq<(bool, Seq<u8>, int, int)>,
    limit: int,
    cur: int,
) -> int
    decreases shapes.len(),
{
    if shapes.len() == 0 {
        cur
    } else {
        spec_walk_len(
            shapes.drop_first(),
            limit,
            cur + spec_row_count(shapes[0].3, cur, limit),
        )
    }
}

/// The back-pointer after a row-group sequence.
pub open spec fn spec_walk_prev(
    shapes: Seq<(bool, Seq<u8>, int, int)>,
    limit: int,
    cur: int,
    prev: int,
) -> int
    decreases shapes.len(),
{
    if shapes.len() == 0 {
        prev
    } else {
        let sh = shapes[0];
        let prev2 = if sh.0 {
            cur
        } else {
            prev
        };
        spec_walk_prev(
            shapes.drop_first(),
            limit,
            cur + spec_row_count(sh.3, cur, limit),
            prev2,
        )
    }
}

/// Walking one more row-group appends its rows at the accumulated
/// position.
pub proof fn lemma_walk_append(
    shapes: Seq<(bool, Seq<u8>, int, int)>,
    x: (bool, Seq<u8>, int, int),
    limit: int,
    cur: int,
    prev: int,
)
    ensures
        ({
            let c2 = spec_walk_len(shapes, limit, cur);
            let p2 = spec_walk_prev(shapes, limit, cur, prev);
            let p3 = if x.0 {
                c2
            } else {
                p2
            };
            &&& spec_walk(shapes.push(x), limit, cur, prev) == spec_walk(shapes, limit, cur, prev)
                + spec_rows(x, c2, p3, limit)
            &&& spec_walk_len(shapes.push(x), limit, cur) == c2 + spec_row_count(x.3, c2, limit)
            &&& spec_walk_prev(shapes.push(x), limit, cur, prev) == p3
        }),
    decreases shapes.len(),
{
    let c2 = spec_walk_len(shapes, limit, cur);
    let p2 = spec_walk_prev(shapes, limit, cur, prev);
    let p3 = if x.0 {
        c2
    } else {
        p2
    };
    if shapes.len() == 0 {
        assert(shapes.push(x).drop_first() =~= shapes);
        assert(shapes.push(x)[0] == x);
        let tail = shapes.push(x).drop_first();
        let cur2 = cur + spec_row_count(x.3, cur, limit);
        assert(spec_walk(shapes.push(x), limit, cur, prev) == spec_rows(x, cur, p3, limit)
            + spec_walk(tail, limit, cur2, p3));
        assert(spec_walk(tail, limit, cur2, p3) == Seq::<(int, bool, int, Seq<u8>)>::empty());
        assert(spec_walk(shapes, limit, cur, prev) == Seq::<(int, bool, int, Seq<u8>)>::empty());
        assert(spec_rows(x, cur, p3, limit) + Seq::<(int, bool, int, Seq<u8>)>::empty() =~= Seq::<
            (int, bool, int, Seq<u8>),
        >::empty() + spec_rows(x, cur, p3, limit));
        assert(spec_walk_len(shapes.push(x), limit, cur) == spec_walk_len(tail, limit, cur2));
        assert(spec_walk_prev(shapes.push(x), limit, cur, prev) == spec_walk_prev(
            tail,
            limit,
            cur2,
            p3,
        ));
    } else {
        assert(shapes.push(x).drop_first() =~= shapes.drop_first().push(x));
        assert(shapes.push(x)[0] == shapes[0]);
        let sh = shapes[0];
        let prev2 = if sh.0 {
            cur
        } else {
            prev
        };
        let cur2 = cur + spec_row_count(sh.3, cur, limit);
        lemma_walk_append(shapes.drop_first(), x, limit, cur2, prev2);
        let rows0 = spec_rows(sh, cur, prev2, limit);
        let mid = spec_walk(shapes.drop_first(), limit, cur2, prev2);
        let rowsx = spec_rows(x, c2, p3, limit);
        assert(rows0 + (mid + rowsx) =~= (rows0 + mid) + rowsx);
    }
}


/// Shapes distribute over concatenation.
pub proof fn lemma_shapes_concat(a: Seq<EventStackEntry>, b: Seq<EventStackEntry>)
    ensures
        spec_entry_shapes(a + b) == spec_entry_shapes(a) + spec_entry_shapes(b),
{
    assert(spec_entry_shapes(a + b) =~~= spec_entry_shapes(a) + spec_entry_shapes(b));
}

/// The widest row-group width in a shape sequence.
pub open spec fn shapes_max_width(s: Seq<(bool, Seq<u8>, int, int)>) -> int
    decreases s.len(),
{
    if s.len() == 0 {
        0
    } else {
        max2(shapes_max_width(s.drop_last()), s.last().2)
    }
}

/// The total height of a shape sequence.
pub open spec fn shapes_sum_height(s: Seq<(bool, Seq<u8>, int, int)>) -> int
    decreases s.len(),
{
    if s.len() == 0 {
        0
    } else {
        shapes_sum_height(s.drop_last()) + s.last().3
    }
}

/// A day that cannot be laid out dooms the whole list.
pub proof fn lemma_days_shapes_none(
    days: Seq<CalendarDay>,
    now: Timestamp,
    ms: Seq<TextMetrics>,
    i: int,
)
    requires
        0 <= i <= days.len(),
        spec_days_shapes_opt(days.take(i), now, ms).is_none(),
    ensures
        spec_days_shapes_opt(days, now, ms).is_none(),
    decreases days.len() - i,
{
    if i == days.len() {
        assert(days.take(i) =~= days);
    } else {
        assert(days.take(i + 1).drop_last() =~= days.take(i));
        lemma_days_shapes_none(days, now, ms, i + 1);
    }
}

/// Turns the whole day list into its stacked row-group column, and in
/// lock-step fills the per-scanline metadata table: one entry per output
/// row up to the budget, carrying the row-group's palette indices or its
/// day-header offset, plus the back-pointer to the nearest preceding
/// day-header row.  Rows beyond the budget are laid out but not
/// represented.
#[verifier::rlimit(100)]
pub fn generate_variable_layout(
    days: &Vec<CalendarDay>,
    now: &Timestamp,
    title_wrap: u32,
    metrics: &Vec<TextMetrics>,
    vdata: &mut Vec<VerticalData>,
    height_limit: usize,
) -> (r: Result<RcRenderable, UpdaterError>)
    requires
        spec_days_valid(days@),
        spec_days_req_count(days@) <= metrics@.len(),
        height_limit <= 0xFFFFFFFF,
        old(vdata)@.len() <= height_limit,
    ensures
        final(vdata)@.len() >= old(vdata)@.len(),
        final(vdata)@.take(old(vdata)@.len() as int) == old(vdata)@,
        r.is_ok() <==> (spec_days_shapes_opt(days@, *now, metrics@).is_some()
            && shapes_sum_height(spec_days_shapes_opt(days@, *now, metrics@).unwrap()) <= MAX_DIM),
        r.is_ok() ==> ({
            let shapes = spec_days_shapes_opt(days@, *now, metrics@).unwrap();
            let n = *r.unwrap().0;
            &&& n.wf()
            &&& n.width == shapes_max_width(shapes)
            &&& n.height == shapes_sum_height(shapes)
            &&& match n.kind {
                crate::render::NodeKind::Column { children } => {
                    &&& children@.len() == shapes.len()
                    &&& forall|k: int|
                        0 <= k < shapes.len() ==> (*(#[trigger] children@[k]).0).width
                            == shapes[k].2 && (*children@[k].0).height == shapes[k].3
                },
                _ => false,
            }
            &&& spec_vd_views(final(vdata)@.skip(old(vdata)@.len() as int)) == spec_walk(
                shapes,
                height_limit as int,
                old(vdata)@.len() as int,
                0,
            )
        }),
{
    let ghost mspec = metrics@;
    let ml = metrics.len();
    let mut entries: Vec<EventStackEntry> = Vec::new();
    let mut i: usize = 0;
    let mut mi: usize = 0;
    while i < days.len()
        invariant
            spec_days_valid(days@),
            spec_days_req_count(days@) <= metrics@.len(),
            metrics@.len() == ml,
            mspec == metrics@,
            0 <= i <= days@.len(),
            mi == spec_days_req_count(days@.take(i as int)),
            spec_days_shapes_opt(days@.take(i as int), *now, metrics@).is_some(),
            spec_entry_shapes(entries@) == spec_days_shapes_opt(
                days@.take(i as int),
                *now,
                metrics@,
            ).unwrap(),
            forall|k: int|
                0 <= k < entries@.len() ==> (#[trigger] entries@[k]).renderable.wf(),
        decreases days@.len() - i,
    {
        proof {
            assert(days@.take(i + 1).drop_last() =~= days@.take(i as int));
            assert(days@.take(i + 1).last() == days@[i as int]);
            lemma_days_count_mono(days@, i + 1);
            lemma_days_count_nonneg(days@.take(i as int));
            lemma_events_reqs_len(spec_dedup(days@[i as int].events@));
        }
        let ghost pre_entries = entries@;
        let ghost pre_len = entries@.len();
        let consumed = match layout_day(&days[i], now, title_wrap, metrics, mi, &mut entries) {
            Ok(c) => c,
            Err(e) => {
                proof {
                    assert(spec_days_shapes_opt(days@.take(i + 1), *now, metrics@).is_none());
                    lemma_days_shapes_none(days@, *now, metrics@, i + 1);
                }
                return Err(e);
            },
        };
        proof {
            let rest = spec_days_shapes_opt(days@.take(i as int), *now, metrics@).unwrap();
            let ds = spec_day_shapes_opt(
                days@[i as int],
                *now,
                metrics@.skip(mi as int),
            ).unwrap();
            assert(spec_days_shapes_opt(days@.take(i + 1), *now, metrics@) == Some(rest + ds));
            assert(entries@.take(pre_len as int) == pre_entries);
            assert(entries@ =~= pre_entries + entries@.skip(pre_len as int));
            lemma_shapes_concat(pre_entries, entries@.skip(pre_len as int));
            assert(spec_entry_shapes(entries@) == rest + ds);
        }
        mi = mi + consumed;
        i = i + 1;
    }
    proof {
        assert(days@.take(days@.len() as int) =~= days@);
    }
    let ghost shapes = spec_days_shapes_opt(days@, *now, metrics@).unwrap();
    proof {
        assert(spec_entry_shapes(entries@) == shapes);
    }

    let ghost l0 = vdata@.len();
    let ghost old_vdata = vdata@;
    let limit = height_limit;
    let mut prev: usize = 0;
    let mut ei: usize = 0;
    while ei < entries.len()
        invariant
            shapes == spec_entry_shapes(entries@),
            forall|k: int|
                0 <= k < entries@.len() ==> (#[trigger] entries@[k]).renderable.wf(),
            0 <= ei <= entries@.len(),
            limit == height_limit,
            limit <= 0xFFFFFFFF,
            l0 == old_vdata.len(),
            old_vdata == old(vdata)@,
            l0 <= limit,
            vdata@.len() == spec_walk_len(shapes.take(ei as int), limit as int, l0 as int),
            l0 <= vdata@.len() <= limit,
            prev == spec_walk_prev(shapes.take(ei as int), limit as int, l0 as int, 0),
            0 <= prev <= limit,
            spec_vd_views(vdata@.skip(l0 as int)) == spec_walk(
                shapes.take(ei as int),
                limit as int,
                l0 as int,
                0,
            ),
            vdata@.take(l0 as int) == old_vdata,
        decreases entries@.len() - ei,
    {
        proof {
            assert(shapes.take(ei + 1).drop_last() =~= shapes.take(ei as int));
            assert(shapes.take(ei + 1).last() == shapes[ei as int]);
            assert(shapes.take(ei + 1) =~= shapes.take(ei as int).push(shapes[ei as int]));
            lemma_walk_append(
                shapes.take(ei as int),
                shapes[ei as int],
                limit as int,
                l0 as int,
                0,
            );
        }
        let h = entries[ei].renderable.height();
        let is_dh = entries[ei].is_day_header;
        let colors = entries[ei].colors;
        proof {
            assert(shapes[ei as int] == spec_entry_shape(entries@[ei as int]));
            assert(shapes[ei as int].3 == h);
            assert(shapes[ei as int].0 == is_dh);
            assert(shapes[ei as int].1 == colors@);
        }
        let cur = vdata.len();
        let prev2: usize = if is_dh {
            cur
        } else {
            prev
        };
        let count: usize = if (h as usize) <= limit - cur {
            h as usize
        } else {
            limit - cur
        };
        proof {
            assert(count == spec_row_count(h as int, cur as int, limit as int));
        }
        let ghost pre_rows = vdata@;
        let mut k: usize = 0;
        while k < count
            invariant
                0 <= k <= count,
                count + cur <= limit,
                limit <= 0xFFFFFFFF,
                cur == pre_rows.len(),
                prev2 <= limit,
                vdata@.len() == cur + k,
                vdata@.take(cur as int) == pre_rows,
                spec_vd_views(vdata@.skip(cur as int)) == spec_rows(
                    (is_dh, colors@, 0int, h as int),
                    cur as int,
                    prev2 as int,
                    limit as int,
                ).take(k as int),
                spec_row_count(h as int, cur as int, limit as int) == count,
            decreases count - k,
        {
            let ci = if is_dh {
                RowColorInfo::DayHeader { offset: k as u32 }
            } else {
                RowColorInfo::Colors(colors)
            };
            let vd = VerticalData { prev_day_header: prev2 as u32, col_info: ci };
            let ghost vdv = vd;
            let ghost snap = vdata@;
            vdata.push(vd);
            proof {
                let rows = spec_rows(
                    (is_dh, colors@, 0int, h as int),
                    cur as int,
                    prev2 as int,
                    limit as int,
                );
                assert(spec_vd_view(vdv) == rows[k as int]);
                assert(vdata@.skip(cur as int) =~= snap.skip(cur as int).push(vdv));
                assert(spec_vd_views(vdata@.skip(cur as int)) =~~= rows.take(k + 1));
                assert(vdata@.take(cur as int) =~= pre_rows);
            }
            k = k + 1;
        }
        proof {
            let sh = shapes[ei as int];
            let rows = spec_rows(sh, cur as int, prev2 as int, limit as int);
            assert(rows.take(count as int) =~= rows);
            assert(spec_vd_views(vdata@.skip(l0 as int)) =~~= spec_walk(
                shapes.take(ei as int),
                limit as int,
                l0 as int,
                0,
            ) + rows);
            assert(vdata@.take(l0 as int) =~= old_vdata);
        }
        prev = prev2;
        ei = ei + 1;
    }
    proof {
        assert(shapes.take(entries@.len() as int) =~= shapes);
    }

    let mut col = RenderColumn::new();
    let ghost full = entries@;
    let mut rest = entries;
    while rest.len() > 0
        invariant
            spec_days_shapes_opt(days@, *now, metrics@) == Some(shapes),
            shapes == spec_entry_shapes(full),
            forall|k: int| 0 <= k < full.len() ==> (#[trigger] full[k]).renderable.wf(),
            l0 == old(vdata)@.len(),
            old_vdata == old(vdata)@,
            vdata@.len() >= l0,
            vdata@.take(l0 as int) == old_vdata,
            spec_vd_views(vdata@.skip(l0 as int)) == spec_walk(
                shapes,
                height_limit as int,
                l0 as int,
                0,
            ),
            rest@.len() <= full.len(),
            rest@ == full.skip(full.len() - rest@.len()),
            crate::render::col_wf(col),
            col.items@.len() == full.len() - rest@.len(),
            col.width == shapes_max_width(shapes.take(full.len() - rest@.len())),
            col.height == shapes_sum_height(shapes.take(full.len() - rest@.len())),
            forall|k: int|
                0 <= k < col.items@.len() ==> (*(#[trigger] col.items@[k]).0).width == shapes[k].2
                    && (*col.items@[k].0).height == shapes[k].3,
        decreases rest@.len(),
    {
        let ghost p = full.len() - rest@.len();
        let e = rest.remove(0);
        proof {
            assert(e == full[p]);
            assert(rest@ =~= full.skip(p + 1));
            assert(shapes.take(p + 1).drop_last() =~= shapes.take(p));
            assert(shapes.take(p + 1).last() == shapes[p]);
            assert(shapes[p] == spec_entry_shape(full[p]));
        }
        match col.push(e.renderable) {
            Ok(_) => (),
            Err(err) => {
                proof {
                    assert forall|k: int| 0 <= k < shapes.len() implies (#[trigger] shapes[k]).3
                        >= 0 by {
                        assert(shapes[k] == spec_entry_shape(full[k]));
                    };
                    assert(shapes_sum_height(shapes.take(p + 1)) == shapes_sum_height(
                        shapes.take(p),
                    ) + shapes[p].3);
                    lemma_shapes_sum_lower(shapes, p + 1);
                    assert(shapes_sum_height(shapes) > MAX_DIM);
                }
                return Err(err);
            },
        }
    }
    proof {
        assert(shapes.take(full.len() as int) =~= shapes);
        assert(full.skip(0) =~= full);
    }
    Ok(col.into_node())
}

/// Every row-group height is nonnegative, so a prefix sum bounds the
/// total from below.
pub proof fn lemma_shapes_sum_lower(shapes: Seq<(bool, Seq<u8>, int, int)>, p: int)
    requires
        0 <= p <= shapes.len(),
        forall|k: int| 0 <= k < shapes.len() ==> (#[trigger] shapes[k]).3 >= 0,
    ensures
        shapes_sum_height(shapes.take(p)) <= shapes_sum_height(shapes),
    decreases shapes.len() - p,
{
    if p == shapes.len() {
        assert(shapes.take(p) =~= shapes);
    } else {
        assert(shapes.take(p + 1).drop_last() =~= shapes.take(p));
        assert(shapes.take(p + 1).last() == shapes[p]);
        lemma_shapes_sum_lower(shapes, p + 1);
    }
}

} // verus!
