use scrollcal::calendar::{CalendarDay, CalendarEvent, CivilDate, Timestamp};
use scrollcal::config::{PAL_DATE, PAL_TEXT, PAL_TIME, PAL_TIME_DASH};
use scrollcal::datastream::RowColorInfo;
use scrollcal::layout::{
    day_text_requests, generate_variable_layout, layout_day, layout_single_event, text_requests,
    EventStackEntry,
};
use scrollcal::pipeline::{compute_full_layout, setup_environment};
use scrollcal::render::{FontKind, NodeKind, TextMetrics};

fn d(year: i32, month: u8, day: u8) -> CivilDate {
    CivilDate { year, month, day }
}

fn ts(year: i32, month: u8, day: u8, hour: u8, minute: u8) -> Timestamp {
    Timestamp { date: d(year, month, day), hour, minute }
}

fn ev(start: Timestamp, end: Option<Timestamp>, body: &str) -> CalendarEvent {
    CalendarEvent { start_time: start, end_time: end, body: body.to_owned() }
}

fn m(width: u32, height: u32, baseline: u32) -> TextMetrics {
    TextMetrics { width, height, baseline }
}

fn is_separator(e: &EventStackEntry) -> bool {
    e.colors == [PAL_TIME_DASH; 4]
}

const NOW: Timestamp = Timestamp { date: CivilDate { year: 2020, month: 5, day: 30 }, hour: 8, minute: 0 };

#[test]
fn empty_day_has_header_margin_filler() {
    // Header and margin before the event loop, then the filler, then the
    // closing margin; no separators anywhere.
    let day = CalendarDay { date: d(2020, 5, 30), events: vec![] };
    let metrics = vec![m(100, 30, 24), m(200, 40, 30)];
    let mut entries = Vec::new();
    let consumed = layout_day(&day, &NOW, 512, &metrics, 0, &mut entries).unwrap();
    assert_eq!(consumed, 2);
    assert_eq!(entries.len(), 4);
    assert!(entries[0].is_day_header);
    assert_eq!(entries[0].colors, [PAL_DATE; 4]);
    // Title centered in the day-header band: 30 + 2 * ((95 - 30) / 2).
    assert_eq!(entries[0].renderable.bounds(), (538, 94));
    assert_eq!(entries[1].renderable.bounds(), (0, 16));
    assert_eq!(entries[1].colors, [PAL_TEXT; 4]);
    assert_eq!(entries[2].renderable.bounds(), (588, 40));
    assert_eq!(entries[3].renderable.bounds(), (0, 16));
    assert!(entries.iter().all(|e| !is_separator(e)));
}

#[test]
fn equal_start_hours_need_no_separator() {
    let day = CalendarDay {
        date: d(2020, 5, 30),
        events: vec![
            ev(ts(2020, 5, 30, 10, 0), None, "a"),
            ev(ts(2020, 5, 30, 10, 30), None, "b"),
        ],
    };
    let metrics = vec![
        m(100, 30, 24),
        m(40, 20, 16),
        m(300, 30, 24),
        m(40, 20, 16),
        m(300, 30, 24),
    ];
    let mut entries = Vec::new();
    let consumed = layout_day(&day, &NOW, 512, &metrics, 0, &mut entries).unwrap();
    assert_eq!(consumed, 5);
    assert_eq!(entries.len(), 5);
    assert_eq!(entries.iter().filter(|e| is_separator(e)).count(), 0);
}

#[test]
fn differing_start_hours_get_one_separator() {
    let day = CalendarDay {
        date: d(2020, 5, 30),
        events: vec![
            ev(ts(2020, 5, 30, 10, 0), None, "a"),
            ev(ts(2020, 5, 30, 11, 0), None, "b"),
        ],
    };
    let metrics = vec![
        m(100, 30, 24),
        m(40, 20, 16),
        m(300, 30, 24),
        m(40, 20, 16),
        m(300, 30, 24),
    ];
    let mut entries = Vec::new();
    layout_day(&day, &NOW, 512, &metrics, 0, &mut entries).unwrap();
    assert_eq!(entries.len(), 6);
    assert_eq!(entries.iter().filter(|e| is_separator(e)).count(), 1);
    assert!(is_separator(&entries[3]));
    assert_eq!(entries[3].renderable.bounds(), (139, 6));
}

#[test]
fn identical_adjacent_events_render_once() {
    // Two identical consecutive events collapse to one row-group.
    let e = ev(ts(2020, 5, 30, 10, 0), None, "same");
    let day = CalendarDay { date: d(2020, 5, 30), events: vec![e.clone(), e] };
    let metrics = vec![m(100, 30, 24), m(40, 20, 16), m(300, 30, 24)];
    let mut entries = Vec::new();
    let consumed = layout_day(&day, &NOW, 512, &metrics, 0, &mut entries).unwrap();
    assert_eq!(consumed, 3);
    assert_eq!(entries.len(), 4);
}

#[test]
fn event_entry_geometry_inline_end_label() {
    let e = ev(ts(2020, 5, 30, 10, 0), Some(ts(2020, 5, 30, 11, 0)), "talk");
    let entry = layout_single_event(&e, &NOW, m(40, 20, 16), Some(m(30, 12, 10)), m(300, 30, 24))
        .unwrap();
    // End offset 36+40 = 76; 76+30 < 139, so the label sits inline.
    assert_eq!(entry.renderable.bounds(), (460, 30));
    assert!(!entry.is_day_header);
    // The event has not ended at 08:00, so colors are the active ones.
    assert_eq!(entry.colors, [PAL_TIME, PAL_TEXT, PAL_TEXT, PAL_TEXT]);
}

#[test]
fn event_entry_geometry_wrapped_end_label() {
    let e = ev(ts(2020, 5, 30, 10, 0), Some(ts(2020, 5, 30, 11, 0)), "talk");
    let entry = layout_single_event(&e, &NOW, m(80, 20, 16), Some(m(30, 12, 10)), m(300, 30, 24))
        .unwrap();
    // End offset 36+80 = 116; 116+30 >= 139, so the label wraps below the
    // start label's baseline: height max(26, 20, 16+12, 30) = 30.
    assert_eq!(entry.renderable.bounds(), (460, 30));
}

#[test]
fn ended_events_use_dimmed_colors() {
    let late = Timestamp { date: d(2020, 5, 30), hour: 12, minute: 0 };
    let e = ev(ts(2020, 5, 30, 10, 0), Some(ts(2020, 5, 30, 11, 0)), "talk");
    let entry = layout_single_event(&e, &late, m(40, 20, 16), Some(m(30, 12, 10)), m(300, 30, 24))
        .unwrap();
    assert_eq!(entry.colors, [2, 1, 1, 1]);
}

#[test]
fn oversized_metrics_are_rejected() {
    let e = ev(ts(2020, 5, 30, 10, 0), None, "talk");
    let r = layout_single_event(&e, &NOW, m(40, 20, 16), None, m(0x40000, 30, 24));
    assert!(r.is_err());
}

#[test]
fn requests_follow_the_layout_order() {
    let day = CalendarDay {
        date: d(2020, 5, 30),
        events: vec![ev(ts(2020, 5, 30, 10, 0), Some(ts(2020, 5, 30, 11, 0)), "hello")],
    };
    let reqs = day_text_requests(&day, 512);
    assert_eq!(reqs.len(), 4);
    assert_eq!(reqs[0].text, "05/30 (土)");
    assert_eq!(reqs[0].font, FontKind::DayHeader);
    assert_eq!(reqs[0].wrap_width, 512);
    assert_eq!(reqs[0].max_lines, 1);
    assert_eq!(reqs[1].text, "10:00");
    assert_eq!(reqs[1].font, FontKind::Time);
    assert_eq!(reqs[1].wrap_width, 111);
    assert_eq!(reqs[2].text, "~11:00");
    assert_eq!(reqs[2].font, FontKind::EndTime);
    assert_eq!(reqs[3].text, "hello");
    assert_eq!(reqs[3].font, FontKind::EventInfo);
    assert_eq!(reqs[3].wrap_width, 788);
    assert_eq!(reqs[3].max_lines, 2);

    let empty = CalendarDay { date: d(2020, 5, 30), events: vec![] };
    let reqs = day_text_requests(&empty, 512);
    assert_eq!(reqs.len(), 2);
    assert_eq!(reqs[1].text, "【イベント情報がありません】");

    let all = text_requests(&vec![empty, day], 512);
    assert_eq!(all.len(), 6);
}

#[test]
fn scanline_table_covers_row_groups() {
    let day = CalendarDay { date: d(2020, 5, 30), events: vec![] };
    let metrics = vec![m(100, 30, 24), m(200, 40, 30)];
    let mut vdata = Vec::new();
    let tree = generate_variable_layout(&vec![day], &NOW, 512, &metrics, &mut vdata, 500).unwrap();
    // Heights 94 + 16 + 40 + 16.
    assert_eq!(tree.bounds(), (588, 166));
    assert_eq!(vdata.len(), 166);
    // Day-header rows carry their offset from the header's first row.
    assert_eq!(vdata[0].prev_day_header, 0);
    assert_eq!(vdata[0].col_info, RowColorInfo::DayHeader { offset: 0 });
    assert_eq!(vdata[93].col_info, RowColorInfo::DayHeader { offset: 93 });
    // The margin and filler rows carry the text palette tuple.
    assert_eq!(vdata[94].col_info, RowColorInfo::Colors([PAL_TEXT; 4]));
    assert_eq!(vdata[165].col_info, RowColorInfo::Colors([PAL_TEXT; 4]));
}

#[test]
fn scanline_table_truncates_at_the_budget() {
    // Content past the row budget is laid out but not represented.
    let day = CalendarDay { date: d(2020, 5, 30), events: vec![] };
    let metrics = vec![m(100, 30, 24), m(200, 40, 30)];
    let mut vdata = Vec::new();
    let tree = generate_variable_layout(&vec![day], &NOW, 512, &metrics, &mut vdata, 100).unwrap();
    assert_eq!(tree.bounds().1, 166);
    assert_eq!(vdata.len(), 100);
    assert_eq!(vdata[99].col_info, RowColorInfo::Colors([PAL_TEXT; 4]));
}

#[test]
fn second_day_header_resets_the_back_pointer() {
    let day = CalendarDay { date: d(2020, 5, 30), events: vec![] };
    let day2 = CalendarDay { date: d(2020, 5, 31), events: vec![] };
    let metrics = vec![m(100, 30, 24), m(200, 40, 30), m(100, 30, 24), m(200, 40, 30)];
    let mut vdata = Vec::new();
    generate_variable_layout(&vec![day, day2], &NOW, 512, &metrics, &mut vdata, 500).unwrap();
    assert_eq!(vdata.len(), 332);
    assert_eq!(vdata[165].prev_day_header, 0);
    assert_eq!(vdata[166].prev_day_header, 166);
    assert_eq!(vdata[166].col_info, RowColorInfo::DayHeader { offset: 0 });
    assert_eq!(vdata[331].prev_day_header, 166);
}

#[test]
fn full_layout_records_every_offset() {
    let setup = setup_environment(None, (1024, 1447), (512, 100)).unwrap();
    assert_eq!(setup.template.bounds(), (1024, 1447));
    assert_eq!(setup.day_header_template.bounds(), (512, 100));
    assert_eq!(setup.branch_name, "DEVEL");

    let day = CalendarDay { date: d(2020, 5, 30), events: vec![] };
    let metrics = vec![m(100, 30, 24), m(200, 40, 30)];
    let fl = compute_full_layout(
        &setup,
        &vec![day],
        &NOW,
        &metrics,
        "2020-05-30T08:00:00+09:00 DEVEL".to_owned(),
        m(300, 20, 16),
    )
    .unwrap();

    assert_eq!(fl.data.datastream_width, 104);
    assert_eq!(fl.data.datastream_height, 1447 - 222);
    assert_eq!(fl.data.day_header_tex_x, 792);
    assert_eq!(fl.data.day_header_tex_alpha_x, 872);
    assert_eq!(fl.data.day_header_true_width, 512);
    assert_eq!(fl.data.day_header_height, 100);
    assert_eq!(fl.data.header_tex_y, 254);
    assert_eq!(fl.data.footer_tex_y, 911);
    assert_eq!(fl.data.bg_sample_y, 1109);
    assert_eq!(fl.data.scroll_tex_y, 1205);
    assert_eq!(fl.tex_height, 168);
    assert_eq!(fl.data.scroll_height, 56);
    assert_eq!(fl.event_tree.bounds(), (588, 166));
    assert_eq!(fl.layout.bounds().1, 1261);
    assert_eq!(fl.data.vdata.len(), 166);
    // The whole record must be encodable.
    assert!(fl.data.encode().is_ok());
}

#[test]
fn event_subtree_structure() {
    // An already-ended event: dimmed marker and label colors.
    let late = ts(2020, 5, 30, 12, 0);
    let e = ev(ts(2020, 5, 30, 10, 0), Some(ts(2020, 5, 30, 11, 0)), "talk");
    let entry =
        layout_single_event(&e, &late, m(40, 20, 16), Some(m(30, 12, 10)), m(300, 30, 24)).unwrap();
    match &entry.renderable.0.kind {
        NodeKind::Group { children } => {
            assert_eq!(children.len(), 4);
            match &children[0].0.kind {
                NodeKind::Translate { child, dx, dy } => {
                    assert_eq!((*dx, *dy), (0, 10));
                    match &child.0.kind {
                        NodeKind::Marker { is_ended } => assert!(*is_ended),
                        _ => panic!("expected the marker"),
                    }
                },
                _ => panic!("expected a placed marker"),
            }
            match &children[1].0.kind {
                NodeKind::Translate { child, dx, dy } => {
                    assert_eq!((*dx, *dy), (36, 0));
                    match &child.0.kind {
                        NodeKind::Text { text, color, .. } => {
                            assert_eq!(text, "10:00");
                            // The dimmed time color of an ended event.
                            assert_eq!(*color, (0x7D, 0x8D, 0x93));
                        },
                        _ => panic!("expected the start label"),
                    }
                },
                _ => panic!("expected a placed start label"),
            }
            // Inline end label at 36+40, aligned to the start baseline.
            match &children[2].0.kind {
                NodeKind::Translate { child, dx, dy } => {
                    assert_eq!((*dx, *dy), (76, 6));
                    match &child.0.kind {
                        NodeKind::Text { text, .. } => assert_eq!(text, "~11:00"),
                        _ => panic!("expected the end label"),
                    }
                },
                _ => panic!("expected a placed end label"),
            }
            match &children[3].0.kind {
                NodeKind::Translate { child, dx, dy } => {
                    assert_eq!((*dx, *dy), (160, 0));
                    match &child.0.kind {
                        NodeKind::Text { text, .. } => assert_eq!(text, "talk"),
                        _ => panic!("expected the description"),
                    }
                },
                _ => panic!("expected a placed description"),
            }
        },
        _ => panic!("expected the event group"),
    }
}

#[test]
fn event_without_end_gets_blank_stand_in() {
    let e = ev(ts(2020, 5, 30, 10, 0), None, "talk");
    let entry = layout_single_event(&e, &NOW, m(40, 20, 16), None, m(300, 30, 24)).unwrap();
    match &entry.renderable.0.kind {
        NodeKind::Group { children } => match &children[2].0.kind {
            NodeKind::Translate { child, dx, dy } => {
                assert_eq!((*dx, *dy), (76, 16));
                assert_eq!(child.0.width, 0);
                assert_eq!(child.0.height, 0);
            },
            _ => panic!("expected a placed blank"),
        },
        _ => panic!("expected the event group"),
    }
}

#[test]
fn day_header_subtree_structure() {
    let day = CalendarDay { date: d(2020, 5, 30), events: vec![] };
    let metrics = vec![m(100, 30, 24), m(200, 40, 30)];
    let mut entries = Vec::new();
    layout_day(&day, &NOW, 512, &metrics, 0, &mut entries).unwrap();
    match &entries[0].renderable.0.kind {
        NodeKind::Column { children } => {
            assert_eq!(children.len(), 2);
            match &children[0].0.kind {
                NodeKind::Translate { child, dx, dy } => {
                    // Centered: 23 + (930 - 100) / 2 and (95 - 30) / 2.
                    assert_eq!((*dx, *dy), (438, 32));
                    match &child.0.kind {
                        NodeKind::Text { text, color, .. } => {
                            assert_eq!(text, "05/30 (土)");
                            assert_eq!(*color, (0xEF, 0xD4, 0xA5));
                        },
                        _ => panic!("expected the title"),
                    }
                },
                _ => panic!("expected a placed title"),
            }
            match &children[1].0.kind {
                NodeKind::Pad => {
                    assert_eq!(children[1].0.height, 32);
                },
                _ => panic!("expected the blank space below the title"),
            }
        },
        _ => panic!("expected the header column"),
    }
}
