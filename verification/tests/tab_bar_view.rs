use herdr::geometry::Rect;
use herdr::shell_tab_bar::TabBarAlign;
use herdr::tab_bar_view::{
    compute, compute_tab_bar_view, render, render_tab_bar, slot_width, tab_chrome_label,
    total_width, TabBarPaint, TabDrag, WorkspaceTab, WorkspaceTabs,
};

fn auto_tab(number: usize) -> WorkspaceTab {
    WorkspaceTab { display_name: Some(number.to_string()), auto_named: true }
}

fn custom_tab(name: &str) -> WorkspaceTab {
    WorkspaceTab { display_name: Some(name.to_owned()), auto_named: false }
}

/// The row a painted bar shows: markers as glyphs (with titles when set),
/// the "+" button and the right-aligned name, one character per cell.
fn row_text(paint: &TabBarPaint, bar: Rect) -> String {
    let mut cells = vec![' '; bar.width as usize];
    let mut put = |x: u16, text: &str, width: u16| {
        for (offset, c) in text.chars().take(width as usize).enumerate() {
            let col = x as usize + offset;
            if col >= bar.x as usize && col < bar.right() as usize {
                cells[col - bar.x as usize] = c;
            }
        }
    };
    for marker in &paint.markers {
        let glyph = if marker.active { '\u{F09DE}' } else { '\u{EABC}' };
        let text = match &marker.title {
            Some(title) => format!("{glyph} {title}"),
            None => glyph.to_string(),
        };
        put(marker.rect.x, &text, marker.rect.width);
    }
    if let Some(rect) = paint.new_tab {
        put(rect.x, " + ", rect.width);
    }
    if let Some((rect, name)) = &paint.name {
        let width = name.chars().count() as u16;
        let x = rect.right().saturating_sub(width.min(rect.width));
        put(x, name, rect.width);
    }
    cells.into_iter().collect::<String>().trim_end().to_string()
}

fn marker_bar(ws: WorkspaceTabs, mouse: bool) -> (Vec<Rect>, Option<Rect>, TabBarPaint, Rect) {
    let bar = Rect::new(0, 0, 30, 1);
    let view = compute_tab_bar_view(&ws, bar, 0, true, mouse);
    let paint = render_tab_bar(bar, Some(0), &[ws], &view, mouse, None).expect("painted");
    let new_tab = if view.new_tab_hit_area.width > 0 {
        Some(view.new_tab_hit_area)
    } else {
        None
    };
    (view.tab_hit_areas, new_tab, paint, bar)
}

#[test]
fn tabs_tab_bar_does_not_mark_zoomed_tabs() {
    // Zoom is not part of this bar's model: a zoomed tab paints the same
    // marker, and the names stay as they are.
    let ws = WorkspaceTabs { tabs: vec![auto_tab(1), custom_tab("test")], active_tab: 0 };
    let (_, _, paint, bar) = marker_bar(ws.clone(), false);
    let row = row_text(&paint, bar);
    assert!(!row.contains('Z'), "zoom marker should not appear: {row:?}");
    assert_eq!(ws.tab_display_name(0).as_deref(), Some("1"));
    assert_eq!(ws.tab_display_name(1).as_deref(), Some("test"));
}

#[test]
fn tabs_tab_bar_renders_active_and_inactive_markers() {
    let ws = WorkspaceTabs { tabs: vec![auto_tab(1), custom_tab("logs")], active_tab: 0 };
    let (rects, _, paint, _) = marker_bar(ws, false);
    assert_eq!(paint.markers.len(), 2);
    assert_eq!(paint.markers[0].rect, rects[0]);
    assert!(paint.markers[0].active);
    assert_eq!(paint.markers[1].rect, rects[1]);
    assert!(!paint.markers[1].active);
}

#[test]
fn tab_bar_shows_active_custom_name_right_aligned() {
    let ws = WorkspaceTabs { tabs: vec![auto_tab(1), custom_tab("logs")], active_tab: 1 };
    let (_, new_tab, paint, bar) = marker_bar(ws, true);
    let row = row_text(&paint, bar);
    assert!(row.ends_with("logs"), "active name on the right: {row:?}");
    let (rect, name) = paint.name.expect("name region");
    assert_eq!(name, "logs");
    assert_eq!(rect.right(), bar.right());
    assert_eq!(rect.width, 5);
    assert!(new_tab.is_some());
}

#[test]
fn tabs_auto_named_active_tab_shows_no_name() {
    let ws = WorkspaceTabs { tabs: vec![auto_tab(1), auto_tab(2)], active_tab: 0 };
    let (_, _, paint, bar) = marker_bar(ws, false);
    let row = row_text(&paint, bar);
    assert!(!row.contains('1'), "auto-named tab should show no name: {row:?}");
    assert!(paint.name.is_none());
}

fn minimal_bar(ws: WorkspaceTabs, align: TabBarAlign, title: bool) -> (Vec<Rect>, TabBarPaint, Rect) {
    let bar = Rect::new(0, 0, 30, 1);
    let view = compute(&ws, bar, 0, true, align, title);
    assert_eq!(view.new_tab_hit_area, Rect::default());
    let paint = render(bar, Some(0), &[ws], &view, title, None).expect("painted");
    (view.tab_hit_areas, paint, bar)
}

#[test]
fn minimal_tab_bar_does_not_mark_zoomed_tabs() {
    let ws = WorkspaceTabs { tabs: vec![auto_tab(1), custom_tab("test")], active_tab: 0 };
    let (_, paint, bar) = minimal_bar(ws.clone(), TabBarAlign::Right, false);
    let row = row_text(&paint, bar);
    assert!(!row.contains('Z'), "zoom marker should not appear: {row:?}");
    assert_eq!(ws.tab_display_name(0).as_deref(), Some("1"));
    assert_eq!(ws.tab_display_name(1).as_deref(), Some("test"));
}

#[test]
fn minimal_tab_bar_renders_active_and_inactive_markers() {
    let ws = WorkspaceTabs { tabs: vec![auto_tab(1), custom_tab("logs")], active_tab: 0 };
    let (rects, paint, _) = minimal_bar(ws, TabBarAlign::Right, false);
    assert_eq!(paint.markers[0].rect, rects[0]);
    assert!(paint.markers[0].active);
    assert_eq!(paint.markers[1].rect, rects[1]);
    assert!(!paint.markers[1].active);
}

#[test]
fn tab_markers_are_right_aligned_with_a_trailing_gap() {
    let ws = WorkspaceTabs { tabs: vec![auto_tab(1), custom_tab("logs")], active_tab: 0 };
    let (rects, _, bar) = minimal_bar(ws, TabBarAlign::Right, false);
    let last = *rects.last().unwrap();
    assert_eq!(last.x + last.width, bar.x + bar.width);
}

#[test]
fn tab_markers_left_align_from_the_bar_start() {
    let ws = WorkspaceTabs { tabs: vec![auto_tab(1), custom_tab("logs")], active_tab: 0 };
    let (rects, _, bar) = minimal_bar(ws, TabBarAlign::Left, false);
    assert_eq!(rects.first().unwrap().x, bar.x);
}

#[test]
fn minimal_auto_named_active_tab_shows_no_name() {
    let ws = WorkspaceTabs { tabs: vec![auto_tab(1), auto_tab(2)], active_tab: 0 };
    let (_, paint, bar) = minimal_bar(ws, TabBarAlign::Right, false);
    let row = row_text(&paint, bar);
    assert!(!row.contains('1'), "tab title is hidden when tab_bar_title is off: {row:?}");
}

#[test]
fn tab_titles_render_names_when_enabled() {
    let ws = WorkspaceTabs { tabs: vec![custom_tab("logs")], active_tab: 0 };
    let (_, paint, bar) = minimal_bar(ws, TabBarAlign::Right, true);
    let row = row_text(&paint, bar);
    assert!(row.contains("logs"), "tab name should render alongside the glyph: {row:?}");
}

#[test]
fn chrome_labels_fall_back_to_the_tab_number() {
    let ws = WorkspaceTabs {
        tabs: vec![WorkspaceTab { display_name: None, auto_named: true }, custom_tab("logs")],
        active_tab: 0,
    };
    assert_eq!(tab_chrome_label(&ws, 0), "1");
    assert_eq!(tab_chrome_label(&ws, 1), "logs");
    assert_eq!(tab_chrome_label(&ws, 6), "7");
    assert_eq!(slot_width(&ws, 0, false), 2);
    assert_eq!(slot_width(&ws, 1, true), 7);
    assert_eq!(total_width(&ws, true), 4 + 7);
}

#[test]
fn overflowing_minimal_strip_keeps_the_active_tab_near_the_middle() {
    let tabs = (1..=40).map(auto_tab).collect::<Vec<_>>();
    let ws = WorkspaceTabs { tabs, active_tab: 30 };
    let bar = Rect::new(0, 0, 20, 1);
    let view = compute(&ws, bar, 0, true, TabBarAlign::Right, false);
    // Ten two-cell slots fit. Starting at 25 or 26 puts slot 30 equally
    // close to the middle; the later start wins the tie.
    assert_eq!(view.scroll, 26);
    let active = view.tab_hit_areas[30];
    assert_eq!(active.x, 8);
    assert!(view.tab_hit_areas[25].width == 0);
    // Without following, a too-large scroll clamps to the last full page.
    let view = compute(&ws, bar, 1000, false, TabBarAlign::Right, false);
    assert_eq!(view.scroll, 30);
    assert_eq!(view.tab_hit_areas[39].right(), 20);
}

#[test]
fn drop_indicator_tracks_the_insert_position() {
    let ws = WorkspaceTabs { tabs: vec![auto_tab(1), auto_tab(2), auto_tab(3)], active_tab: 0 };
    let bar = Rect::new(0, 0, 30, 1);
    let view = compute(&ws, bar, 0, false, TabBarAlign::Left, false);
    let drag = |insert| Some(TabDrag { ws_idx: 0, insert_idx: Some(insert) });
    let at = |insert| {
        render(bar, Some(0), &[ws.clone()], &view, false, drag(insert))
            .unwrap()
            .drop_indicator_x
    };
    assert_eq!(at(0), Some(0));
    assert_eq!(at(1), Some(1));
    assert_eq!(at(3), Some(6));
    // A drag in another workspace draws nothing here.
    let other = render(
        bar,
        Some(0),
        &[ws.clone()],
        &view,
        false,
        Some(TabDrag { ws_idx: 1, insert_idx: Some(1) }),
    )
    .unwrap();
    assert_eq!(other.drop_indicator_x, None);
}

#[test]
fn empty_bars_and_missing_workspaces_paint_nothing() {
    let ws = WorkspaceTabs { tabs: vec![auto_tab(1)], active_tab: 0 };
    let empty = Rect::new(0, 0, 0, 1);
    let view = compute_tab_bar_view(&ws, empty, 3, false, true);
    assert_eq!(view.scroll, 0);
    assert!(view.tab_hit_areas.is_empty());
    assert!(render_tab_bar(empty, Some(0), &[ws.clone()], &view, true, None).is_none());
    let bar = Rect::new(0, 0, 30, 1);
    assert!(render_tab_bar(bar, None, &[ws.clone()], &view, true, None).is_none());
    assert!(render_tab_bar(bar, Some(4), &[ws], &view, true, None).is_none());
}

#[test]
fn following_the_active_tab_always_keeps_its_marker_on_screen() {
    for active_tab in 0..40 {
        let tabs = (1..=40).map(auto_tab).collect::<Vec<_>>();
        let ws = WorkspaceTabs { tabs, active_tab };
        let bar = Rect::new(3, 2, 17, 1);
        let minimal = compute(&ws, bar, 0, true, TabBarAlign::Left, false);
        let slot = minimal.tab_hit_areas[active_tab];
        assert!(slot.width > 0, "minimal slot {active_tab} hidden");
        assert!(slot.x >= bar.x && slot.right() <= bar.right());
        let marker = compute_tab_bar_view(&ws, bar, 0, true, true);
        let slot = marker.tab_hit_areas[active_tab];
        assert!(slot.width > 0, "marker {active_tab} hidden");
        assert!(slot.x >= bar.x && slot.right() <= bar.right());
    }
}
