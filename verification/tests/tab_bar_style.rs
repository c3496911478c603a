use herdr::geometry::Rect;
use herdr::shell_tab_bar::{
    render_tab_bar, RunStyle, TabBarAlign, TabBarConfig, TabBarState, TabBarStyle, TextRun,
};
use herdr::tab_strip::{
    tab_drop_indicator_x, ClientShellTab, ClientShellTabStatusSegment, TabBarSnapshot, TabHits,
    MIN_TAB_WIDTH,
};

/// Columns the test shell gives its sidebar; the tab bar spans the rest.
const SIDEBAR: u16 = 20;

fn minimal_config(align: TabBarAlign, title: bool) -> TabBarConfig {
    TabBarConfig {
        style: TabBarStyle::Minimal,
        align,
        title,
        mouse_capture: true,
    }
}

fn tab(number: usize, focused: bool) -> ClientShellTab {
    ClientShellTab {
        tab_id: format!("tab_{number}"),
        workspace_id: "ws_1".into(),
        number,
        label: number.to_string(),
        custom_label: false,
        zoomed: false,
        focused,
    }
}

fn tabs_snapshot(count: usize) -> TabBarSnapshot {
    TabBarSnapshot {
        focused_workspace_id: Some("ws_1".into()),
        tabs: (1..=count).map(|number| tab(number, number == 1)).collect(),
        tab_bar_right: Vec::new(),
        tab_bar_right_separator: " ".into(),
    }
}

fn bar(width: u16) -> Rect {
    Rect::new(SIDEBAR, 0, width - SIDEBAR, 1)
}

struct Composed {
    bar: Rect,
    hits: TabHits,
    runs: Vec<TextRun>,
}

fn compose(
    snapshot: &TabBarSnapshot,
    config: TabBarConfig,
    state: &mut TabBarState,
    width: u16,
    insert: Option<usize>,
) -> Composed {
    let bar = bar(width);
    let mut hits = TabHits::default();
    let mut runs = Vec::new();
    render_tab_bar(bar, snapshot, config, state, insert, false, &mut hits, &mut runs);
    Composed { bar, hits, runs }
}

fn fresh_state() -> TabBarState {
    TabBarState {
        tab_scroll: 0,
        reveal_focused_tab: true,
    }
}

/// The bar's row as a terminal would show it, one character per cell.
fn bar_text(composed: &Composed) -> String {
    let bar = composed.bar;
    let mut cells = vec![' '; bar.width as usize];
    for run in &composed.runs {
        for (offset, c) in run.text.chars().take(run.width as usize).enumerate() {
            let x = run.x as usize + offset;
            if x >= bar.x as usize && x < bar.right() as usize {
                cells[x - bar.x as usize] = c;
            }
        }
    }
    cells.into_iter().collect()
}

fn run_at(composed: &Composed, rect: Rect) -> &TextRun {
    composed
        .runs
        .iter()
        .find(|run| run.x == rect.x && run.y == rect.y)
        .expect("a run starts at the slot")
}

#[test]
fn minimal_tab_bar_right_aligns_glyph_slots_without_chrome_buttons() {
    let mut state = fresh_state();
    let out = compose(
        &tabs_snapshot(3),
        minimal_config(TabBarAlign::Right, false),
        &mut state,
        106,
        None,
    );

    let rects = out.hits.tabs.iter().map(|(rect, _)| *rect).collect::<Vec<_>>();
    assert_eq!(rects.len(), 3);
    assert!(rects.iter().all(|rect| rect.width == 2));
    for pair in rects.windows(2) {
        assert_eq!(pair[0].right(), pair[1].x);
    }
    assert_eq!(rects[2].right(), out.bar.right());
    assert_eq!(state.tab_scroll, 0);
    assert_eq!(out.hits.new_tab, Rect::default());
    assert_eq!(out.hits.tab_scroll_left, Rect::default());
    assert_eq!(out.hits.tab_scroll_right, Rect::default());
}

#[test]
fn minimal_tab_bar_left_aligns_from_the_bar_start() {
    let mut state = fresh_state();
    let out = compose(
        &tabs_snapshot(3),
        minimal_config(TabBarAlign::Left, false),
        &mut state,
        106,
        None,
    );

    assert_eq!(out.hits.tabs[0].0.x, out.bar.x);
    assert_eq!(out.hits.tabs[2].0.right(), out.bar.x + 6);
}

#[test]
fn minimal_tab_bar_colors_the_focused_marker_with_the_accent() {
    let mut state = fresh_state();
    let out = compose(
        &tabs_snapshot(2),
        minimal_config(TabBarAlign::Right, false),
        &mut state,
        106,
        None,
    );

    let active = run_at(&out, out.hits.tabs[0].0);
    assert_eq!(active.text, "\u{F09DE}");
    assert_eq!(active.style, RunStyle::Marker { focused: true });

    let inactive = run_at(&out, out.hits.tabs[1].0);
    assert_eq!(inactive.text, "\u{EABC}");
    assert_eq!(inactive.style, RunStyle::Marker { focused: false });
}

#[test]
fn minimal_glyph_only_slots_hide_labels_and_the_zoom_marker() {
    let mut projected = tabs_snapshot(1);
    projected.tabs[0].label = "logs".into();
    projected.tabs[0].zoomed = true;
    let mut state = fresh_state();
    let out = compose(
        &projected,
        minimal_config(TabBarAlign::Right, false),
        &mut state,
        106,
        None,
    );

    let row = bar_text(&out);
    assert!(!row.contains("logs"), "glyph-only strip drew a label: {row:?}");
    assert!(!row.contains('Z'), "glyph-only strip drew zoom: {row:?}");
    assert_eq!(out.hits.tabs[0].0.width, 2);
}

#[test]
fn minimal_titled_slots_render_the_label_and_zoom_marker() {
    let mut projected = tabs_snapshot(1);
    projected.tabs[0].label = "logs".into();
    projected.tabs[0].zoomed = true;
    let mut state = fresh_state();
    let out = compose(
        &projected,
        minimal_config(TabBarAlign::Right, true),
        &mut state,
        106,
        None,
    );

    let row = bar_text(&out);
    assert!(
        row.contains("\u{F09DE} logs Z"),
        "titled strip should draw the glyph and label: {row:?}"
    );
    assert_eq!(out.hits.tabs[0].0.width, 9);
    assert_eq!(out.hits.tabs[0].0.right(), out.bar.right());
}

#[test]
fn minimal_tab_bar_overflow_packs_from_the_left_and_clamps_scroll() {
    let snapshot = tabs_snapshot(40);
    let config = minimal_config(TabBarAlign::Right, false);
    let mut state = fresh_state();
    let out = compose(&snapshot, config, &mut state, 60, None);

    assert!(out.hits.tabs.len() < 40);
    assert_eq!(out.hits.tabs[0].0.x, out.bar.x);
    assert!(out.hits.tabs.iter().any(|(_, tab_id)| tab_id == "tab_1"));

    state.tab_scroll = usize::MAX;
    state.reveal_focused_tab = false;
    let out = compose(&snapshot, config, &mut state, 60, None);
    assert!(state.tab_scroll < 40);
    assert_eq!(out.hits.tabs[0].0.x, out.bar.x);
    assert_eq!(out.hits.tabs.last().expect("visible tab").1, "tab_40");

    let out = compose(&snapshot, config, &mut state, 300, None);
    assert_eq!(state.tab_scroll, 0);
    assert_eq!(out.hits.tabs.len(), 40);
}

#[test]
fn minimal_tab_bar_right_aligns_against_the_status_segments() {
    let mut projected = tabs_snapshot(3);
    projected.tab_bar_right = vec![ClientShellTabStatusSegment {
        text: "ZOOM".into(),
        accent: true,
    }];
    let mut state = fresh_state();
    let out = compose(
        &projected,
        minimal_config(TabBarAlign::Right, false),
        &mut state,
        106,
        None,
    );

    assert!(bar_text(&out).ends_with("ZOOM"));
    assert_eq!(
        out.hits.tabs.last().expect("last tab").0.right(),
        out.bar.right() - 5
    );
}

#[test]
fn minimal_tab_bar_click_wheel_and_drag_reorder_by_stable_id() {
    let snapshot = tabs_snapshot(3);
    let config = minimal_config(TabBarAlign::Right, false);
    let mut state = fresh_state();
    let out = compose(&snapshot, config, &mut state, 106, None);
    let ids = out
        .hits
        .tabs
        .iter()
        .map(|(_, tab_id)| tab_id.as_str())
        .collect::<Vec<_>>();
    assert_eq!(ids, vec!["tab_1", "tab_2", "tab_3"]);
    assert_eq!(state.tab_scroll, 0);

    // Dragging the first tab past the third inserts it at the end.
    let third = out.hits.tabs[2].0;
    assert_eq!(
        tab_drop_indicator_x(&out.hits, &snapshot.tabs, 3),
        Some(third.right())
    );
    let dragging = compose(&snapshot, config, &mut state, 106, Some(3));
    assert!(bar_text(&dragging).contains('│'));
}

#[test]
fn minimal_tab_bar_drag_during_overflow_targets_a_visible_marker() {
    let snapshot = tabs_snapshot(40);
    let mut state = fresh_state();
    let out = compose(
        &snapshot,
        minimal_config(TabBarAlign::Right, false),
        &mut state,
        60,
        None,
    );
    let fifth = out.hits.tabs[4].0;

    assert_eq!(out.hits.tabs[4].1, "tab_5");
    assert_eq!(
        tab_drop_indicator_x(&out.hits, &snapshot.tabs, 4),
        Some(fifth.x - 1)
    );
}

#[test]
fn minimal_tab_bar_keeps_hits_without_mouse_chrome() {
    let mut config = minimal_config(TabBarAlign::Right, false);
    config.mouse_capture = false;
    let mut state = fresh_state();
    let out = compose(&tabs_snapshot(2), config, &mut state, 106, None);

    assert_eq!(out.hits.tabs.len(), 2);
    assert_eq!(out.hits.tabs[1].0.right(), out.bar.right());
    assert_eq!(out.hits.tabs[1].1, "tab_2");
}

#[test]
fn classic_tab_bar_ignores_the_minimal_alignment_and_title_keys() {
    let config = TabBarConfig {
        style: TabBarStyle::Classic,
        align: TabBarAlign::Right,
        title: true,
        mouse_capture: true,
    };
    let mut state = fresh_state();
    let out = compose(&tabs_snapshot(2), config, &mut state, 106, None);

    assert_eq!(out.hits.tabs[0].0.x, out.bar.x);
    assert!(out.hits.tabs[0].0.width >= MIN_TAB_WIDTH);
    assert!(out.hits.new_tab.width > 0);
    let row = bar_text(&out);
    assert!(!row.contains('\u{F09DE}'), "classic drew a marker: {row:?}");
    assert!(!row.contains('\u{EABC}'), "classic drew a marker: {row:?}");
}

#[test]
fn classic_overflow_shows_scroll_buttons_and_runs_cover_the_tabs() {
    let config = TabBarConfig {
        style: TabBarStyle::Classic,
        align: TabBarAlign::Left,
        title: false,
        mouse_capture: true,
    };
    let mut state = fresh_state();
    let out = compose(&tabs_snapshot(10), config, &mut state, 60, None);
    let bar = out.bar;

    assert_eq!(out.hits.tab_scroll_left, Rect::new(bar.x, bar.y, 3, 1));
    assert_eq!(out.hits.new_tab, Rect::new(bar.right() - 3, bar.y, 3, 1));
    assert_eq!(out.hits.tab_scroll_right, Rect::new(bar.right() - 6, bar.y, 3, 1));
    assert_eq!(out.runs[0].text, " < ");
    assert_eq!(out.runs[0].style, RunStyle::ScrollButton { enabled: false });
    assert!(out.hits.tabs.len() < 10);
    // After the left button, each tab's run is painted over its hit area.
    for (k, (rect, _)) in out.hits.tabs.iter().enumerate() {
        let run = &out.runs[1 + k];
        assert_eq!((run.x, run.y, run.width), (rect.x, rect.y, rect.width));
    }
    // More tabs follow on the right, so the right button is live and an
    // ellipsis marks them.
    assert!(out.runs.iter().any(|r| r.text == " > " && r.style == RunStyle::ScrollButton { enabled: true }));
    assert!(out.runs.iter().any(|r| r.text == "…"));
}

#[test]
fn status_segments_are_separated_and_accented() {
    let mut projected = tabs_snapshot(1);
    projected.tab_bar_right = vec![
        ClientShellTabStatusSegment { text: "main".into(), accent: false },
        ClientShellTabStatusSegment { text: "ZOOM".into(), accent: true },
    ];
    projected.tab_bar_right_separator = " | ".into();
    let mut state = fresh_state();
    let out = compose(&projected, minimal_config(TabBarAlign::Left, false), &mut state, 106, None);
    assert!(bar_text(&out).ends_with("main | ZOOM"));
    let zoom = out.runs.iter().find(|r| r.text == "ZOOM").expect("segment run");
    assert_eq!(zoom.style, RunStyle::StatusSegment { accent: true });
    assert_eq!(zoom.x + zoom.width, out.bar.right());
    assert!(out.runs.iter().any(|r| r.text == " | " && r.style == RunStyle::StatusSeparator));
}

#[test]
fn a_classic_bar_may_span_the_whole_coordinate_space() {
    let config = TabBarConfig {
        style: TabBarStyle::Classic,
        align: TabBarAlign::Left,
        title: false,
        mouse_capture: true,
    };
    let snapshot = tabs_snapshot(3);
    let mut state = fresh_state();
    let mut hits = TabHits::default();
    let mut runs = Vec::new();
    let area = Rect::new(0, 0, u16::MAX, 1);
    render_tab_bar(area, &snapshot, config, &mut state, None, false, &mut hits, &mut runs);
    assert_eq!(state.tab_scroll, 0);
    assert_eq!(hits.tabs.len(), 3);
    for pair in hits.tabs.windows(2) {
        assert_eq!(pair[1].0.x, pair[0].0.right() + 1);
    }
    assert_eq!(hits.tabs[0].0.x, 0);
    assert_eq!(hits.tabs[2].1, "tab_3");
}
