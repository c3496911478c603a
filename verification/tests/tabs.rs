use herdr::shell_tab_bar::{run_paint, RunStyle};
use herdr::tab_bar_view::marker_color;
use herdr::tab_strip::{
    centered_tab_scroll, last_visible_tab, max_tab_scroll, minimal_marker, minimal_slot_width,
    ClientShellTab, TAB_MARKER_ACTIVE, TAB_MARKER_INACTIVE,
};
use herdr::text::display_width;
use herdr::widgets::{Color, PaintStyle, Palette};

fn tab(label: &str, zoomed: bool) -> ClientShellTab {
    ClientShellTab {
        tab_id: "tab_1".into(),
        workspace_id: "ws_1".into(),
        number: 1,
        label: label.into(),
        custom_label: false,
        zoomed,
        focused: false,
    }
}

#[test]
fn minimal_markers_occupy_a_single_cell() {
    assert_eq!(display_width(&TAB_MARKER_ACTIVE.to_string()), 1);
    assert_eq!(display_width(&TAB_MARKER_INACTIVE.to_string()), 1);
}

#[test]
fn minimal_slot_width_covers_the_glyph_and_optional_label() {
    assert_eq!(minimal_slot_width(&tab("logs", false), false), 2);
    assert_eq!(minimal_slot_width(&tab("logs", true), false), 2);
    assert_eq!(minimal_slot_width(&tab("logs", false), true), 7);
    assert_eq!(minimal_slot_width(&tab("logs", true), true), 9);
}

#[test]
fn tab_scroll_helpers_follow_the_style_gap() {
    assert_eq!(last_visible_tab(0, &[8, 8, 8], 17, 1), Some(1));
    assert_eq!(last_visible_tab(0, &[8, 8, 8], 17, 0), Some(2));
    assert_eq!(max_tab_scroll(&[2; 5], 6, 0), 2);
    assert_eq!(max_tab_scroll(&[2; 5], 6, 1), 3);
    assert_eq!(centered_tab_scroll(4, &[2; 5], 6, 0), 3);
}

fn palette() -> Palette {
    Palette {
        panel_bg: Color::Reset,
        surface_dim: Color::Indexed(236),
        surface0: Color::Black,
        overlay0: Color::DarkGray,
        overlay1: Color::Gray,
        accent: Color::Blue,
        yellow: Color::Yellow,
    }
}

#[test]
fn minimal_markers_take_the_accent_only_when_focused() {
    let mut focused = tab("logs", false);
    focused.focused = true;
    assert_eq!(minimal_marker(&focused, &palette()), (TAB_MARKER_ACTIVE, Color::Blue));
    assert_eq!(minimal_marker(&tab("logs", false), &palette()), (TAB_MARKER_INACTIVE, Color::Gray));
}

#[test]
fn run_roles_pick_their_palette_colours() {
    let p = palette();
    assert_eq!(
        run_paint(RunStyle::FocusedTab { prefix_highlight: true, bold: true }, &p),
        PaintStyle { fg: Some(Color::Indexed(236)), bg: Some(Color::Yellow), bold: true, dim: false }
    );
    assert_eq!(
        run_paint(RunStyle::AutoTab, &p),
        PaintStyle { fg: Some(Color::DarkGray), bg: Some(Color::Black), bold: false, dim: true }
    );
    assert_eq!(
        run_paint(RunStyle::ScrollButton { enabled: true }, &p).fg,
        Some(Color::Gray)
    );
    assert_eq!(
        run_paint(RunStyle::Marker { focused: true }, &p),
        PaintStyle { fg: Some(Color::Blue), bg: Some(Color::Reset), bold: false, dim: false }
    );
    assert_eq!(run_paint(RunStyle::Ellipsis, &p).bg, None);
    assert!(run_paint(RunStyle::StatusSegment { accent: true }, &p).bold);
}

#[test]
fn marker_colours_follow_the_prefix_highlight() {
    let p = palette();
    assert_eq!(marker_color(true, false, &p), Color::Blue);
    assert_eq!(marker_color(true, true, &p), Color::Yellow);
    assert_eq!(marker_color(false, true, &p), Color::Gray);
}

#[test]
fn centring_on_a_tab_and_clamping_the_scroll_keeps_that_tab_visible() {
    let widths = [8u16, 3, 12, 5, 9, 1, 14, 6, 7, 2];
    for gap in [0u16, 1] {
        for available in [1u16, 7, 13, 20, 33] {
            for focused in 0..widths.len() {
                let centered = centered_tab_scroll(focused, &widths, available, gap);
                let scroll = centered.min(max_tab_scroll(&widths, available, gap));
                assert!(scroll <= focused);
                let last = last_visible_tab(scroll, &widths, available, gap).expect("a visible tab");
                assert!(focused <= last, "gap {gap}, room {available}, tab {focused}");
            }
        }
    }
}
