use herdr::geometry::Rect;
use herdr::widgets::{
    action_button_width, centered_popup_rect, close_button_rect, continue_button_rect,
    modal_stack_areas, modal_stack_constraints, modal_stack_from_split, LayoutConstraint as L, panel_contrast_fg, repair_wide_grapheme_edges, CellGrid, Color, GridCell,
    Palette,
};

/// A grid of blank cells covering `area`.
fn grid(area: Rect) -> CellGrid {
    let cells = (0..area.width as usize * area.height as usize)
        .map(|_| GridCell { symbol: " ".to_owned(), wide_head: false })
        .collect();
    CellGrid { area, cells }
}

fn cell_mut(grid: &mut CellGrid, x: u16, y: u16) -> &mut GridCell {
    let i = (y - grid.area.y) as usize * grid.area.width as usize + (x - grid.area.x) as usize;
    &mut grid.cells[i]
}

fn set_symbol(grid: &mut CellGrid, x: u16, y: u16, symbol: &str) {
    let cell = cell_mut(grid, x, y);
    cell.symbol = symbol.to_owned();
    cell.wide_head = false;
}

/// Writes a double-width grapheme as the terminal renderer does: the glyph
/// on the head cell and an empty symbol on the continuation cell.
fn set_wide(grid: &mut CellGrid, x: u16, y: u16, symbol: &str) {
    let head = cell_mut(grid, x, y);
    head.symbol = symbol.to_owned();
    head.wide_head = true;
    set_symbol(grid, x + 1, y, "");
}

fn set_string(grid: &mut CellGrid, x: u16, y: u16, text: &str) {
    for (offset, c) in text.chars().enumerate() {
        set_symbol(grid, x + offset as u16, y, &c.to_string());
    }
}

fn symbol_at(grid: &CellGrid, x: u16, y: u16) -> String {
    let i = (y - grid.area.y) as usize * grid.area.width as usize + (x - grid.area.x) as usize;
    grid.cells[i].symbol.clone()
}

#[test]
fn blanks_a_wide_head_whose_second_column_the_rect_took() {
    let mut buffer = grid(Rect::new(0, 0, 10, 2));
    set_wide(&mut buffer, 3, 0, "あ");
    // Row 1 keeps a narrow neighbour to prove untouched columns survive.
    set_symbol(&mut buffer, 3, 1, "x");
    let rect = Rect::new(4, 0, 4, 2);
    set_string(&mut buffer, 4, 0, "····");
    set_string(&mut buffer, 4, 1, "····");

    repair_wide_grapheme_edges(&mut buffer, rect);

    assert_eq!(symbol_at(&buffer, 3, 0), " ");
    assert_eq!(symbol_at(&buffer, 3, 1), "x");
}

#[test]
fn blanks_a_continuation_whose_head_the_rect_took() {
    let mut buffer = grid(Rect::new(0, 0, 10, 1));
    // The head at column 6 is inside the rect and has been overwritten by
    // it; only the continuation at column 7 is left behind.
    set_wide(&mut buffer, 6, 0, "い");
    let rect = Rect::new(3, 0, 4, 1);
    set_string(&mut buffer, 3, 0, "····");

    repair_wide_grapheme_edges(&mut buffer, rect);

    assert_eq!(symbol_at(&buffer, 7, 0), " ");
}

#[test]
fn blanks_a_wide_head_the_rect_left_in_its_last_column() {
    let mut buffer = grid(Rect::new(0, 0, 10, 1));
    // A clipped copy can end on a head whose second column was never
    // written, so the glyph would paint over content the rect does not own.
    set_wide(&mut buffer, 6, 0, "う");

    repair_wide_grapheme_edges(&mut buffer, Rect::new(3, 0, 4, 1));

    assert_eq!(symbol_at(&buffer, 6, 0), " ");
    assert_eq!(symbol_at(&buffer, 7, 0), " ");
}

#[test]
fn leaves_a_trailing_wide_head_alone_at_the_buffer_edge() {
    let mut buffer = grid(Rect::new(0, 0, 6, 1));
    set_wide(&mut buffer, 4, 0, "え");

    repair_wide_grapheme_edges(&mut buffer, Rect::new(0, 0, 6, 1));

    // There is no neighbouring content to corrupt, and the terminal clips
    // a trailing glyph itself.
    assert_eq!(symbol_at(&buffer, 4, 0), "え");
    assert_eq!(symbol_at(&buffer, 5, 0), "");
}

#[test]
fn empty_rects_are_a_no_op() {
    let mut buffer = grid(Rect::new(0, 0, 6, 1));
    set_wide(&mut buffer, 1, 0, "お");

    repair_wide_grapheme_edges(&mut buffer, Rect::new(3, 0, 0, 1));

    assert_eq!(symbol_at(&buffer, 1, 0), "お");
}

#[test]
fn repair_only_touches_the_rows_of_the_rect() {
    let mut buffer = grid(Rect::new(0, 0, 10, 3));
    set_wide(&mut buffer, 3, 0, "か");
    set_wide(&mut buffer, 3, 2, "き");
    repair_wide_grapheme_edges(&mut buffer, Rect::new(4, 1, 3, 1));
    assert_eq!(symbol_at(&buffer, 3, 0), "か");
    assert_eq!(symbol_at(&buffer, 3, 2), "き");
}

#[test]
fn popups_are_centred_with_a_margin() {
    let area = Rect::new(10, 5, 40, 20);
    assert_eq!(centered_popup_rect(area, 20, 10), Some(Rect::new(20, 10, 20, 10)));
    // Clamped to the area minus two columns each side and a row above and below.
    assert_eq!(centered_popup_rect(area, 100, 100), Some(Rect::new(12, 6, 36, 18)));
    assert_eq!(centered_popup_rect(Rect::new(0, 0, 7, 20), 20, 10), None);
    assert_eq!(centered_popup_rect(Rect::new(0, 0, 40, 5), 20, 10), None);
}

#[test]
fn action_buttons_size_to_their_text() {
    assert_eq!(action_button_width(Some("esc"), "close"), 11);
    assert_eq!(action_button_width(Some("↵"), "continue"), 12);
    assert_eq!(action_button_width(None, "ok"), 4);
    let area = Rect::new(5, 3, 30, 4);
    assert_eq!(close_button_rect(area), Rect::new(24, 3, 11, 1));
    assert_eq!(continue_button_rect(area), Rect::new(5, 3, 12, 1));
}

#[test]
fn panel_contrast_falls_back_to_the_dim_surface() {
    let mut palette = Palette {
        panel_bg: Color::Reset,
        surface_dim: Color::Indexed(236),
        surface0: Color::Black,
        overlay0: Color::DarkGray,
        overlay1: Color::Gray,
        accent: Color::Blue,
        yellow: Color::Yellow,
    };
    assert_eq!(panel_contrast_fg(&palette), Color::Indexed(236));
    palette.panel_bg = Color::Rgb(30, 30, 46);
    assert_eq!(panel_contrast_fg(&palette), Color::Rgb(30, 30, 46));
}

#[test]
fn modal_stacks_split_header_content_footer_and_actions() {
    let inner = Rect::new(2, 1, 20, 12);
    let areas = modal_stack_areas(inner, 2, 1, 1, 1);
    assert_eq!(areas.header, Rect::new(2, 1, 20, 2));
    assert_eq!(areas.content, Rect::new(2, 4, 20, 5));
    assert_eq!(areas.footer, Some(Rect::new(2, 10, 20, 1)));
    assert_eq!(areas.actions, Some(Rect::new(2, 12, 20, 1)));

    let bare = modal_stack_areas(inner, 2, 0, 0, 1);
    assert_eq!(bare.content, Rect::new(2, 4, 20, 9));
    assert_eq!(bare.footer, None);
    assert_eq!(bare.actions, None);
}

/// Rows of double-width graphemes on both column parities, so that any
/// rectangle cuts some grapheme in half at each of its vertical edges.
fn wide_background(cols: u16, rows: u16) -> CellGrid {
    let mut background = grid(Rect::new(0, 0, cols, rows));
    for y in 0..rows {
        let mut x = y % 2;
        while x + 1 < cols {
            set_wide(&mut background, x, y, "あ");
            x += 2;
        }
    }
    background
}

#[test]
fn repaired_edges_strand_no_wide_grapheme_half() {
    for x in 0..8u16 {
        for width in 1..6u16 {
            let rect = Rect::new(x, 1, width, 2);
            let before = wide_background(12, 4);
            let mut buffer = before.clone();
            repair_wide_grapheme_edges(&mut buffer, rect);
            let at = |g: &CellGrid, cx: u16, cy: u16| g.cells[cy as usize * 12 + cx as usize].clone();
            for y in 0..4u16 {
                for cx in 0..12u16 {
                    let on_rows = y >= 1 && y < 3;
                    let edge = cx + 1 == x || cx + 1 == x + width || cx == x + width;
                    if !(on_rows && edge) {
                        assert_eq!(at(&buffer, cx, y), at(&before, cx, y));
                    }
                }
                if y >= 1 && y < 3 {
                    if x > 0 {
                        assert!(!at(&buffer, x - 1, y).wide_head);
                    }
                    if x + width < 12 {
                        assert!(!at(&buffer, x + width - 1, y).wide_head);
                        assert!(!at(&buffer, x + width, y).symbol.is_empty());
                    }
                }
            }
        }
    }
}

#[test]
fn modal_stacks_take_every_other_area_of_the_split() {
    let rows: Vec<Rect> = (0..7u16).map(|i| Rect::new(0, i, 10, 1)).collect();
    let full = modal_stack_from_split(&rows, 1, 1);
    assert_eq!(full.header, rows[0]);
    assert_eq!(full.content, rows[2]);
    assert_eq!(full.footer, Some(rows[4]));
    assert_eq!(full.actions, Some(rows[6]));
    let no_footer = modal_stack_from_split(&rows[..5], 0, 3);
    assert_eq!(no_footer.footer, None);
    assert_eq!(no_footer.actions, Some(rows[4]));
    let bare = modal_stack_from_split(&rows[..3], 0, 0);
    assert_eq!((bare.footer, bare.actions), (None, None));
}

#[test]
fn modal_stack_areas_are_full_width_row_bands_of_the_inner_area() {
    let inner = Rect::new(3, 2, 17, 5);
    let areas = modal_stack_areas(inner, 3, 2, 0, 1);
    for r in [areas.header, areas.content, areas.footer.unwrap()] {
        assert_eq!((r.x, r.width), (inner.x, inner.width));
        assert!(r.y >= inner.y && r.y + r.height <= inner.y + inner.height);
    }
    assert_eq!(areas.actions, None);
}

#[test]
fn modal_stack_constraints_put_the_header_first_and_the_content_next() {
    assert_eq!(
        modal_stack_constraints(2, 1, 3, 1),
        vec![L::Length(2), L::Length(1), L::Min(0), L::Length(1), L::Length(1), L::Length(1), L::Length(3)]
    );
    assert_eq!(modal_stack_constraints(2, 0, 0, 1), vec![L::Length(2), L::Length(1), L::Min(0)]);
    assert_eq!(
        modal_stack_constraints(4, 0, 2, 0),
        vec![L::Length(4), L::Length(0), L::Min(0), L::Length(0), L::Length(2)]
    );
}
