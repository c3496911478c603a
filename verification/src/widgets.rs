//! Geometry shared by the app's modal widgets: centred popups, the stacked
//! areas of a modal, the close and continue buttons, the foreground that
//! contrasts with panels, and the repair of wide graphemes cut by a
//! rectangle's edges.

use vstd::prelude::*;

use crate::geometry::{min, rect_new, right_of, sat_add, sat_sub, Rect};

verus! {

/// A terminal colour, as ratatui names them.
#[derive(Debug, Clone, Copy, PartialEq, Eq, Structural)]
pub enum Color {
    Reset,
    Black,
    Red,
    Green,
    Yellow,
    Blue,
    Magenta,
    Cyan,
    Gray,
    DarkGray,
    LightRed,
    LightGreen,
    LightYellow,
    LightBlue,
    LightMagenta,
    LightCyan,
    White,
    Rgb(u8, u8, u8),
    Indexed(u8),
}

/// The palette colours the app's chrome is drawn in.
#[derive(Debug, Clone, Copy, PartialEq, Eq, Structural)]
pub struct Palette {
    pub panel_bg: Color,
    pub surface_dim: Color,
    pub surface0: Color,
    pub overlay0: Color,
    pub overlay1: Color,
    pub accent: Color,
    pub yellow: Color,
}

/// How a piece of chrome is painted: its colours (unset ones keep what is
/// there) and its emphasis.
#[derive(Debug, Clone, Copy, PartialEq, Eq, Structural)]
pub struct PaintStyle {
    pub fg: Option<Color>,
    pub bg: Option<Color>,
    pub bold: bool,
    pub dim: bool,
}

/// The foreground that stands out on accent-coloured chrome: the panel
/// background, or the dim surface when the panel background is the
/// terminal's default.
pub open spec fn contrast_spec(palette: Palette) -> Color {
    if palette.panel_bg == Color::Reset {
        palette.surface_dim
    } else {
        palette.panel_bg
    }
}

/// The foreground that stands out on accent-coloured chrome: the panel
/// background, or the dim surface when the panel background is the
/// terminal's default.
pub fn panel_contrast_fg(palette: &Palette) -> (fg: Color)
    ensures
        fg == (if palette.panel_bg == Color::Reset {
            palette.surface_dim
        } else {
            palette.panel_bg
        }),
{
    match palette.panel_bg {
        Color::Reset => palette.surface_dim,
        color => color,
    }
}

/// A popup of at most `popup_width` x `popup_height`, centred in `area`
/// and leaving two columns on each side and one row above and below;
/// `None` when less than 4 x 4 would remain.
pub open spec fn centered_popup_spec(area: Rect, popup_width: u16, popup_height: u16) -> Option<Rect> {
    let w = min(popup_width as int, sat_sub(area.width as int, 4));
    let h = min(popup_height as int, sat_sub(area.height as int, 2));
    if w < 4 || h < 4 {
        None
    } else {
        Some(
            rect_new(
                (area.x + (area.width - w) / 2) as u16,
                (area.y + (area.height - h) / 2) as u16,
                w as u16,
                h as u16,
            ),
        )
    }
}

/// A popup centred in `area`, per [`centered_popup_spec`].
pub fn centered_popup_rect(area: Rect, popup_width: u16, popup_height: u16) -> (popup: Option<Rect>)
    requires
        area.x + area.width <= u16::MAX,
        area.y + area.height <= u16::MAX,
    ensures
        popup == centered_popup_spec(area, popup_width, popup_height),
{
    let max_width = area.width.saturating_sub(4);
    let popup_width = if popup_width < max_width {
        popup_width
    } else {
        max_width
    };
    let max_height = area.height.saturating_sub(2);
    let popup_height = if popup_height < max_height {
        popup_height
    } else {
        max_height
    };
    if popup_width < 4 || popup_height < 4 {
        return None;
    }
    Some(
        Rect::new(
            area.x + (area.width - popup_width) / 2,
            area.y + (area.height - popup_height) / 2,
            popup_width,
            popup_height,
        ),
    )
}

// ---------------------------------------------------------------------------
// Modal stacks
// ---------------------------------------------------------------------------

/// A constraint on one area of a layout.
#[derive(Debug, Clone, Copy, PartialEq, Eq, Structural)]
pub enum LayoutConstraint {
    /// Exactly this many cells.
    Length(u16),
    /// At least this many cells.
    Min(u16),
}

/// The bottom edge of `area`, saturating at `u16::MAX` (ratatui's
/// `Rect::bottom`).
pub open spec fn bottom_of(area: Rect) -> int {
    sat_add(area.y as int, area.height as int)
}

/// A row band of `area`: `area`'s full width at its left edge, with rows
/// inside `area`'s rows.
pub open spec fn row_band(r: Rect, area: Rect) -> bool {
    &&& r.x == area.x
    &&& r.width == area.width
    &&& area.y <= r.y
    &&& r.y + r.height <= bottom_of(area)
}

/// Splits `area` vertically with ratatui's `Layout::vertical(..).split(..)`.
///
/// The contract states what the source shows of every outcome: one area
/// per constraint, each a row band of `area` (its `x` and `width` are
/// copied from `area`; its start and end are solver variables that the
/// source requires, at required strength, to lie between `area`'s top and
/// bottom with the start not after the end). Which rows each area gets,
/// and their order, come from the solver's weighed optimum over
/// non-required constraints and are not stated. The solver error that the
/// source turns into a panic can only come from required constraints, and
/// those (fixed area ends, every variable inside them, each segment's start
/// at most its end) can always be met together.
#[verifier::external_body]
pub(crate) fn vertical_split(constraints: &Vec<LayoutConstraint>, area: Rect) -> (areas: Vec<Rect>)
    ensures
        areas@.len() == constraints@.len(),
        forall|i: int| 0 <= i < areas@.len() ==> row_band(#[trigger] areas@[i], area),
{
    let constraints = constraints.iter().map(|c| match *c {
        LayoutConstraint::Length(n) => ratatui::layout::Constraint::Length(n),
        LayoutConstraint::Min(n) => ratatui::layout::Constraint::Min(n),
    });
    let area = ratatui::layout::Rect { x: area.x, y: area.y, width: area.width, height: area.height };
    let split = ratatui::layout::Layout::vertical(constraints).split(area);
    split.iter().map(|r| Rect { x: r.x, y: r.y, width: r.width, height: r.height }).collect()
}

/// The areas of a modal, top to bottom: header, content, and the optional
/// footer and action row.
#[derive(Debug, Clone, Copy, PartialEq, Eq, Structural)]
pub struct ModalStackAreas {
    pub header: Rect,
    pub content: Rect,
    pub footer: Option<Rect>,
    pub actions: Option<Rect>,
}

/// The constraints of a modal stack: the header's length, then the content
/// taking the rest, then the footer and the actions when they have a
/// height; a gap of `gap` rows between each two.
pub open spec fn stack_constraints(header: u16, footer: u16, actions: u16, gap: u16) -> Seq<
    LayoutConstraint,
> {
    let base = seq![
        LayoutConstraint::Length(header),
        LayoutConstraint::Length(gap),
        LayoutConstraint::Min(0),
    ];
    let with_footer = if footer > 0 {
        base + seq![LayoutConstraint::Length(gap), LayoutConstraint::Length(footer)]
    } else {
        base
    };
    if actions > 0 {
        with_footer + seq![LayoutConstraint::Length(gap), LayoutConstraint::Length(actions)]
    } else {
        with_footer
    }
}

/// The number of areas a modal stack's layout yields.
pub open spec fn stack_len(footer: u16, actions: u16) -> int {
    3 + (if footer > 0 { 2int } else { 0int }) + (if actions > 0 { 2int } else { 0int })
}

/// The areas of a modal stack taken from the layout's areas `split`: every
/// other area, in order, going to header, content, footer and actions (the
/// areas between them are the gaps).
pub open spec fn stack_from_split_spec(split: Seq<Rect>, footer: u16, actions: u16) -> ModalStackAreas {
    ModalStackAreas {
        header: split[0],
        content: split[2],
        footer: if footer > 0 {
            Some(split[4])
        } else {
            None
        },
        actions: if actions > 0 {
            Some(split[if footer > 0 { 6int } else { 4int }])
        } else {
            None
        },
    }
}

/// Assembles a modal stack from the layout's areas, per
/// [`stack_from_split_spec`].
pub fn modal_stack_from_split(split: &[Rect], footer_height: u16, actions_height: u16) -> (areas:
    ModalStackAreas)
    requires
        split@.len() == stack_len(footer_height, actions_height),
    ensures
        areas == stack_from_split_spec(split@, footer_height, actions_height),
{
    let footer = if footer_height > 0 {
        Some(split[4])
    } else {
        None
    };
    let actions = if actions_height > 0 {
        Some(split[if footer_height > 0 { 6 } else { 4 }])
    } else {
        None
    };
    ModalStackAreas { header: split[0], content: split[2], footer, actions }
}

/// Every area of the stack is a row band of `inner`.
pub open spec fn stack_in_bands(areas: ModalStackAreas, inner: Rect) -> bool {
    &&& row_band(areas.header, inner)
    &&& row_band(areas.content, inner)
    &&& (areas.footer matches Some(f) ==> row_band(f, inner))
    &&& (areas.actions matches Some(a) ==> row_band(a, inner))
}

/// `split` is an outcome of ratatui's vertical layout of `area` under the
/// constraints `c`: one result that [`vertical_split`], which makes that
/// call, may hand back when given exactly `c` and `area`.
pub closed spec fn vertical_split_outcome(c: Vec<LayoutConstraint>, area: Rect, split: Vec<Rect>) -> bool {
    call_ensures(vertical_split, (&c, area), split)
}

/// The constraints of a modal stack, per [`stack_constraints`]: the
/// header's length, a gap, the content taking the rest, then a gap and the
/// footer, and a gap and the actions, each only when it has a height.
pub fn modal_stack_constraints(header_height: u16, footer_height: u16, actions_height: u16, gap: u16) -> (c:
    Vec<LayoutConstraint>)
    ensures
        c@ == stack_constraints(header_height, footer_height, actions_height, gap),
{
    let mut constraints: Vec<LayoutConstraint> = Vec::new();
    constraints.push(LayoutConstraint::Length(header_height));
    constraints.push(LayoutConstraint::Length(gap));
    constraints.push(LayoutConstraint::Min(0));
    if footer_height > 0 {
        constraints.push(LayoutConstraint::Length(gap));
        constraints.push(LayoutConstraint::Length(footer_height));
    }
    if actions_height > 0 {
        constraints.push(LayoutConstraint::Length(gap));
        constraints.push(LayoutConstraint::Length(actions_height));
    }
    assert(constraints@ =~= stack_constraints(header_height, footer_height, actions_height, gap));
    constraints
}

/// Splits a modal's inner area into its stacked parts: ratatui's vertical
/// layout of `inner` under [`stack_constraints`] (what the call is handed),
/// assembled by [`modal_stack_from_split`]. The split has one area per
/// constraint, each a row band of `inner`; the footer and the actions are
/// present exactly when they have a height.
pub fn modal_stack_areas(
    inner: Rect,
    header_height: u16,
    footer_height: u16,
    actions_height: u16,
    gap: u16,
) -> (areas: ModalStackAreas)
    ensures
        exists|c: Vec<LayoutConstraint>, split: Vec<Rect>|
            {
                &&& c@ == stack_constraints(header_height, footer_height, actions_height, gap)
                &&& vertical_split_outcome(c, inner, split)
                &&& split@.len() == c@.len()
                &&& forall|i: int| 0 <= i < split@.len() ==> row_band(#[trigger] split@[i], inner)
                &&& areas == stack_from_split_spec(split@, footer_height, actions_height)
            },
        areas.footer is Some <==> footer_height > 0,
        areas.actions is Some <==> actions_height > 0,
        stack_in_bands(areas, inner),
{
    let constraints = modal_stack_constraints(header_height, footer_height, actions_height, gap);
    let split_fn = vertical_split;
    let split = split_fn(&constraints, inner);
    assert(vertical_split_outcome(constraints, inner, split));
    let areas = modal_stack_from_split(split.as_slice(), footer_height, actions_height);
    assert(row_band(split@[0], inner));
    assert(row_band(split@[2], inner));
    if footer_height > 0 {
        assert(row_band(split@[4], inner));
    }
    if actions_height > 0 {
        assert(row_band(split@[4], inner));
        if footer_height > 0 {
            assert(row_band(split@[6], inner));
        }
    }
    areas
}

// ---------------------------------------------------------------------------
// Buttons
// ---------------------------------------------------------------------------

/// Cells of an action button: its text " hint label " (or " label "),
/// counted in characters, modulo 2^16.
pub open spec fn action_button_width_spec(hint: Option<Seq<char>>, label: Seq<char>) -> u16 {
    let count = match hint {
        Some(h) => h.len() + label.len() + 3,
        None => label.len() + 2,
    };
    (count % 65536) as u16
}

/// Cells of an action button, per [`action_button_width_spec`].
pub fn action_button_width(hint: Option<&str>, label: &str) -> (w: u16)
    ensures
        w == action_button_width_spec(
            match hint {
                Some(h) => Some(h@),
                None => None,
            },
            label@,
        ),
{
    let label_len = label.unicode_len() as u128;
    let count: u128 = match hint {
        Some(h) => h.unicode_len() as u128 + label_len + 3,
        None => label_len + 2,
    };
    (count % 65536) as u16
}

/// The " esc close " button, flush with the right edge of `area`.
pub open spec fn close_button_spec(area: Rect) -> Rect {
    let w = action_button_width_spec(Some("esc"@), "close"@);
    rect_new((area.x + sat_sub(area.width as int, w as int)) as u16, area.y, w, 1)
}

/// The " esc close " button, per [`close_button_spec`].
pub fn close_button_rect(area: Rect) -> (r: Rect)
    requires
        area.x + area.width <= u16::MAX,
    ensures
        r == close_button_spec(area),
{
    let width = action_button_width(Some("esc"), "close");
    Rect::new(area.x + area.width.saturating_sub(width), area.y, width, 1)
}

/// The " ↵ continue " button, at the top left of `area`.
pub open spec fn continue_button_spec(area: Rect) -> Rect {
    rect_new(area.x, area.y, action_button_width_spec(Some("↵"@), "continue"@), 1)
}

/// The " ↵ continue " button, per [`continue_button_spec`].
pub fn continue_button_rect(area: Rect) -> (r: Rect)
    ensures
        r == continue_button_spec(area),
{
    Rect::new(area.x, area.y, action_button_width(Some("↵"), "continue"), 1)
}

// ---------------------------------------------------------------------------
// Wide graphemes at a rectangle's edges
// ---------------------------------------------------------------------------

/// One cell of a frame: its symbol, and whether that symbol is the head of
/// a double-width grapheme (whose continuation is the next cell, holding
/// an empty symbol).
#[derive(Debug, Clone, PartialEq, Eq)]
pub struct GridCell {
    pub symbol: String,
    pub wide_head: bool,
}

/// A frame's cells, row by row, covering `area`.
#[derive(Debug, Clone, PartialEq, Eq)]
pub struct CellGrid {
    pub area: Rect,
    pub cells: Vec<GridCell>,
}

pub open spec fn grid_ok(g: CellGrid) -> bool {
    g.cells@.len() == g.area.width * g.area.height && g.area.x + g.area.width <= u16::MAX
        && g.area.y + g.area.height <= u16::MAX
}

/// The cell index of column `x`, row `y`, when the grid covers it.
pub open spec fn cell_index(g: CellGrid, x: int, y: int) -> Option<int> {
    if g.area.x <= x < g.area.x + g.area.width && g.area.y <= y < g.area.y + g.area.height {
        Some((y - g.area.y) * g.area.width + (x - g.area.x))
    } else {
        None
    }
}

/// The value of a cell: its symbol and its head flag.
pub open spec fn cell_view(c: GridCell) -> (Seq<char>, bool) {
    (c.symbol@, c.wide_head)
}

/// A blanked cell.
pub open spec fn blank_view() -> (Seq<char>, bool) {
    (" "@, false)
}

/// Whether the repair blanks the cell at column `x`, row `y`, holding `c`:
/// on the rows of a non-empty `area`, a wide head just left of it, and,
/// when the grid continues right of `area`, a wide head in its last column
/// and an orphaned continuation (an empty symbol) just right of it.
pub open spec fn repair_blanks(g: CellGrid, area: Rect, x: int, y: int, c: (Seq<char>, bool)) -> bool {
    let has_right = right_of(area) < right_of(g.area);
    &&& area.width > 0 && area.height > 0
    &&& area.y <= y < area.y + area.height
    &&& ((area.x > 0 && x == area.x - 1 && c.1) || (has_right && x == right_of(area) - 1 && c.1) || (
    has_right && x == right_of(area) && c.0.len() == 0))
}

pub open spec fn grid_view(g: CellGrid) -> Seq<(Seq<char>, bool)> {
    g.cells@.map_values(|c: GridCell| cell_view(c))
}

/// Column of cell index `i`.
pub open spec fn col_of(g: CellGrid, i: int) -> int {
    g.area.x + i % (g.area.width as int)
}

/// Row of cell index `i`.
pub open spec fn row_of(g: CellGrid, i: int) -> int {
    g.area.y + i / (g.area.width as int)
}

/// The cells of `g` with the repair applied on the rows before `upto`.
pub open spec fn repaired_upto(g: CellGrid, area: Rect, upto: int) -> Seq<(Seq<char>, bool)> {
    Seq::new(
        g.cells@.len(),
        |i: int|
            {
                let c = cell_view(g.cells@[i]);
                if row_of(g, i) < upto && repair_blanks(g, area, col_of(g, i), row_of(g, i), c) {
                    blank_view()
                } else {
                    c
                }
            },
    )
}

/// The cells of `g` after the repair of `area`'s edges.
pub open spec fn repaired(g: CellGrid, area: Rect) -> Seq<(Seq<char>, bool)> {
    repaired_upto(g, area, area.y + area.height)
}

/// Whether a cell blanking pass aimed at heads (or at continuations) hits
/// a cell holding `c`.
pub open spec fn hits(c: (Seq<char>, bool), head: bool) -> bool {
    if head {
        c.1
    } else {
        c.0.len() == 0
    }
}

/// Blanks the cell at `(x, y)` when it is a wide head (`head`) or a
/// continuation (otherwise).
fn blank_cell_if(grid: &mut CellGrid, x: u16, y: u16, head: bool)
    requires
        grid_ok(*old(grid)),
    ensures
        final(grid).area == old(grid).area,
        grid_ok(*final(grid)),
        ({
            let v = grid_view(*old(grid));
            match cell_index(*old(grid), x as int, y as int) {
                Some(i) => grid_view(*final(grid)) == v.update(
                    i,
                    if hits(v[i], head) {
                        blank_view()
                    } else {
                        v[i]
                    },
                ),
                None => grid_view(*final(grid)) == v,
            }
        }),
{
    let area = grid.area;
    if x < area.x || x - area.x >= area.width || y < area.y || y - area.y >= area.height {
        return;
    }
    let row = (y - area.y) as usize;
    let col = (x - area.x) as usize;
    assert(row * area.width + col < area.width * area.height) by (nonlinear_arith)
        requires
            row < area.height,
            col < area.width,
    ;
    assert(row * area.width + col <= 65535 * 65535) by (nonlinear_arith)
        requires
            row < area.height,
            col < area.width,
            area.height <= 65535,
            area.width <= 65535,
    ;
    let i = row * (area.width as usize) + col;
    let ghost v = grid_view(*grid);
    assert(v[i as int] == cell_view(grid.cells@[i as int]));
    let hit = if head {
        grid.cells[i].wide_head
    } else {
        grid.cells[i].symbol.unicode_len() == 0
    };
    if hit {
        grid.cells.set(i, GridCell { symbol: " ".to_owned(), wide_head: false });
        assert(grid_view(*grid) =~= v.update(i as int, blank_view())) by {
            reveal_strlit(" ");
        }
    } else {
        assert(grid_view(*grid) =~= v.update(i as int, v[i as int]));
    }
}

proof fn lemma_cell_position(g: CellGrid, x: int, y: int)
    requires
        grid_ok(g),
        cell_index(g, x, y) is Some,
    ensures
        ({
            let i = cell_index(g, x, y)->0;
            &&& 0 <= i < g.cells@.len()
            &&& col_of(g, i) == x
            &&& row_of(g, i) == y
        }),
{
    let w = g.area.width as int;
    let r = y - g.area.y;
    let c = x - g.area.x;
    let i = r * w + c;
    vstd::arithmetic::div_mod::lemma_fundamental_div_mod_converse(i, w, r, c);
    assert(i < w * g.area.height) by (nonlinear_arith)
        requires
            0 <= r < g.area.height,
            0 <= c < w,
            i == r * w + c,
    ;
    assert(0 <= i) by (nonlinear_arith)
        requires
            0 <= r,
            0 <= c,
            0 <= w,
            i == r * w + c,
    ;
}

proof fn lemma_index_position(g: CellGrid, i: int)
    requires
        grid_ok(g),
        0 <= i < g.cells@.len(),
    ensures
        cell_index(g, col_of(g, i), row_of(g, i)) == Some(i),
{
    let w = g.area.width as int;
    let h = g.area.height as int;
    assert(w > 0) by (nonlinear_arith)
        requires
            0 <= i < g.cells@.len(),
            g.cells@.len() == w * h,
            w >= 0,
    ;
    vstd::arithmetic::div_mod::lemma_fundamental_div_mod(i, w);
    let q = i / w;
    let r = i % w;
    assert(0 <= r < w) by {
        vstd::arithmetic::div_mod::lemma_mod_bound(i, w);
    }
    assert(0 <= q) by {
        vstd::arithmetic::div_mod::lemma_div_pos_is_pos(i, w);
    }
    assert(q < h) by (nonlinear_arith)
        requires
            i == w * q + r,
            0 <= r,
            i < w * h,
            w > 0,
    ;
    assert(q * w + r == i) by (nonlinear_arith)
        requires
            i == w * q + r,
    ;
    assert(row_of(g, i) - g.area.y == q);
    assert(col_of(g, i) - g.area.x == r);
}

proof fn lemma_row_step(g: CellGrid, area: Rect, y: int, before: Seq<(Seq<char>, bool)>, after: Seq<(Seq<char>, bool)>)
    requires
        grid_ok(g),
        area.width > 0,
        area.height > 0,
        area.y <= y < area.y + area.height,
        before == repaired_upto(g, area, y),
        after.len() == before.len(),
        forall|i: int|
            0 <= i < before.len() ==> #[trigger] after[i] == (if row_of(g, i) == y && ((area.x > 0
                && col_of(g, i) == area.x - 1 && hits(before[i], true)) || (right_of(area) < right_of(
                g.area,
            ) && col_of(g, i) == right_of(area) - 1 && hits(before[i], true)) || (right_of(area)
                < right_of(g.area) && col_of(g, i) == right_of(area) && hits(before[i], false))) {
                blank_view()
            } else {
                before[i]
            }),
    ensures
        after == repaired_upto(g, area, y + 1),
{
    let target = repaired_upto(g, area, y + 1);
    assert forall|i: int| 0 <= i < after.len() implies #[trigger] after[i] == target[i] by {
        let c = cell_view(g.cells@[i]);
        if row_of(g, i) < y {
        } else if row_of(g, i) == y {
            assert(before[i] == c);
        } else {
            assert(before[i] == c);
        }
    }
    assert(after =~= target);
}

/// Blanks the halves of double-width graphemes left dangling across the
/// vertical edges of `area` after something was drawn into it, per
/// [`repaired`]: per row, a head just left of `area` (whose second column
/// `area` took), and, when the grid continues to the right of `area`, a
/// head in `area`'s last column (whose second column lies outside) and a
/// continuation just right of `area` (whose head `area` took). Flush with
/// the grid's right edge nothing is repaired there: a trailing wide glyph
/// is the terminal's own clipping problem.
pub fn repair_wide_grapheme_edges(grid: &mut CellGrid, area: Rect)
    requires
        grid_ok(*old(grid)),
    ensures
        final(grid).area == old(grid).area,
        grid_view(*final(grid)) == repaired(*old(grid), area),
{
    let ghost g0 = *grid;
    if area.width == 0 || area.height == 0 {
        assert(grid_view(*grid) =~= repaired(g0, area));
        return;
    }
    let has_right = area.right() < grid.area.right();
    let bottom = area.y.saturating_add(area.height);
    let mut y = area.y;
    assert(grid_view(*grid) =~= repaired_upto(g0, area, y as int));
    while y < bottom
        invariant
            grid_ok(g0),
            grid.area == g0.area,
            grid_ok(*grid),
            area.width > 0,
            area.height > 0,
            bottom as int == sat_add(area.y as int, area.height as int),
            has_right == (right_of(area) < right_of(g0.area)),
            area.y <= y <= bottom,
            grid_view(*grid) == repaired_upto(g0, area, y as int),
        decreases bottom - y,
    {
        let ghost before = grid_view(*grid);
        let ghost la = if area.x > 0 { cell_index(g0, area.x - 1, y as int) } else { None };
        let ghost lb = if has_right { cell_index(g0, right_of(area) - 1, y as int) } else { None };
        let ghost lc = if has_right { cell_index(g0, right_of(area), y as int) } else { None };
        if area.x > 0 {
            blank_cell_if(grid, area.x - 1, y, true);
        }
        let ghost mid1 = grid_view(*grid);
        if has_right {
            blank_cell_if(grid, area.right() - 1, y, true);
        }
        let ghost mid2 = grid_view(*grid);
        if has_right {
            blank_cell_if(grid, area.right(), y, false);
        }
        proof {
            let after = grid_view(*grid);
            if la is Some {
                lemma_cell_position(g0, area.x - 1, y as int);
            }
            if lb is Some {
                lemma_cell_position(g0, right_of(area) - 1, y as int);
            }
            if lc is Some {
                lemma_cell_position(g0, right_of(area), y as int);
            }
            assert forall|i: int| 0 <= i < before.len() implies #[trigger] after[i] == (if row_of(g0, i) == y
                && ((area.x > 0 && col_of(g0, i) == area.x - 1 && hits(before[i], true)) || (right_of(
                area,
            ) < right_of(g0.area) && col_of(g0, i) == right_of(area) - 1 && hits(before[i], true)) || (
            right_of(area) < right_of(g0.area) && col_of(g0, i) == right_of(area) && hits(
                before[i],
                false,
            ))) {
                blank_view()
            } else {
                before[i]
            }) by {
                if la is Some && la->0 == i {
                } else if lb is Some && lb->0 == i {
                } else if lc is Some && lc->0 == i {
                } else {
                    lemma_index_position(g0, i);
                }
            }
            lemma_row_step(g0, area, y as int, before, after);
        }
        y = y + 1;
    }
    proof {
        let v = grid_view(*grid);
        assert forall|i: int| 0 <= i < v.len() implies #[trigger] v[i] == repaired(g0, area)[i] by {
            lemma_index_position(g0, i);
        }
        assert(v =~= repaired(g0, area));
    }
}


/// After a repair no wide-grapheme half is left dangling at `area`'s
/// vertical edges: on each of its rows the cell just left of `area` holds
/// no wide head, and, when the grid continues to the right, neither does
/// `area`'s last column, and the cell just right of `area` holds no
/// orphaned continuation.
pub proof fn law_repaired_edges_hold_no_stranded_half(g: CellGrid, area: Rect, y: int)
    requires
        grid_ok(g),
        area.width > 0,
        area.height > 0,
        area.x + area.width <= u16::MAX,
        area.y <= y < area.y + area.height,
    ensures
        area.x > 0 ==> (cell_index(g, area.x - 1, y) matches Some(i) ==> !repaired(g, area)[i].1),
        right_of(area) < right_of(g.area) ==> (cell_index(g, right_of(area) - 1, y) matches Some(i)
            ==> !repaired(g, area)[i].1),
        right_of(area) < right_of(g.area) ==> (cell_index(g, right_of(area), y) matches Some(i)
            ==> repaired(g, area)[i].0.len() > 0),
{
    reveal_strlit(" ");
    if area.x > 0 && cell_index(g, area.x - 1, y) is Some {
        lemma_cell_position(g, area.x - 1, y);
    }
    if cell_index(g, right_of(area) - 1, y) is Some {
        lemma_cell_position(g, right_of(area) - 1, y);
    }
    if cell_index(g, right_of(area), y) is Some {
        lemma_cell_position(g, right_of(area), y);
    }
}

/// A repair touches only the three edge columns on `area`'s rows: every
/// other cell keeps its content, and a touched cell is blanked.
pub proof fn law_repair_touches_only_the_edges(g: CellGrid, area: Rect, i: int)
    requires
        grid_ok(g),
        0 <= i < g.cells@.len(),
    ensures
        repaired(g, area).len() == g.cells@.len(),
        !(area.y <= row_of(g, i) < area.y + area.height && (col_of(g, i) == area.x - 1 || col_of(
            g,
            i,
        ) == right_of(area) - 1 || col_of(g, i) == right_of(area))) ==> repaired(g, area)[i]
            == cell_view(g.cells@[i]),
        repaired(g, area)[i] == cell_view(g.cells@[i]) || repaired(g, area)[i] == blank_view(),
{
}

} // verus!
