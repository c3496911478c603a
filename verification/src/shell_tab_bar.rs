//! The client shell's tab bar pass: which tabs get a slot, where each slot
//! and button goes, what text every cell range shows and in which role, and
//! how the tab scroll offset moves.
//!
//! The pass fills [`TabHits`] (the clickable areas) and returns
//! [`TextRun`]s; the renderer paints each run with the palette colour of
//! its [`RunStyle`].

use vstd::prelude::*;

use crate::geometry::{max, min, rect_new, right_of, sat_add, sat_sub, Rect};
use crate::tab_strip::{
    centered_scroll_spec, centered_tab_scroll, classic_tab_width, classic_tab_width_spec,
    last_visible_spec, law_centered_scroll_shows_the_focused_slot,
    content_area_spec, drop_indicator_spec, max_scroll_spec, max_tab_scroll, marker_glyph_of,
    minimal_slot_width, minimal_slot_width_spec, tab_bar_content_area, tab_drop_indicator_x,
    tab_label, tab_label_spec, hit_entries, hits_view, status_area_spec, tab_bar_status_area,
    ClientShellTab, ClientShellTabStatusSegment, HitsModel, TabBarSnapshot, TabHits, MIN_TAB_STRIP_WIDTH,
    NEW_TAB_WIDTH, TAB_MARKER_ACTIVE, TAB_MARKER_INACTIVE, TAB_SCROLL_BUTTON_WIDTH,
};
use crate::text::{display_width, display_width_spec, push_char};
use crate::widgets::{contrast_spec, panel_contrast_fg, Color, PaintStyle, Palette};

verus! {

/// The palette role a run of text is painted in.
#[derive(Debug, Clone, Copy, PartialEq, Eq, Structural)]
pub enum RunStyle {
    /// The focused classic tab; yellow instead of the accent while the
    /// prefix key is highlighted, bold when the tab has a custom label.
    FocusedTab { prefix_highlight: bool, bold: bool },
    /// An unfocused classic tab with a custom label.
    CustomTab,
    /// An unfocused classic tab with an automatic label (dimmed).
    AutoTab,
    /// A scroll button; brighter when it can scroll.
    ScrollButton { enabled: bool },
    /// The "+" new-tab button.
    NewTab,
    /// The "…" that marks tabs hidden by scrolling.
    Ellipsis,
    /// The drag-to-reorder drop indicator.
    DropIndicator,
    /// A minimal-style marker (and title), accent-coloured when focused.
    Marker { focused: bool },
    /// The separator between two status segments.
    StatusSeparator,
    /// A status segment, highlighted when it asks for the accent.
    StatusSegment { accent: bool },
}

/// `text` painted from column `x` of row `y`, clipped to `width` cells.
#[derive(Debug, Clone, PartialEq, Eq)]
pub struct TextRun {
    pub x: u16,
    pub y: u16,
    pub width: u16,
    pub text: String,
    pub style: RunStyle,
}

/// The mathematical value of a [`TextRun`].
pub struct RunModel {
    pub x: u16,
    pub y: u16,
    pub width: u16,
    pub text: Seq<char>,
    pub style: RunStyle,
}

pub open spec fn run(x: u16, y: u16, width: u16, text: Seq<char>, style: RunStyle) -> RunModel {
    RunModel { x, y, width, text, style }
}

pub open spec fn run_model(r: TextRun) -> RunModel {
    RunModel { x: r.x, y: r.y, width: r.width, text: r.text@, style: r.style }
}

pub open spec fn runs_model(runs: Seq<TextRun>) -> Seq<RunModel> {
    runs.map_values(|r: TextRun| run_model(r))
}

/// How the tab bar is drawn.
#[derive(Debug, Clone, Copy, PartialEq, Eq, Structural)]
pub enum TabBarStyle {
    Classic,
    Minimal,
}

/// Where the minimal strip sits when it fits.
#[derive(Debug, Clone, Copy, PartialEq, Eq, Structural)]
pub enum TabBarAlign {
    Left,
    Right,
}

/// The tab-bar settings of the client shell configuration.
#[derive(Debug, Clone, Copy, PartialEq, Eq, Structural)]
pub struct TabBarConfig {
    pub style: TabBarStyle,
    pub align: TabBarAlign,
    /// Minimal style: show each tab's label after its glyph.
    pub title: bool,
    /// Mouse capture is on, so the classic strip shows its buttons.
    pub mouse_capture: bool,
}

/// The tab-bar state the pass reads and updates.
#[derive(Debug, Clone, PartialEq, Eq)]
pub struct TabBarState {
    /// Index of the first visible tab.
    pub tab_scroll: usize,
    /// The next pass scrolls the focused tab into the middle.
    pub reveal_focused_tab: bool,
}

/// `n` spaces.
pub open spec fn spaces_spec(n: int) -> Seq<char> {
    Seq::new(n as nat, |_i: int| ' ')
}

fn spaces(n: u16) -> (s: String)
    ensures
        s@ == spaces_spec(n as int),
{
    let mut s = String::new();
    let mut i: u16 = 0;
    while i < n
        invariant
            i <= n,
            s@ == spaces_spec(i as int),
        decreases n - i,
    {
        push_char(&mut s, ' ');
        i = i + 1;
        assert(s@ =~= spaces_spec(i as int));
    }
    s
}

// ---------------------------------------------------------------------------
// Placing slots
// ---------------------------------------------------------------------------

/// The slots placed from tab `i` on, starting at column `x` and stopping at
/// column `right`: each slot gets its desired width or what is left,
/// `gap` blank cells follow it, and a slot cut short (or one with no room)
/// ends the strip.
pub open spec fn place_tabs(desired: Seq<u16>, i: int, x: int, right: int, y: u16, gap: int) -> Seq<
    (int, Rect),
>
    decreases desired.len() - i,
{
    if i < 0 || i >= desired.len() {
        Seq::empty()
    } else {
        let width = min(desired[i] as int, sat_sub(right, x));
        if width <= 0 {
            Seq::empty()
        } else {
            let r = rect_new(x as u16, y, width as u16, 1);
            if width < desired[i] {
                seq![(i, r)]
            } else {
                seq![(i, r)] + place_tabs(desired, i + 1, sat_add(x, width + gap), right, y, gap)
            }
        }
    }
}

/// The column just after the last slot [`place_tabs`] places (and its gap).
pub open spec fn place_end(desired: Seq<u16>, i: int, x: int, right: int, y: u16, gap: int) -> int
    decreases desired.len() - i,
{
    if i < 0 || i >= desired.len() {
        x
    } else {
        let width = min(desired[i] as int, sat_sub(right, x));
        if width <= 0 {
            x
        } else if width < desired[i] {
            sat_add(x, width + gap)
        } else {
            place_end(desired, i + 1, sat_add(x, width + gap), right, y, gap)
        }
    }
}

/// The index of the first focused tab at or after `k`.
pub open spec fn focused_from(tabs: Seq<ClientShellTab>, k: int) -> Option<int>
    decreases tabs.len() - k,
{
    if k < 0 || k >= tabs.len() {
        None
    } else if tabs[k].focused {
        Some(k)
    } else {
        focused_from(tabs, k + 1)
    }
}

proof fn lemma_focused_from_bound(tabs: Seq<ClientShellTab>, k: int)
    requires
        0 <= k,
    ensures
        focused_from(tabs, k) matches Some(i) ==> k <= i < tabs.len() && tabs[i].focused,
    decreases tabs.len() - k,
{
    if k < tabs.len() && !tabs[k].focused {
        lemma_focused_from_bound(tabs, k + 1);
    }
}

fn focused_position(tabs: &[ClientShellTab]) -> (pos: Option<usize>)
    ensures
        match focused_from(tabs@, 0) {
            Some(i) => pos is Some && pos->0 as int == i,
            None => pos is None,
        },
{
    let n = tabs.len();
    let mut k = n;
    let mut found: Option<usize> = None;
    while k > 0
        invariant
            n == tabs@.len(),
            k <= n,
            match focused_from(tabs@, k as int) {
                Some(i) => found is Some && found->0 as int == i,
                None => found is None,
            },
        decreases k,
    {
        k = k - 1;
        if tabs[k].focused {
            found = Some(k);
        }
    }
    found
}

/// The scroll offset after a pass: 0 when everything fits; when revealing,
/// the offset that centres the focused tab (kept as it was if no tab is
/// focused); otherwise the old offset clamped to the largest useful one.
pub open spec fn next_scroll(
    overflow: bool,
    reveal: bool,
    tabs: Seq<ClientShellTab>,
    old_scroll: int,
    widths: Seq<u16>,
    available: u16,
    gap: u16,
) -> int {
    if !overflow {
        0
    } else if reveal {
        match focused_from(tabs, 0) {
            Some(f) => min(
                centered_scroll_spec(widths, f, available, gap),
                max_scroll_spec(widths, available, gap),
            ),
            None => old_scroll,
        }
    } else {
        min(old_scroll, max_scroll_spec(widths, available, gap))
    }
}

fn update_scroll(
    overflow: bool,
    state: &mut TabBarState,
    tabs: &[ClientShellTab],
    widths: &Vec<u16>,
    available: u16,
    gap: u16,
)
    requires
        widths@.len() == tabs@.len(),
    ensures
        final(state).tab_scroll as int == next_scroll(
            overflow,
            old(state).reveal_focused_tab,
            tabs@,
            old(state).tab_scroll as int,
            widths@,
            available,
            gap,
        ),
        !final(state).reveal_focused_tab,
{
    let max_scroll = max_tab_scroll(widths.as_slice(), available, gap);
    if !overflow {
        state.tab_scroll = 0;
    } else if state.reveal_focused_tab {
        proof {
            lemma_focused_from_bound(tabs@, 0);
        }
        match focused_position(tabs) {
            Some(focused) => {
                let centered = centered_tab_scroll(focused, widths.as_slice(), available, gap);
                state.tab_scroll = if centered < max_scroll {
                    centered
                } else {
                    max_scroll
                };
            },
            None => {},
        }
    } else {
        state.tab_scroll = if state.tab_scroll < max_scroll {
            state.tab_scroll
        } else {
            max_scroll
        };
    }
    state.reveal_focused_tab = false;
}

/// The summed widths (unsaturated).
pub open spec fn width_sum(widths: Seq<u16>) -> int
    decreases widths.len(),
{
    if widths.len() == 0 {
        0
    } else {
        width_sum(widths.drop_last()) + widths.last() as int
    }
}

proof fn lemma_width_sum_nonneg(widths: Seq<u16>)
    ensures
        width_sum(widths) >= 0,
    decreases widths.len(),
{
    if widths.len() > 0 {
        lemma_width_sum_nonneg(widths.drop_last());
    }
}

/// The saturating total of `widths`.
pub(crate) fn saturating_total(widths: &Vec<u16>) -> (total: u16)
    ensures
        total as int == min(width_sum(widths@), u16::MAX as int),
{
    let n = widths.len();
    let mut total: u16 = 0;
    let mut i: usize = 0;
    while i < n
        invariant
            n == widths@.len(),
            i <= n,
            total as int == min(width_sum(widths@.subrange(0, i as int)), u16::MAX as int),
        decreases n - i,
    {
        proof {
            lemma_width_sum_nonneg(widths@.subrange(0, i as int));
            assert(widths@.subrange(0, i + 1).drop_last() =~= widths@.subrange(0, i as int));
        }
        total = total.saturating_add(widths[i]);
        i = i + 1;
    }
    assert(widths@.subrange(0, n as int) =~= widths@);
    total
}

// ---------------------------------------------------------------------------
// The classic strip
// ---------------------------------------------------------------------------

/// The desired width of every classic tab.
pub open spec fn classic_widths(tabs: Seq<ClientShellTab>) -> Seq<u16> {
    Seq::new(tabs.len(), |i: int| classic_tab_width_spec(tabs[i]))
}

/// Width reserved for the "+" button.
pub open spec fn new_tab_width(mouse: bool) -> int {
    if mouse {
        NEW_TAB_WIDTH as int
    } else {
        0
    }
}

/// The cells all classic tabs want: their widths, one gap between each
/// pair, and the "+" button, saturating.
pub open spec fn classic_desired_total(tabs: Seq<ClientShellTab>, mouse: bool) -> int {
    sat_add(
        sat_add(
            min(width_sum(classic_widths(tabs)), u16::MAX as int),
            min(sat_sub(tabs.len() as int, 1), u16::MAX as int),
        ),
        new_tab_width(mouse),
    )
}

/// The classic strip overflows when the tabs do not fit; with mouse chrome
/// it only scrolls when the content area can hold the scroll buttons.
pub open spec fn classic_overflow(tabs: Seq<ClientShellTab>, content: Rect, mouse: bool) -> bool {
    classic_desired_total(tabs, mouse) > content.width && (!mouse || content.width
        >= MIN_TAB_STRIP_WIDTH)
}

/// Both scroll buttons are shown.
pub open spec fn classic_buttons(tabs: Seq<ClientShellTab>, content: Rect, mouse: bool) -> bool {
    classic_overflow(tabs, content, mouse) && mouse
}

/// Cells available to classic tabs.
pub open spec fn classic_available(tabs: Seq<ClientShellTab>, content: Rect, mouse: bool) -> u16 {
    if classic_buttons(tabs, content, mouse) {
        sat_sub(
            sat_sub(content.width as int, NEW_TAB_WIDTH as int),
            2 * TAB_SCROLL_BUTTON_WIDTH as int,
        ) as u16
    } else {
        sat_sub(content.width as int, new_tab_width(mouse)) as u16
    }
}

/// The left scroll button's rectangle.
pub open spec fn classic_scroll_left(content: Rect) -> Rect {
    rect_new(content.x, content.y, min(TAB_SCROLL_BUTTON_WIDTH as int, content.width as int) as u16, 1)
}

/// The column after which classic tabs may not go.
pub open spec fn classic_tab_right(tabs: Seq<ClientShellTab>, content: Rect, mouse: bool) -> int {
    if classic_buttons(tabs, content, mouse) {
        sat_sub(right_of(content), (NEW_TAB_WIDTH + TAB_SCROLL_BUTTON_WIDTH) as int)
    } else {
        sat_sub(right_of(content), new_tab_width(mouse))
    }
}

/// The column where the first classic tab starts.
pub open spec fn classic_start_x(tabs: Seq<ClientShellTab>, content: Rect, mouse: bool) -> int {
    if classic_buttons(tabs, content, mouse) {
        right_of(classic_scroll_left(content))
    } else {
        content.x as int
    }
}

/// The text of a classic tab: its label centred in `width` cells (the extra
/// cell, if any, on the right).
pub open spec fn padded_label(name: Seq<char>, width: u16) -> Seq<char> {
    let padding = sat_sub(width as int, display_width_spec(name) as int);
    spaces_spec(padding / 2) + name + spaces_spec(padding - padding / 2)
}

/// The role of a classic tab's text.
pub open spec fn classic_tab_style(tab: ClientShellTab, prefix_highlight: bool) -> RunStyle {
    if tab.focused {
        RunStyle::FocusedTab { prefix_highlight, bold: tab.custom_label }
    } else if tab.custom_label {
        RunStyle::CustomTab
    } else {
        RunStyle::AutoTab
    }
}

/// How a tab slot's text and role are chosen.
#[derive(Debug, Clone, Copy, PartialEq, Eq, Structural)]
pub enum SlotKind {
    /// A classic text tab; the prefix highlight recolours the focused one.
    Classic { prefix_highlight: bool },
    /// A minimal marker, followed by the tab's label when `title` is on.
    Minimal { title: bool },
}

/// The marker glyph of a tab: the active one for the focused tab.
pub open spec fn marker_glyph(tab: ClientShellTab) -> char {
    if tab.focused {
        TAB_MARKER_ACTIVE
    } else {
        TAB_MARKER_INACTIVE
    }
}

/// The text a slot of `width` cells shows for `tab`.
pub open spec fn slot_text(tab: ClientShellTab, width: u16, kind: SlotKind) -> Seq<char> {
    match kind {
        SlotKind::Classic { .. } => padded_label(tab_label_spec(tab), width),
        SlotKind::Minimal { title } => if title {
            seq![marker_glyph(tab), ' '] + tab_label_spec(tab)
        } else {
            seq![marker_glyph(tab)]
        },
    }
}

/// The role a slot's text is painted in.
pub open spec fn slot_style(tab: ClientShellTab, kind: SlotKind) -> RunStyle {
    match kind {
        SlotKind::Classic { prefix_highlight } => classic_tab_style(tab, prefix_highlight),
        SlotKind::Minimal { .. } => RunStyle::Marker { focused: tab.focused },
    }
}

/// The runs of the placed slots.
pub open spec fn slot_runs(placed: Seq<(int, Rect)>, tabs: Seq<ClientShellTab>, kind: SlotKind) -> Seq<
    RunModel,
> {
    Seq::new(
        placed.len(),
        |k: int|
            run(
                placed[k].1.x,
                placed[k].1.y,
                placed[k].1.width,
                slot_text(tabs[placed[k].0], placed[k].1.width, kind),
                slot_style(tabs[placed[k].0], kind),
            ),
    )
}

/// The hit entries of the placed tabs.
pub open spec fn placed_hits(placed: Seq<(int, Rect)>, tabs: Seq<ClientShellTab>) -> Seq<
    (Rect, Seq<char>),
> {
    Seq::new(placed.len(), |k: int| (placed[k].1, tabs[placed[k].0].tab_id@))
}

/// The "…" run marking tabs hidden on the left of the first shown tab.
pub open spec fn left_ellipsis(first: Option<usize>, scroll_left: Rect, content: Rect, y: u16) -> Seq<
    RunModel,
> {
    if first is Some && first->0 > 0 {
        let ex = if scroll_left.width > 0 {
            right_of(scroll_left)
        } else {
            content.x as int
        };
        seq![run(ex as u16, y, if ex < right_of(content) { 1 } else { 0 }, "…"@, RunStyle::Ellipsis)]
    } else {
        Seq::empty()
    }
}

/// The "…" run marking tabs hidden on the right of the last shown tab.
pub open spec fn right_ellipsis(
    last: Option<usize>,
    count: int,
    scroll_right: Rect,
    content: Rect,
    y: u16,
) -> Seq<RunModel> {
    if last is Some && last->0 + 1 < count {
        let ex = if scroll_right.width > 0 {
            sat_sub(scroll_right.x as int, 1)
        } else {
            sat_sub(right_of(content), 1)
        };
        seq![
            run(
                ex as u16,
                y,
                if ex >= content.x && ex < right_of(content) {
                    1
                } else {
                    0
                },
                "…"@,
                RunStyle::Ellipsis,
            ),
        ]
    } else {
        Seq::empty()
    }
}

/// The drop-indicator run, drawn while a tab is dragged.
pub open spec fn indicator_run(
    hits: HitsModel,
    tabs: Seq<ClientShellTab>,
    insert: Option<usize>,
    content: Rect,
    y: u16,
) -> Seq<RunModel> {
    match insert {
        Some(i) => match drop_indicator_spec(hits, tabs, i as int) {
            Some(ix) => seq![
                run(
                    min(ix as int, sat_sub(right_of(content), 1)) as u16,
                    y,
                    1,
                    "│"@,
                    RunStyle::DropIndicator,
                ),
            ],
            None => Seq::empty(),
        },
        None => Seq::empty(),
    }
}

/// The index of the first placed tab.
pub open spec fn first_placed(placed: Seq<(int, Rect)>) -> Option<usize> {
    if placed.len() > 0 {
        Some(placed[0].0 as usize)
    } else {
        None
    }
}

/// The index of the last placed tab.
pub open spec fn last_placed(placed: Seq<(int, Rect)>) -> Option<usize> {
    if placed.len() > 0 {
        Some(placed.last().0 as usize)
    } else {
        None
    }
}

/// What one tab-bar pass produces: the new scroll offset, the clickable
/// areas, and the text runs, in painting order.
pub struct TabBarPass {
    pub scroll: int,
    pub hits: HitsModel,
    pub runs: Seq<RunModel>,
}

/// The end of the classic strip, once its tabs are placed: the " > "
/// button at `tab_right` when the buttons show, the "+" button (after the
/// right button, or right after the last tab), the "…" marks where tabs are
/// hidden (`first` and `last` are the first and last shown tab of `count`),
/// and the drop indicator. `before` holds the hit areas so far; the result
/// is the final hit areas and the runs, in painting order.
#[verifier::opaque]
pub open spec fn classic_finish(
    area: Rect,
    content: Rect,
    mouse: bool,
    buttons: bool,
    count: int,
    tab_right: u16,
    end_x: u16,
    first: Option<usize>,
    last: Option<usize>,
    tabs: Seq<ClientShellTab>,
    insert: Option<usize>,
    before: HitsModel,
) -> (HitsModel, Seq<RunModel>) {
    let scroll_right = if buttons {
        rect_new(tab_right, area.y, TAB_SCROLL_BUTTON_WIDTH, 1)
    } else {
        before.tab_scroll_right
    };
    let new_tab = if buttons {
        rect_new(
            right_of(scroll_right) as u16,
            area.y,
            min(sat_sub(right_of(content), right_of(scroll_right)), NEW_TAB_WIDTH as int) as u16,
            1,
        )
    } else if mouse {
        rect_new(
            min(end_x as int, right_of(content)) as u16,
            area.y,
            min(sat_sub(right_of(content), end_x as int), NEW_TAB_WIDTH as int) as u16,
            1,
        )
    } else {
        before.new_tab
    };
    let hits = HitsModel {
        tabs: before.tabs,
        tab_scroll_left: before.tab_scroll_left,
        tab_scroll_right: scroll_right,
        new_tab,
    };
    let right_button = if buttons {
        seq![
            run(
                scroll_right.x,
                area.y,
                scroll_right.width,
                " > "@,
                RunStyle::ScrollButton { enabled: last is Some && last->0 + 1 < count },
            ),
        ]
    } else {
        Seq::empty()
    };
    let plus = if mouse {
        seq![run(new_tab.x, area.y, new_tab.width, " + "@, RunStyle::NewTab)]
    } else {
        Seq::empty()
    };
    (
        hits,
        right_button + plus + left_ellipsis(first, before.tab_scroll_left, content, area.y)
            + right_ellipsis(last, count, scroll_right, content, area.y) + indicator_run(
            hits,
            tabs,
            insert,
            content,
            area.y,
        ),
    )
}

/// The classic pass: padded text tabs separated by one blank cell, scrolled
/// so that the focused tab is centred when revealing; with mouse chrome a
/// "+" button after the tabs, and " < " / " > " scroll buttons around them
/// when they overflow; "…" where tabs are hidden; the drop indicator while
/// dragging.
pub open spec fn classic_pass(
    area: Rect,
    snapshot: TabBarSnapshot,
    config: TabBarConfig,
    tabs: Seq<ClientShellTab>,
    state: TabBarState,
    insert: Option<usize>,
    prefix_highlight: bool,
    old_hits: HitsModel,
) -> TabBarPass {
    let content = content_area_spec(snapshot, area);
    let mouse = config.mouse_capture;
    let widths = classic_widths(tabs);
    let overflow = classic_overflow(tabs, content, mouse);
    let buttons = classic_buttons(tabs, content, mouse);
    let available = classic_available(tabs, content, mouse);
    let scroll = next_scroll(
        overflow,
        state.reveal_focused_tab,
        tabs,
        state.tab_scroll as int,
        widths,
        available,
        1,
    );
    let left = classic_scroll_left(content);
    let tab_right = classic_tab_right(tabs, content, mouse);
    let start = classic_start_x(tabs, content, mouse);
    let placed = place_tabs(widths, scroll, start, tab_right, area.y, 1);
    let end_x = place_end(widths, scroll, start, tab_right, area.y, 1);
    let before = HitsModel {
        tabs: old_hits.tabs + placed_hits(placed, tabs),
        tab_scroll_left: if buttons {
            left
        } else {
            old_hits.tab_scroll_left
        },
        tab_scroll_right: old_hits.tab_scroll_right,
        new_tab: old_hits.new_tab,
    };
    let left_button = if buttons {
        seq![run(left.x, content.y, left.width, " < "@, RunStyle::ScrollButton { enabled: scroll > 0 })]
    } else {
        Seq::empty()
    };
    let finish = classic_finish(
        area,
        content,
        mouse,
        buttons,
        tabs.len() as int,
        tab_right as u16,
        end_x as u16,
        first_placed(placed),
        last_placed(placed),
        tabs,
        insert,
        before,
    );
    TabBarPass {
        scroll,
        hits: finish.0,
        runs: left_button + slot_runs(placed, tabs, SlotKind::Classic { prefix_highlight })
            + finish.1,
    }
}

/// The desired width of every minimal slot.
pub open spec fn minimal_widths(tabs: Seq<ClientShellTab>, title: bool) -> Seq<u16> {
    Seq::new(tabs.len(), |i: int| minimal_slot_width_spec(tabs[i], title))
}

/// Where the minimal strip starts and how many cells it spans: the whole
/// content area when the slots overflow it, else exactly the slots, flush
/// with the edge that `align` names.
pub open spec fn minimal_strip(tabs: Seq<ClientShellTab>, content: Rect, config: TabBarConfig) -> (
    int,
    u16,
) {
    let total = min(width_sum(minimal_widths(tabs, config.title)), u16::MAX as int);
    if total > content.width {
        (content.x as int, content.width)
    } else {
        match config.align {
            TabBarAlign::Left => (content.x as int, total as u16),
            TabBarAlign::Right => (sat_sub(right_of(content), total), total as u16),
        }
    }
}

/// The minimal pass: one marker slot per tab (with its label when titled),
/// flush against each other with no buttons; the strip aligns to the edge
/// `align` names while it fits, and otherwise fills the content area from
/// the left and scrolls; the drop indicator while dragging. The scroll
/// buttons and "+" hit areas are left as they were.
pub open spec fn minimal_pass(
    area: Rect,
    snapshot: TabBarSnapshot,
    config: TabBarConfig,
    tabs: Seq<ClientShellTab>,
    state: TabBarState,
    insert: Option<usize>,
    old_hits: HitsModel,
) -> TabBarPass {
    let content = content_area_spec(snapshot, area);
    let widths = minimal_widths(tabs, config.title);
    let overflow = min(width_sum(widths), u16::MAX as int) > content.width;
    let strip = minimal_strip(tabs, content, config);
    let scroll = next_scroll(
        overflow,
        state.reveal_focused_tab,
        tabs,
        state.tab_scroll as int,
        widths,
        strip.1,
        0,
    );
    let placed = place_tabs(widths, scroll, strip.0, sat_add(strip.0, strip.1 as int), area.y, 0);
    let hits = HitsModel { tabs: old_hits.tabs + placed_hits(placed, tabs), ..old_hits };
    TabBarPass {
        scroll,
        hits,
        runs: slot_runs(placed, tabs, SlotKind::Minimal { title: config.title }) + indicator_run(
            hits,
            tabs,
            insert,
            content,
            area.y,
        ),
    }
}

/// The runs of the status segments from segment `i` on, starting at
/// column `x`: the separator before every segment but the first (when it
/// has a width), then the segment's text.
pub open spec fn status_runs_from(
    segs: Seq<ClientShellTabStatusSegment>,
    sep: Seq<char>,
    i: int,
    x: int,
    y: u16,
) -> Seq<RunModel>
    decreases segs.len() - i,
{
    if i < 0 || i >= segs.len() {
        Seq::empty()
    } else {
        let sw = display_width_spec(sep);
        let lead = i > 0 && sw > 0;
        let x1 = if lead {
            sat_add(x, sw as int)
        } else {
            x
        };
        let w = display_width_spec(segs[i].text@);
        (if lead {
            seq![run(x as u16, y, sw, sep, RunStyle::StatusSeparator)]
        } else {
            Seq::empty()
        }) + seq![
            run(x1 as u16, y, w, segs[i].text@, RunStyle::StatusSegment { accent: segs[i].accent }),
        ] + status_runs_from(segs, sep, i + 1, sat_add(x1, w as int), y)
    }
}

/// The runs of the right-hand status, when the bar has room for it.
pub open spec fn status_runs(snapshot: TabBarSnapshot, area: Rect) -> Seq<RunModel> {
    match status_area_spec(snapshot, area) {
        Some(status) => status_runs_from(
            snapshot.tab_bar_right@,
            snapshot.tab_bar_right_separator@,
            0,
            status.x as int,
            area.y,
        ),
        None => Seq::empty(),
    }
}

/// The tabs that belong to the focused workspace, in order (none when no
/// workspace is focused).
pub open spec fn workspace_tabs(tabs: Seq<ClientShellTab>, focused: Option<String>) -> Seq<
    ClientShellTab,
>
    decreases tabs.len(),
{
    if tabs.len() == 0 {
        Seq::empty()
    } else {
        let rest = workspace_tabs(tabs.drop_last(), focused);
        if focused is Some && tabs.last().workspace_id@ == focused->0@ {
            rest.push(tabs.last())
        } else {
            rest
        }
    }
}

/// A whole tab-bar pass: the focused workspace's tabs in the configured
/// style, then the status segments.
pub open spec fn tab_bar_pass(
    area: Rect,
    snapshot: TabBarSnapshot,
    config: TabBarConfig,
    state: TabBarState,
    insert: Option<usize>,
    prefix_highlight: bool,
    old_hits: HitsModel,
) -> TabBarPass {
    let tabs = workspace_tabs(snapshot.tabs@, snapshot.focused_workspace_id);
    let pass = match config.style {
        TabBarStyle::Classic => classic_pass(
            area,
            snapshot,
            config,
            tabs,
            state,
            insert,
            prefix_highlight,
            old_hits,
        ),
        TabBarStyle::Minimal => minimal_pass(area, snapshot, config, tabs, state, insert, old_hits),
    };
    TabBarPass { runs: pass.runs + status_runs(snapshot, area), ..pass }
}

// ---------------------------------------------------------------------------
// Laws
// ---------------------------------------------------------------------------

/// The cells slots `i..` take, unsaturated.
pub open spec fn suffix_sum(widths: Seq<u16>, i: int) -> int
    decreases widths.len() - i,
{
    if i < 0 || i >= widths.len() {
        0
    } else {
        widths[i] + suffix_sum(widths, i + 1)
    }
}

proof fn lemma_prefix_suffix(widths: Seq<u16>, k: int)
    requires
        0 <= k <= widths.len(),
    ensures
        width_sum(widths.subrange(0, k)) + suffix_sum(widths, k) == width_sum(widths),
    decreases widths.len() - k,
{
    if k == widths.len() {
        assert(widths.subrange(0, k) =~= widths);
    } else {
        lemma_prefix_suffix(widths, k + 1);
        assert(widths.subrange(0, k + 1).drop_last() =~= widths.subrange(0, k));
    }
}

proof fn lemma_suffix_nonneg(widths: Seq<u16>, i: int)
    ensures
        suffix_sum(widths, i) >= 0,
    decreases widths.len() - i,
{
    if 0 <= i < widths.len() {
        lemma_suffix_nonneg(widths, i + 1);
    }
}

/// Slots that fit exactly between `x` and `right` are all placed, at full
/// width, each flush against the next, the last ending at `right`.
proof fn lemma_place_fitting(widths: Seq<u16>, i: int, x: int, right: int, y: u16)
    requires
        0 <= i < widths.len(),
        forall|j: int| 0 <= j < widths.len() ==> #[trigger] widths[j] > 0,
        0 <= x,
        x + suffix_sum(widths, i) == right,
        right <= u16::MAX,
    ensures
        ({
            let placed = place_tabs(widths, i, x, right, y, 0);
            &&& placed.len() == widths.len() - i
            &&& placed[0].1.x == x
            &&& right_of(placed.last().1) == right
            &&& forall|k: int| 0 <= k < placed.len() ==> (#[trigger] placed[k]).0 == i + k
            &&& forall|k: int|
                0 <= k < placed.len() - 1 ==> right_of((#[trigger] placed[k]).1) == placed[k + 1].1.x
        }),
    decreases widths.len() - i,
{
    lemma_suffix_nonneg(widths, i + 1);
    let w = widths[i] as int;
    let r = rect_new(x as u16, y, w as u16, 1);
    let next = sat_add(x, w);
    assert(next == x + w);
    if i + 1 < widths.len() {
        lemma_place_fitting(widths, i + 1, next, right, y);
        let rest = place_tabs(widths, i + 1, next, right, y, 0);
        let placed = place_tabs(widths, i, x, right, y, 0);
        assert(placed == seq![(i, r)] + rest);
        assert forall|k: int| 0 <= k < placed.len() implies (#[trigger] placed[k]).0 == i + k by {
            if k > 0 {
                assert(placed[k] == rest[k - 1]);
            }
        }
        assert forall|k: int| 0 <= k < placed.len() - 1 implies right_of((#[trigger] placed[k]).1)
            == placed[k + 1].1.x by {
            assert(placed[k + 1] == rest[k]);
            if k > 0 {
                assert(placed[k] == rest[k - 1]);
            }
        }
    } else {
        let placed = place_tabs(widths, i, x, right, y, 0);
        assert(place_tabs(widths, i + 1, next, right, y, 0) == Seq::<(int, Rect)>::empty());
        assert(placed =~= seq![(i, r)]);
    }
}

/// While the minimal slots fit, every tab gets its slot, the strip is not
/// scrolled, the slots sit flush against each other, and the strip is
/// anchored to the edge `align` names: its first slot at the left edge of
/// the content area, or its last slot ending at the right edge (so the last
/// slot's trailing space is the gap before the edge).
pub proof fn law_fitting_minimal_strip_is_flush_with_its_edge(
    area: Rect,
    snapshot: TabBarSnapshot,
    config: TabBarConfig,
    tabs: Seq<ClientShellTab>,
    state: TabBarState,
    insert: Option<usize>,
    old_hits: HitsModel,
)
    requires
        area.x + area.width <= u16::MAX,
        tabs.len() > 0,
        width_sum(minimal_widths(tabs, config.title)) <= content_area_spec(snapshot, area).width,
    ensures
        ({
            let pass = minimal_pass(area, snapshot, config, tabs, state, insert, old_hits);
            let content = content_area_spec(snapshot, area);
            let shown = pass.hits.tabs.subrange(old_hits.tabs.len() as int, pass.hits.tabs.len() as int);
            &&& pass.scroll == 0
            &&& shown.len() == tabs.len()
            &&& forall|k: int| 0 <= k < shown.len() ==> (#[trigger] shown[k]).1 == tabs[k].tab_id@
            &&& forall|k: int|
                0 <= k < shown.len() - 1 ==> right_of((#[trigger] shown[k]).0) == shown[k + 1].0.x
            &&& config.align == TabBarAlign::Left ==> shown[0].0.x == content.x
            &&& config.align == TabBarAlign::Right ==> right_of(shown.last().0) == right_of(content)
        }),
{
    let content = content_area_spec(snapshot, area);
    let widths = minimal_widths(tabs, config.title);
    lemma_width_sum_nonneg(widths);
    lemma_prefix_suffix(widths, 0);
    assert(widths.subrange(0, 0) =~= Seq::<u16>::empty());
    let total = width_sum(widths);
    let strip = minimal_strip(tabs, content, config);
    assert(strip.1 == total);
    let right = sat_add(strip.0, strip.1 as int);
    assert(content.x == area.x && content.width <= area.width);
    assert(strip.0 + total <= u16::MAX);
    assert(right == strip.0 + total);
    assert forall|j: int| 0 <= j < widths.len() implies #[trigger] widths[j] > 0 by {}
    if config.align == TabBarAlign::Right {
        assert(right == right_of(content));
    } else {
        assert(strip.0 == content.x);
    }
    lemma_place_fitting(widths, 0, strip.0, right, area.y);
    let placed = place_tabs(widths, 0, strip.0, right, area.y, 0);
    let pass = minimal_pass(area, snapshot, config, tabs, state, insert, old_hits);
    let shown = pass.hits.tabs.subrange(old_hits.tabs.len() as int, pass.hits.tabs.len() as int);
    assert(shown =~= placed_hits(placed, tabs));
}

/// A pass that does not reveal the focused tab never scrolls past the
/// largest useful offset: it scrolls to 0 when everything fits and clamps
/// the old offset otherwise.
pub proof fn law_scroll_stays_within_reach(
    overflow: bool,
    tabs: Seq<ClientShellTab>,
    old_scroll: int,
    widths: Seq<u16>,
    available: u16,
    gap: u16,
)
    ensures
        next_scroll(overflow, false, tabs, old_scroll, widths, available, gap) <= max(
            0,
            max_scroll_spec(widths, available, gap),
        ),
        !overflow ==> next_scroll(overflow, true, tabs, old_scroll, widths, available, gap) == 0,
{
}

/// A pass that does not reveal the focused tab keeps where the user
/// scrolled to: while the tabs overflow, an offset still within reach (at
/// most the largest useful one) is kept as it is, and a larger one is
/// pulled back to exactly the largest useful one; the offset never grows.
pub proof fn law_unrevealed_scroll_keeps_the_users_offset(
    tabs: Seq<ClientShellTab>,
    old_scroll: int,
    widths: Seq<u16>,
    available: u16,
    gap: u16,
)
    ensures
        old_scroll <= max_scroll_spec(widths, available, gap) ==> next_scroll(
            true,
            false,
            tabs,
            old_scroll,
            widths,
            available,
            gap,
        ) == old_scroll,
        old_scroll > max_scroll_spec(widths, available, gap) ==> next_scroll(
            true,
            false,
            tabs,
            old_scroll,
            widths,
            available,
            gap,
        ) == max_scroll_spec(widths, available, gap),
        next_scroll(true, false, tabs, old_scroll, widths, available, gap) <= old_scroll,
{
}

/// A pass that reveals the focused tab scrolls so that it shows: when the
/// tabs overflow and one of them is focused, the new offset is at most the
/// focused tab's index and the last visible tab is the focused one or a
/// later one.
pub proof fn law_revealed_focused_tab_is_shown(
    tabs: Seq<ClientShellTab>,
    old_scroll: int,
    widths: Seq<u16>,
    available: u16,
    gap: u16,
)
    requires
        widths.len() == tabs.len() <= usize::MAX,
        available > 0,
        focused_from(tabs, 0) is Some,
    ensures
        ({
            let f = focused_from(tabs, 0)->0;
            let s = next_scroll(true, true, tabs, old_scroll, widths, available, gap);
            &&& 0 <= s <= f
            &&& last_visible_spec(s, widths, available, gap) matches Some(l) && f <= l
        }),
{
    lemma_focused_from_bound(tabs, 0);
    law_centered_scroll_shows_the_focused_slot(widths, focused_from(tabs, 0)->0, available, gap);
}

/// Painting and hit-testing agree: in a minimal pass the n-th text run is
/// painted exactly over the n-th new hit area, and names its tab.
pub proof fn law_minimal_runs_cover_their_hit_areas(
    area: Rect,
    snapshot: TabBarSnapshot,
    config: TabBarConfig,
    tabs: Seq<ClientShellTab>,
    state: TabBarState,
    insert: Option<usize>,
    old_hits: HitsModel,
)
    ensures
        ({
            let pass = minimal_pass(area, snapshot, config, tabs, state, insert, old_hits);
            let shown = pass.hits.tabs.subrange(old_hits.tabs.len() as int, pass.hits.tabs.len() as int);
            &&& shown.len() <= pass.runs.len()
            &&& forall|k: int|
                0 <= k < shown.len() ==> (#[trigger] pass.runs[k]).x == shown[k].0.x && pass.runs[k].y
                    == shown[k].0.y && pass.runs[k].width == shown[k].0.width
        }),
{
    let pass = minimal_pass(area, snapshot, config, tabs, state, insert, old_hits);
    let shown = pass.hits.tabs.subrange(old_hits.tabs.len() as int, pass.hits.tabs.len() as int);
    let content = content_area_spec(snapshot, area);
    let widths = minimal_widths(tabs, config.title);
    let overflow = min(width_sum(widths), u16::MAX as int) > content.width;
    let strip = minimal_strip(tabs, content, config);
    let scroll = next_scroll(overflow, state.reveal_focused_tab, tabs, state.tab_scroll as int, widths, strip.1, 0);
    let placed = place_tabs(widths, scroll, strip.0, sat_add(strip.0, strip.1 as int), area.y, 0);
    assert(shown =~= placed_hits(placed, tabs));
    let runs = slot_runs(placed, tabs, SlotKind::Minimal { title: config.title });
    assert forall|k: int| 0 <= k < shown.len() implies (#[trigger] pass.runs[k]).x == shown[k].0.x
        && pass.runs[k].y == shown[k].0.y && pass.runs[k].width == shown[k].0.width by {
        assert(pass.runs[k] == runs[k]);
    }
}

/// Painting and hit-testing agree in the classic strip too: after the
/// left scroll button's run (when shown), the n-th text run is painted
/// exactly over the n-th new tab hit area.
pub proof fn law_classic_runs_cover_their_hit_areas(
    area: Rect,
    snapshot: TabBarSnapshot,
    config: TabBarConfig,
    tabs: Seq<ClientShellTab>,
    state: TabBarState,
    insert: Option<usize>,
    prefix_highlight: bool,
    old_hits: HitsModel,
)
    ensures
        ({
            let pass = classic_pass(area, snapshot, config, tabs, state, insert, prefix_highlight, old_hits);
            let content = content_area_spec(snapshot, area);
            let skip: int = if classic_buttons(tabs, content, config.mouse_capture) { 1 } else { 0 };
            let shown = pass.hits.tabs.subrange(old_hits.tabs.len() as int, pass.hits.tabs.len() as int);
            &&& skip + shown.len() <= pass.runs.len()
            &&& forall|k: int|
                0 <= k < shown.len() ==> (#[trigger] pass.runs[skip + k]).x == shown[k].0.x
                    && pass.runs[skip + k].y == shown[k].0.y && pass.runs[skip + k].width
                    == shown[k].0.width
        }),
{
    reveal(classic_finish);
    let pass = classic_pass(area, snapshot, config, tabs, state, insert, prefix_highlight, old_hits);
    let content = content_area_spec(snapshot, area);
    let mouse = config.mouse_capture;
    let widths = classic_widths(tabs);
    let overflow = classic_overflow(tabs, content, mouse);
    let buttons = classic_buttons(tabs, content, mouse);
    let available = classic_available(tabs, content, mouse);
    let scroll = next_scroll(overflow, state.reveal_focused_tab, tabs, state.tab_scroll as int, widths, available, 1);
    let left = classic_scroll_left(content);
    let placed = place_tabs(
        widths,
        scroll,
        classic_start_x(tabs, content, mouse),
        classic_tab_right(tabs, content, mouse),
        area.y,
        1,
    );
    let skip: int = if buttons { 1 } else { 0 };
    let left_button = if buttons {
        seq![run(left.x, content.y, left.width, " < "@, RunStyle::ScrollButton { enabled: scroll > 0 })]
    } else {
        Seq::<RunModel>::empty()
    };
    let tab_runs = slot_runs(placed, tabs, SlotKind::Classic { prefix_highlight });
    let shown = pass.hits.tabs.subrange(old_hits.tabs.len() as int, pass.hits.tabs.len() as int);
    assert(shown =~= placed_hits(placed, tabs));
    assert(left_button.len() == skip);
    assert forall|k: int| 0 <= k < shown.len() implies (#[trigger] pass.runs[skip + k]).x == shown[k].0.x
        && pass.runs[skip + k].y == shown[k].0.y && pass.runs[skip + k].width == shown[k].0.width by {
        assert(pass.runs[skip + k] == tab_runs[k]);
    }
}

proof fn lemma_place_step(desired: Seq<u16>, i: int, x: int, right: int, y: u16, gap: int)
    requires
        0 <= i < desired.len(),
        0 <= x <= u16::MAX,
        0 <= right <= u16::MAX,
        min(desired[i] as int, sat_sub(right, x)) > 0,
    ensures
        ({
            let width = min(desired[i] as int, sat_sub(right, x));
            let r = rect_new(x as u16, y, width as u16, 1);
            &&& place_tabs(desired, i, x, right, y, gap) == seq![(i, r)] + (if width
                < desired[i] {
                Seq::empty()
            } else {
                place_tabs(desired, i + 1, sat_add(x, width + gap), right, y, gap)
            })
            &&& place_end(desired, i, x, right, y, gap) == (if width < desired[i] {
                sat_add(x, width + gap)
            } else {
                place_end(desired, i + 1, sat_add(x, width + gap), right, y, gap)
            })
        }),
{
    let width = min(desired[i] as int, sat_sub(right, x));
    if width < desired[i] {
        let r = rect_new(x as u16, y, width as u16, 1);
        assert(seq![(i, r)] + Seq::<(int, Rect)>::empty() =~= seq![(i, r)]);
    }
}

proof fn lemma_place_bounds(desired: Seq<u16>, i: int, x: int, right: int, y: u16, gap: int)
    requires
        0 <= i,
    ensures
        forall|k: int|
            0 <= k < place_tabs(desired, i, x, right, y, gap).len() ==> i <= (#[trigger] place_tabs(
                desired,
                i,
                x,
                right,
                y,
                gap,
            )[k]).0 < desired.len(),
    decreases desired.len() - i,
{
    if 0 <= i < desired.len() {
        let width = min(desired[i] as int, sat_sub(right, x));
        if width > 0 && width >= desired[i] {
            lemma_place_bounds(desired, i + 1, sat_add(x, width + gap), right, y, gap);
            let rest = place_tabs(desired, i + 1, sat_add(x, width + gap), right, y, gap);
            let r = rect_new(x as u16, y, width as u16, 1);
            assert forall|k: int|
                0 <= k < place_tabs(desired, i, x, right, y, gap).len() implies i <= (
            #[trigger] place_tabs(desired, i, x, right, y, gap)[k]).0 < desired.len() by {
                if k > 0 {
                    assert(place_tabs(desired, i, x, right, y, gap)[k] == rest[k - 1]);
                }
            }
        }
    }
}

/// One classic tab's padded text.
fn padded(name: &String, width: u16) -> (text: String)
    ensures
        text@ == padded_label(name@, width),
{
    let padding = width.saturating_sub(display_width(name.as_str()));
    let left = padding / 2;
    let mut text = spaces(left);
    text.append(name.as_str());
    let right = spaces(padding - left);
    text.append(right.as_str());
    text
}

fn classic_style(tab: &ClientShellTab, prefix_highlight: bool) -> (style: RunStyle)
    ensures
        style == classic_tab_style(*tab, prefix_highlight),
{
    if tab.focused {
        RunStyle::FocusedTab { prefix_highlight, bold: tab.custom_label }
    } else if tab.custom_label {
        RunStyle::CustomTab
    } else {
        RunStyle::AutoTab
    }
}

fn slot_text_of(tab: &ClientShellTab, width: u16, kind: SlotKind) -> (text: String)
    ensures
        text@ == slot_text(*tab, width, kind),
{
    match kind {
        SlotKind::Classic { .. } => {
            let name = tab_label(tab);
            padded(&name, width)
        },
        SlotKind::Minimal { title } => {
            let mut text = String::new();
            push_char(&mut text, marker_glyph_of(tab));
            if title {
                push_char(&mut text, ' ');
                let name = tab_label(tab);
                text.append(name.as_str());
                assert(text@ =~= seq![marker_glyph(*tab), ' '] + tab_label_spec(*tab));
            } else {
                assert(text@ =~= seq![marker_glyph(*tab)]);
            }
            text
        },
    }
}

fn slot_style_of(tab: &ClientShellTab, kind: SlotKind) -> (style: RunStyle)
    ensures
        style == slot_style(*tab, kind),
{
    match kind {
        SlotKind::Classic { prefix_highlight } => classic_style(tab, prefix_highlight),
        SlotKind::Minimal { .. } => RunStyle::Marker { focused: tab.focused },
    }
}

fn classic_width_list(tabs: &[ClientShellTab]) -> (widths: Vec<u16>)
    ensures
        widths@ == classic_widths(tabs@),
{
    let n = tabs.len();
    let mut widths: Vec<u16> = Vec::new();
    let mut i: usize = 0;
    while i < n
        invariant
            n == tabs@.len(),
            i <= n,
            widths@ == classic_widths(tabs@).subrange(0, i as int),
        decreases n - i,
    {
        widths.push(classic_tab_width(&tabs[i]));
        i = i + 1;
        assert(widths@ =~= classic_widths(tabs@).subrange(0, i as int));
    }
    assert(classic_widths(tabs@).subrange(0, n as int) =~= classic_widths(tabs@));
    widths
}

fn push_run(runs: &mut Vec<TextRun>, x: u16, y: u16, width: u16, text: String, style: RunStyle)
    ensures
        runs_model(final(runs)@) == runs_model(old(runs)@).push(run(x, y, width, text@, style)),
{
    let r = TextRun { x, y, width, text, style };
    runs.push(r);
    assert(runs_model(runs@) =~= runs_model(old(runs)@).push(run(x, y, width, r.text@, style)));
}

fn push_hit(hits: &mut TabHits, rect: Rect, id: String)
    ensures
        hit_entries(final(hits).tabs@) == hit_entries(old(hits).tabs@).push((rect, id@)),
        final(hits).tab_scroll_left == old(hits).tab_scroll_left,
        final(hits).tab_scroll_right == old(hits).tab_scroll_right,
        final(hits).new_tab == old(hits).new_tab,
{
    hits.tabs.push((rect, id));
    assert(hit_entries(hits.tabs@) =~= hit_entries(old(hits).tabs@).push((rect, id@)));
}

/// Places the slots from tab `scroll` on, from column `start` up to
/// `tab_right` with `gap` blank cells after each, pushing their runs and hits.
fn place_slots(
    area: Rect,
    content: Rect,
    tabs: &[ClientShellTab],
    widths: &Vec<u16>,
    scroll: usize,
    start: u16,
    tab_right: u16,
    gap: u16,
    kind: SlotKind,
    hits: &mut TabHits,
    runs: &mut Vec<TextRun>,
) -> (result: (u16, Option<usize>, Option<usize>))
    requires
        widths@.len() == tabs@.len(),
        gap <= 1,
        content.x == area.x,
        content.width <= area.width,
        gap == 0 || start >= content.x,
        tab_right as int <= right_of(content),
    ensures
        ({
            let placed = place_tabs(widths@, scroll as int, start as int, tab_right as int, area.y, gap as int);
            &&& result.0 as int == place_end(
                widths@,
                scroll as int,
                start as int,
                tab_right as int,
                area.y,
                gap as int,
            )
            &&& hit_entries(final(hits).tabs@) == hit_entries(old(hits).tabs@) + placed_hits(
                placed,
                tabs@,
            )
            &&& final(hits).tab_scroll_left == old(hits).tab_scroll_left
            &&& final(hits).tab_scroll_right == old(hits).tab_scroll_right
            &&& final(hits).new_tab == old(hits).new_tab
            &&& runs_model(final(runs)@) == runs_model(old(runs)@) + slot_runs(placed, tabs@, kind)
            &&& placed.len() == 0 ==> result.1 is None && result.2 is None
            &&& placed.len() > 0 ==> result.1 == Some(placed[0].0 as usize) && result.2 == Some(
                placed.last().0 as usize,
            )
        }),
{
    let n = tabs.len();
    let mut x = start;
    let ghost start_x = start as int;
    let ghost runs1 = runs_model(runs@);
    let ghost hits1 = hit_entries(hits.tabs@);
    let ghost old_hits = hits_view(*hits);
    proof {
        lemma_place_bounds(widths@, scroll as int, start_x, tab_right as int, area.y, gap as int);
    }
    let mut index = scroll;
    let mut stop = false;
    let mut first_visible: Option<usize> = None;
    let mut last_visible: Option<usize> = None;
    let ghost mut placed: Seq<(int, Rect)> = Seq::empty();
    while index < n && !stop
        invariant
            n == tabs@.len(),
            widths@.len() == n,
            gap <= 1,
            content.x == area.x,
            content.width <= area.width,
            gap == 0 || x >= content.x,
            tab_right as int <= right_of(content),
            forall|k: int|
                0 <= k < place_tabs(widths@, scroll as int, start_x, tab_right as int, area.y, gap as int).len()
                    ==> scroll <= (#[trigger] place_tabs(
                    widths@,
                    scroll as int,
                    start_x,
                    tab_right as int,
                    area.y,
                    gap as int,
                )[k]).0 < n,
            scroll <= index,
            placed + place_tabs(widths@, index as int, x as int, tab_right as int, area.y, gap as int)
                == place_tabs(widths@, scroll as int, start_x, tab_right as int, area.y, gap as int),
            place_end(widths@, index as int, x as int, tab_right as int, area.y, gap as int) == place_end(
                widths@,
                scroll as int,
                start_x,
                tab_right as int,
                area.y,
                gap as int,
            ),
            stop ==> place_tabs(widths@, index as int, x as int, tab_right as int, area.y, gap as int)
                == Seq::<(int, Rect)>::empty() && place_end(
                widths@,
                index as int,
                x as int,
                tab_right as int,
                area.y,
                gap as int,
            ) == x as int,
            forall|k: int| 0 <= k < placed.len() ==> 0 <= (#[trigger] placed[k]).0 < n,
            hit_entries(hits.tabs@) == hits1 + placed_hits(placed, tabs@),
            hits.tab_scroll_left == old_hits.tab_scroll_left,
            hits.tab_scroll_right == old_hits.tab_scroll_right,
            hits.new_tab == old_hits.new_tab,
            runs_model(runs@) == runs1 + slot_runs(placed, tabs@, kind),
            placed.len() == 0 ==> first_visible is None && last_visible is None,
            placed.len() > 0 ==> first_visible == Some(placed[0].0 as usize) && last_visible
                == Some(placed.last().0 as usize),
        decreases n - index + (if stop {
            0int
        } else {
            1int
        }),
    {
        let desired = widths[index];
        let remaining = tab_right.saturating_sub(x);
        let width = if desired < remaining {
            desired
        } else {
            remaining
        };
        if width == 0 {
            stop = true;
        } else {
            proof {
                lemma_place_step(widths@, index as int, x as int, tab_right as int, area.y, gap as int);
            }
            let rect = Rect::new(x, area.y, width, 1);
            let style = slot_style_of(&tabs[index], kind);
            let text = slot_text_of(&tabs[index], width, kind);
            let ghost entry = (index as int, rect);
            push_run(runs, rect.x, rect.y, rect.width, text, style);
            push_hit(hits, rect, tabs[index].tab_id.clone());
            proof {
                assert(slot_runs(placed.push(entry), tabs@, kind) =~= slot_runs(placed, tabs@, kind).push(
                    run(
                        rect.x,
                        rect.y,
                        rect.width,
                        slot_text(tabs@[index as int], rect.width, kind),
                        slot_style(tabs@[index as int], kind),
                    ),
                ));
                assert(placed_hits(placed.push(entry), tabs@) =~= placed_hits(placed, tabs@).push(
                    (rect, tabs@[index as int].tab_id@),
                ));
                assert((hits1 + placed_hits(placed, tabs@)).push((rect, tabs@[index as int].tab_id@))
                    =~= hits1 + placed_hits(placed.push(entry), tabs@));
                assert((runs1 + slot_runs(placed, tabs@, kind)).push(
                    run(
                        rect.x,
                        rect.y,
                        rect.width,
                        slot_text(tabs@[index as int], rect.width, kind),
                        slot_style(tabs@[index as int], kind),
                    ),
                ) =~= runs1 + slot_runs(placed.push(entry), tabs@, kind));
                let rest = if width < desired {
                    Seq::<(int, Rect)>::empty()
                } else {
                    place_tabs(
                        widths@,
                        index + 1,
                        sat_add(x as int, width + gap),
                        tab_right as int,
                        area.y,
                        1,
                    )
                };
                assert(placed + (seq![entry] + rest) =~= placed.push(entry) + rest);
                placed = placed.push(entry);
            }
            if first_visible.is_none() {
                first_visible = Some(index);
            }
            last_visible = Some(index);
            let step: u32 = x as u32 + width as u32 + gap as u32;
            x = if step > 65535 {
                u16::MAX
            } else {
                step as u16
            };
            if width < desired {
                stop = true;
            }
            index = index + 1;
            proof {
                if stop {
                    assert(placed + Seq::<(int, Rect)>::empty() =~= placed);
                }
            }
        }
    }
    let ghost all_placed = place_tabs(widths@, scroll as int, start_x, tab_right as int, area.y, gap as int);
    assert(placed =~= all_placed) by {
        if !stop {
            assert(place_tabs(widths@, index as int, x as int, tab_right as int, area.y, gap as int)
                =~= Seq::<(int, Rect)>::empty());
        }
        assert(placed + Seq::<(int, Rect)>::empty() =~= placed);
    }
    assert(x as int == place_end(widths@, scroll as int, start_x, tab_right as int, area.y, gap as int));
    (x, first_visible, last_visible)
}

/// The right scroll button, the "+" button, the ellipses and the drop
/// indicator of the classic strip, after its tabs are placed.
#[verifier::rlimit(80)]
#[verifier::spinoff_prover]
fn finish_classic_tabs(
    area: Rect,
    content: Rect,
    mouse: bool,
    buttons: bool,
    n: usize,
    tab_right: u16,
    end_x: u16,
    first_visible: Option<usize>,
    last_visible: Option<usize>,
    tabs: &[ClientShellTab],
    insert: Option<usize>,
    hits: &mut TabHits,
    runs: &mut Vec<TextRun>,
)
    requires
        n == tabs@.len(),
        buttons ==> mouse,
    ensures
        ({
            let fin = classic_finish(
                area,
                content,
                mouse,
                buttons,
                n as int,
                tab_right,
                end_x,
                first_visible,
                last_visible,
                tabs@,
                insert,
                hits_view(*old(hits)),
            );
            &&& hits_view(*final(hits)) == fin.0
            &&& runs_model(final(runs)@) == runs_model(old(runs)@) + fin.1
        }),
{
    proof {
        reveal(classic_finish);
    }
    let ghost runs0 = runs_model(runs@);
    if buttons {
        hits.tab_scroll_right = Rect::new(tab_right, area.y, TAB_SCROLL_BUTTON_WIDTH, 1);
        let can_scroll_right = match last_visible {
            Some(index) => index < n && n - index > 1,
            None => false,
        };
        push_run(
            runs,
            hits.tab_scroll_right.x,
            area.y,
            hits.tab_scroll_right.width,
            " > ".to_owned(),
            RunStyle::ScrollButton { enabled: can_scroll_right },
        );
        let room = content.right().saturating_sub(hits.tab_scroll_right.right());
        hits.new_tab = Rect::new(
            hits.tab_scroll_right.right(),
            area.y,
            if room < NEW_TAB_WIDTH {
                room
            } else {
                NEW_TAB_WIDTH
            },
            1,
        );
    } else if mouse {
        let right = content.right();
        let room = right.saturating_sub(end_x);
        hits.new_tab = Rect::new(
            if end_x < right {
                end_x
            } else {
                right
            },
            area.y,
            if room < NEW_TAB_WIDTH {
                room
            } else {
                NEW_TAB_WIDTH
            },
            1,
        );
    }
    let ghost runs1 = runs_model(runs@);
    if mouse {
        push_run(runs, hits.new_tab.x, area.y, hits.new_tab.width, " + ".to_owned(), RunStyle::NewTab);
    }
    let ghost runs2 = runs_model(runs@);
    match first_visible {
        Some(index) => {
            if index > 0 {
                let ellipsis_x = if hits.tab_scroll_left.width > 0 {
                    hits.tab_scroll_left.right()
                } else {
                    content.x
                };
                push_run(
                    runs,
                    ellipsis_x,
                    area.y,
                    if ellipsis_x < content.right() {
                        1
                    } else {
                        0
                    },
                    "…".to_owned(),
                    RunStyle::Ellipsis,
                );
            }
        },
        None => {},
    }
    let ghost runs3 = runs_model(runs@);
    match last_visible {
        Some(index) => {
            if index < n && n - index > 1 {
                let ellipsis_x = if hits.tab_scroll_right.width > 0 {
                    hits.tab_scroll_right.x.saturating_sub(1)
                } else {
                    content.right().saturating_sub(1)
                };
                push_run(
                    runs,
                    ellipsis_x,
                    area.y,
                    if ellipsis_x >= content.x && ellipsis_x < content.right() {
                        1
                    } else {
                        0
                    },
                    "…".to_owned(),
                    RunStyle::Ellipsis,
                );
            }
        },
        None => {},
    }
    let ghost runs4 = runs_model(runs@);
    match insert {
        Some(insert_index) => {
            match tab_drop_indicator_x(hits, tabs, insert_index) {
                Some(indicator_x) => {
                    let last_col = content.right().saturating_sub(1);
                    push_run(
                        runs,
                        if indicator_x < last_col {
                            indicator_x
                        } else {
                            last_col
                        },
                        area.y,
                        1,
                        "│".to_owned(),
                        RunStyle::DropIndicator,
                    );
                },
                None => {},
            }
        },
        None => {},
    }
    assert(hit_entries(hits.tabs@) == hit_entries(old(hits).tabs@));
}

/// The classic tab strip: padded text tabs, scroll buttons and the "+"
/// button, per [`classic_pass`].
pub fn render_classic_tabs(
    area: Rect,
    snapshot: &TabBarSnapshot,
    config: TabBarConfig,
    tabs: &[ClientShellTab],
    state: &mut TabBarState,
    tab_drag_insert_index: Option<usize>,
    prefix_highlight: bool,
    hits: &mut TabHits,
    runs: &mut Vec<TextRun>,
)
    ensures
        ({
            let pass = classic_pass(
                area,
                *snapshot,
                config,
                tabs@,
                *old(state),
                tab_drag_insert_index,
                prefix_highlight,
                hits_view(*old(hits)),
            );
            &&& final(state).tab_scroll as int == pass.scroll
            &&& !final(state).reveal_focused_tab
            &&& hits_view(*final(hits)) == pass.hits
            &&& runs_model(final(runs)@) == runs_model(old(runs)@) + pass.runs
        }),
{
    let ghost old_hits = hits_view(*hits);
    let ghost old_state = *state;
    let ghost runs0 = runs_model(runs@);
    let ghost pass = classic_pass(
        area,
        *snapshot,
        config,
        tabs@,
        old_state,
        tab_drag_insert_index,
        prefix_highlight,
        old_hits,
    );
    let content = tab_bar_content_area(snapshot, area);
    let mouse = config.mouse_capture;
    let n = tabs.len();
    let widths = classic_width_list(tabs);
    let new_tab_w: u16 = if mouse {
        NEW_TAB_WIDTH
    } else {
        0
    };
    let total = saturating_total(&widths);
    let gaps: usize = if n == 0 {
        0
    } else {
        n - 1
    };
    let gaps: u16 = if gaps > 65535 {
        u16::MAX
    } else {
        gaps as u16
    };
    let desired_total = total.saturating_add(gaps).saturating_add(new_tab_w);
    let overflow = desired_total > content.width && (!mouse || content.width >= MIN_TAB_STRIP_WIDTH);
    let buttons = overflow && mouse;
    let available = if buttons {
        content.width.saturating_sub(NEW_TAB_WIDTH).saturating_sub(2 * TAB_SCROLL_BUTTON_WIDTH)
    } else {
        content.width.saturating_sub(new_tab_w)
    };
    assert(overflow == classic_overflow(tabs@, content, mouse));
    assert(available == classic_available(tabs@, content, mouse));
    update_scroll(overflow, state, tabs, &widths, available, 1);
    let scroll = state.tab_scroll;
    assert(scroll as int == pass.scroll);

    let ghost content_s = content_area_spec(*snapshot, area);
    assert(content == content_s);
    let ghost left_s = classic_scroll_left(content);
    let ghost left_button = if buttons {
        seq![run(left_s.x, content.y, left_s.width, " < "@, RunStyle::ScrollButton { enabled: scroll > 0 })]
    } else {
        Seq::<RunModel>::empty()
    };
    let mut x = content.x;
    let tab_right = if buttons {
        let w = if TAB_SCROLL_BUTTON_WIDTH < content.width {
            TAB_SCROLL_BUTTON_WIDTH
        } else {
            content.width
        };
        hits.tab_scroll_left = Rect::new(content.x, content.y, w, 1);
        push_run(
            runs,
            hits.tab_scroll_left.x,
            content.y,
            hits.tab_scroll_left.width,
            " < ".to_owned(),
            RunStyle::ScrollButton { enabled: scroll > 0 },
        );
        x = hits.tab_scroll_left.right();
        content.right().saturating_sub(NEW_TAB_WIDTH + TAB_SCROLL_BUTTON_WIDTH)
    } else {
        content.right().saturating_sub(new_tab_w)
    };
    assert(runs_model(runs@) =~= runs0 + left_button);
    assert(x as int == classic_start_x(tabs@, content, mouse));
    assert(tab_right as int == classic_tab_right(tabs@, content, mouse));
    let ghost placed = place_tabs(widths@, scroll as int, x as int, tab_right as int, area.y, 1);
    proof {
        lemma_place_bounds(widths@, scroll as int, x as int, tab_right as int, area.y, 1);
    }
    let (x, first_visible, last_visible) = place_slots(
        area,
        content,
        tabs,
        &widths,
        scroll,
        x,
        tab_right,
        1,
        SlotKind::Classic { prefix_highlight },
        hits,
        runs,
    );
    let ghost tab_runs = slot_runs(placed, tabs@, SlotKind::Classic { prefix_highlight });
    let ghost before = HitsModel {
        tabs: old_hits.tabs + placed_hits(placed, tabs@),
        tab_scroll_left: if buttons {
            left_s
        } else {
            old_hits.tab_scroll_left
        },
        tab_scroll_right: old_hits.tab_scroll_right,
        new_tab: old_hits.new_tab,
    };
    assert(hits_view(*hits) == before);
    assert(runs_model(runs@) == runs0 + left_button + tab_runs);
    assert(first_visible == first_placed(placed));
    assert(last_visible == last_placed(placed));
    finish_classic_tabs(
        area,
        content,
        mouse,
        buttons,
        n,
        tab_right,
        x,
        first_visible,
        last_visible,
        tabs,
        tab_drag_insert_index,
        hits,
        runs,
    );
    assert(runs_model(runs@) =~= runs0 + pass.runs);
}

fn minimal_width_list(tabs: &[ClientShellTab], title: bool) -> (widths: Vec<u16>)
    ensures
        widths@ == minimal_widths(tabs@, title),
{
    let n = tabs.len();
    let mut widths: Vec<u16> = Vec::new();
    let mut i: usize = 0;
    while i < n
        invariant
            n == tabs@.len(),
            i <= n,
            widths@ == minimal_widths(tabs@, title).subrange(0, i as int),
        decreases n - i,
    {
        widths.push(minimal_slot_width(&tabs[i], title));
        i = i + 1;
        assert(widths@ =~= minimal_widths(tabs@, title).subrange(0, i as int));
    }
    assert(minimal_widths(tabs@, title).subrange(0, n as int) =~= minimal_widths(tabs@, title));
    widths
}

/// Pushes the drop-indicator run for a drag that would insert at `insert`.
fn push_indicator(
    hits: &TabHits,
    tabs: &[ClientShellTab],
    insert: Option<usize>,
    content: Rect,
    y: u16,
    runs: &mut Vec<TextRun>,
)
    ensures
        runs_model(final(runs)@) == runs_model(old(runs)@) + indicator_run(
            hits_view(*hits),
            tabs@,
            insert,
            content,
            y,
        ),
{
    match insert {
        Some(insert_index) => {
            match tab_drop_indicator_x(hits, tabs, insert_index) {
                Some(indicator_x) => {
                    let last_col = content.right().saturating_sub(1);
                    push_run(
                        runs,
                        if indicator_x < last_col {
                            indicator_x
                        } else {
                            last_col
                        },
                        y,
                        1,
                        "│".to_owned(),
                        RunStyle::DropIndicator,
                    );
                },
                None => {
                    assert(runs_model(runs@) =~= runs_model(old(runs)@) + Seq::<RunModel>::empty());
                },
            }
        },
        None => {
            assert(runs_model(runs@) =~= runs_model(old(runs)@) + Seq::<RunModel>::empty());
        },
    }
}

/// The minimal tab strip: glyph markers (and labels when titled), per
/// [`minimal_pass`].
pub fn render_minimal_tabs(
    area: Rect,
    snapshot: &TabBarSnapshot,
    config: TabBarConfig,
    tabs: &[ClientShellTab],
    state: &mut TabBarState,
    tab_drag_insert_index: Option<usize>,
    hits: &mut TabHits,
    runs: &mut Vec<TextRun>,
)
    ensures
        ({
            let pass = minimal_pass(
                area,
                *snapshot,
                config,
                tabs@,
                *old(state),
                tab_drag_insert_index,
                hits_view(*old(hits)),
            );
            &&& final(state).tab_scroll as int == pass.scroll
            &&& !final(state).reveal_focused_tab
            &&& hits_view(*final(hits)) == pass.hits
            &&& runs_model(final(runs)@) == runs_model(old(runs)@) + pass.runs
        }),
{
    let ghost old_hits = hits_view(*hits);
    let ghost runs0 = runs_model(runs@);
    let ghost old_state = *state;
    let content = tab_bar_content_area(snapshot, area);
    let title = config.title;
    let widths = minimal_width_list(tabs, title);
    let total = saturating_total(&widths);
    let overflow = total > content.width;
    let strip_x: u16;
    let available: u16;
    if overflow {
        strip_x = content.x;
        available = content.width;
    } else {
        available = total;
        strip_x = match config.align {
            TabBarAlign::Left => content.x,
            TabBarAlign::Right => content.right().saturating_sub(total),
        };
    }
    let ghost strip = minimal_strip(tabs@, content, config);
    assert(strip_x as int == strip.0 && available == strip.1);
    update_scroll(overflow, state, tabs, &widths, available, 0);
    let scroll = state.tab_scroll;
    let tab_right = strip_x.saturating_add(available);
    let ghost placed = place_tabs(widths@, scroll as int, strip_x as int, tab_right as int, area.y, 0);
    let _ = place_slots(
        area,
        content,
        tabs,
        &widths,
        scroll,
        strip_x,
        tab_right,
        0,
        SlotKind::Minimal { title },
        hits,
        runs,
    );
    let ghost pass = minimal_pass(
        area,
        *snapshot,
        config,
        tabs@,
        old_state,
        tab_drag_insert_index,
        old_hits,
    );
    assert(hits_view(*hits) == pass.hits);
    push_indicator(hits, tabs, tab_drag_insert_index, content, area.y, runs);
    assert(runs_model(runs@) =~= runs0 + pass.runs);
}

/// The runs of the right-hand status segments, per [`status_runs`].
pub fn render_tab_bar_status(area: Rect, snapshot: &TabBarSnapshot, runs: &mut Vec<TextRun>)
    ensures
        runs_model(final(runs)@) == runs_model(old(runs)@) + status_runs(*snapshot, area),
{
    let ghost runs0 = runs_model(runs@);
    match tab_bar_status_area(snapshot, area) {
        None => {
            assert(runs_model(runs@) =~= runs0 + Seq::<RunModel>::empty());
        },
        Some(status) => {
            let segs = &snapshot.tab_bar_right;
            let ghost sep = snapshot.tab_bar_right_separator@;
            let ghost all = status_runs_from(segs@, sep, 0, status.x as int, area.y);
            let separator_width = display_width(snapshot.tab_bar_right_separator.as_str());
            let n = segs.len();
            let mut x = status.x;
            let mut index: usize = 0;
            let ghost mut done: Seq<RunModel> = Seq::empty();
            assert(done + all =~= all);
            while index < n
                invariant
                    n == segs@.len(),
                    segs == &snapshot.tab_bar_right,
                    sep == snapshot.tab_bar_right_separator@,
                    separator_width == display_width_spec(sep),
                    index <= n,
                    all == status_runs_from(segs@, sep, 0, status.x as int, area.y),
                    done + status_runs_from(segs@, sep, index as int, x as int, area.y) == all,
                    runs_model(runs@) == runs0 + done,
                decreases n - index,
            {
                let ghost rest = status_runs_from(segs@, sep, index as int + 1, 0, area.y);
                let ghost before = runs_model(runs@);
                let ghost x0 = x as int;
                let lead = index > 0 && separator_width > 0;
                if lead {
                    push_run(
                        runs,
                        x,
                        area.y,
                        separator_width,
                        snapshot.tab_bar_right_separator.clone(),
                        RunStyle::StatusSeparator,
                    );
                    x = x.saturating_add(separator_width);
                }
                let width = display_width(segs[index].text.as_str());
                push_run(
                    runs,
                    x,
                    area.y,
                    width,
                    segs[index].text.clone(),
                    RunStyle::StatusSegment { accent: segs[index].accent },
                );
                let ghost x1 = x as int;
                x = x.saturating_add(width);
                proof {
                    let piece = (if lead {
                        seq![run(x0 as u16, area.y, separator_width, sep, RunStyle::StatusSeparator)]
                    } else {
                        Seq::<RunModel>::empty()
                    }) + seq![
                        run(
                            x1 as u16,
                            area.y,
                            width,
                            segs@[index as int].text@,
                            RunStyle::StatusSegment { accent: segs@[index as int].accent },
                        ),
                    ];
                    assert(status_runs_from(segs@, sep, index as int, x0, area.y) == piece
                        + status_runs_from(segs@, sep, index as int + 1, x as int, area.y));
                    assert(runs_model(runs@) =~= before + piece);
                    assert(done + (piece + status_runs_from(
                        segs@,
                        sep,
                        index as int + 1,
                        x as int,
                        area.y,
                    )) =~= (done + piece) + status_runs_from(
                        segs@,
                        sep,
                        index as int + 1,
                        x as int,
                        area.y,
                    ));
                    done = done + piece;
                }
                index = index + 1;
            }
            assert(done + Seq::<RunModel>::empty() =~= done);
        },
    }
}

/// A copy of a tab, equal to it.
fn copy_tab(tab: &ClientShellTab) -> (t: ClientShellTab)
    ensures
        t == *tab,
{
    ClientShellTab {
        tab_id: tab.tab_id.clone(),
        workspace_id: tab.workspace_id.clone(),
        number: tab.number,
        label: tab.label.clone(),
        custom_label: tab.custom_label,
        zoomed: tab.zoomed,
        focused: tab.focused,
    }
}

/// The tabs of the focused workspace, per [`workspace_tabs`].
fn focused_workspace_tabs(snapshot: &TabBarSnapshot) -> (tabs: Vec<ClientShellTab>)
    ensures
        tabs@ == workspace_tabs(snapshot.tabs@, snapshot.focused_workspace_id),
{
    let all = &snapshot.tabs;
    let n = all.len();
    let mut tabs: Vec<ClientShellTab> = Vec::new();
    let mut i: usize = 0;
    while i < n
        invariant
            n == all@.len(),
            all == &snapshot.tabs,
            i <= n,
            tabs@ == workspace_tabs(all@.subrange(0, i as int), snapshot.focused_workspace_id),
        decreases n - i,
    {
        proof {
            assert(all@.subrange(0, i + 1).drop_last() =~= all@.subrange(0, i as int));
        }
        let keep = match &snapshot.focused_workspace_id {
            Some(id) => all[i].workspace_id == *id,
            None => false,
        };
        if keep {
            tabs.push(copy_tab(&all[i]));
        }
        i = i + 1;
    }
    assert(all@.subrange(0, n as int) =~= all@);
    tabs
}

/// One pass of the tab bar, per [`tab_bar_pass`]: the focused workspace's
/// tabs in the configured style, then the right-hand status segments. It
/// updates the scroll state, adds the hit areas to `hits` and appends the
/// runs to paint to `runs`.
pub fn render_tab_bar(
    area: Rect,
    snapshot: &TabBarSnapshot,
    config: TabBarConfig,
    state: &mut TabBarState,
    tab_drag_insert_index: Option<usize>,
    prefix_highlight: bool,
    hits: &mut TabHits,
    runs: &mut Vec<TextRun>,
)
    ensures
        ({
            let pass = tab_bar_pass(
                area,
                *snapshot,
                config,
                *old(state),
                tab_drag_insert_index,
                prefix_highlight,
                hits_view(*old(hits)),
            );
            &&& final(state).tab_scroll as int == pass.scroll
            &&& !final(state).reveal_focused_tab
            &&& hits_view(*final(hits)) == pass.hits
            &&& runs_model(final(runs)@) == runs_model(old(runs)@) + pass.runs
        }),
{
    let ghost runs0 = runs_model(runs@);
    let tabs = focused_workspace_tabs(snapshot);
    match config.style {
        TabBarStyle::Classic => render_classic_tabs(
            area,
            snapshot,
            config,
            tabs.as_slice(),
            state,
            tab_drag_insert_index,
            prefix_highlight,
            hits,
            runs,
        ),
        TabBarStyle::Minimal => render_minimal_tabs(
            area,
            snapshot,
            config,
            tabs.as_slice(),
            state,
            tab_drag_insert_index,
            hits,
            runs,
        ),
    }
    let ghost runs1 = runs_model(runs@);
    render_tab_bar_status(area, snapshot, runs);
    assert(runs_model(runs@) =~= runs0 + (runs1.subrange(runs0.len() as int, runs1.len() as int)
        + status_runs(*snapshot, area)));
}

/// How a run in role `style` is painted with `palette`: the focused classic
/// tab in the contrast colour on the accent (yellow while the prefix is
/// highlighted), bold with a custom label; other classic tabs on `surface0`,
/// custom-labelled ones in `overlay1` and automatic ones dimmed in
/// `overlay0`; scroll buttons on `surface0`, brighter when they can
/// scroll; the "+" button, markers and status text on the panel
/// background; the focused marker and the drop indicator in the accent;
/// an accented status segment like the focused tab, in bold.
pub open spec fn run_paint_spec(style: RunStyle, palette: Palette) -> PaintStyle {
    let plain = PaintStyle { fg: None, bg: None, bold: false, dim: false };
    match style {
        RunStyle::FocusedTab { prefix_highlight, bold } => PaintStyle {
            fg: Some(contrast_spec(palette)),
            bg: Some(
                if prefix_highlight {
                    palette.yellow
                } else {
                    palette.accent
                },
            ),
            bold,
            dim: false,
        },
        RunStyle::CustomTab => PaintStyle {
            fg: Some(palette.overlay1),
            bg: Some(palette.surface0),
            ..plain
        },
        RunStyle::AutoTab => PaintStyle {
            fg: Some(palette.overlay0),
            bg: Some(palette.surface0),
            dim: true,
            ..plain
        },
        RunStyle::ScrollButton { enabled } => PaintStyle {
            fg: Some(
                if enabled {
                    palette.overlay1
                } else {
                    palette.overlay0
                },
            ),
            bg: Some(palette.surface0),
            ..plain
        },
        RunStyle::NewTab => PaintStyle {
            fg: Some(palette.overlay1),
            bg: Some(palette.panel_bg),
            ..plain
        },
        RunStyle::Ellipsis => PaintStyle { fg: Some(palette.overlay0), ..plain },
        RunStyle::DropIndicator => PaintStyle { fg: Some(palette.accent), ..plain },
        RunStyle::Marker { focused } => PaintStyle {
            fg: Some(
                if focused {
                    palette.accent
                } else {
                    palette.overlay1
                },
            ),
            bg: Some(palette.panel_bg),
            ..plain
        },
        RunStyle::StatusSeparator => PaintStyle {
            fg: Some(palette.overlay0),
            bg: Some(palette.panel_bg),
            ..plain
        },
        RunStyle::StatusSegment { accent } => if accent {
            PaintStyle {
                fg: Some(contrast_spec(palette)),
                bg: Some(palette.accent),
                bold: true,
                dim: false,
            }
        } else {
            PaintStyle { fg: Some(palette.overlay1), bg: Some(palette.panel_bg), ..plain }
        },
    }
}

/// How a run in role `style` is painted, per [`run_paint_spec`].
pub fn run_paint(style: RunStyle, palette: &Palette) -> (paint: PaintStyle)
    ensures
        paint == run_paint_spec(style, *palette),
{
    let plain = PaintStyle { fg: None, bg: None, bold: false, dim: false };
    match style {
        RunStyle::FocusedTab { prefix_highlight, bold } => PaintStyle {
            fg: Some(panel_contrast_fg(palette)),
            bg: Some(
                if prefix_highlight {
                    palette.yellow
                } else {
                    palette.accent
                },
            ),
            bold,
            dim: false,
        },
        RunStyle::CustomTab => PaintStyle {
            fg: Some(palette.overlay1),
            bg: Some(palette.surface0),
            ..plain
        },
        RunStyle::AutoTab => PaintStyle {
            fg: Some(palette.overlay0),
            bg: Some(palette.surface0),
            dim: true,
            ..plain
        },
        RunStyle::ScrollButton { enabled } => PaintStyle {
            fg: Some(
                if enabled {
                    palette.overlay1
                } else {
                    palette.overlay0
                },
            ),
            bg: Some(palette.surface0),
            ..plain
        },
        RunStyle::NewTab => PaintStyle {
            fg: Some(palette.overlay1),
            bg: Some(palette.panel_bg),
            ..plain
        },
        RunStyle::Ellipsis => PaintStyle { fg: Some(palette.overlay0), ..plain },
        RunStyle::DropIndicator => PaintStyle { fg: Some(palette.accent), ..plain },
        RunStyle::Marker { focused } => PaintStyle {
            fg: Some(
                if focused {
                    palette.accent
                } else {
                    palette.overlay1
                },
            ),
            bg: Some(palette.panel_bg),
            ..plain
        },
        RunStyle::StatusSeparator => PaintStyle {
            fg: Some(palette.overlay0),
            bg: Some(palette.panel_bg),
            ..plain
        },
        RunStyle::StatusSegment { accent } => if accent {
            PaintStyle {
                fg: Some(panel_contrast_fg(palette)),
                bg: Some(palette.accent),
                bold: true,
                dim: false,
            }
        } else {
            PaintStyle { fg: Some(palette.overlay1), bg: Some(palette.panel_bg), ..plain }
        },
    }
}


/// The focused classic tab stands out: it is painted on the highlight
/// colour (yellow while the prefix key is highlighted, the accent
/// otherwise) with the panel's contrast colour, bold exactly when its label
/// is custom; every unfocused tab sits on `surface0`, dimmed exactly when
/// its label is automatic, whatever the prefix highlight.
pub proof fn law_focused_classic_tab_is_highlighted(tab: ClientShellTab, prefix_highlight: bool, palette: Palette)
    ensures
        ({
            let p = run_paint_spec(classic_tab_style(tab, prefix_highlight), palette);
            &&& tab.focused ==> p.bg == Some(if prefix_highlight { palette.yellow } else { palette.accent })
                && p.fg == Some(contrast_spec(palette)) && p.bold == tab.custom_label
            &&& !tab.focused ==> p.bg == Some(palette.surface0) && p.dim == !tab.custom_label && !p.bold
        }),
{
}

} // verus!
