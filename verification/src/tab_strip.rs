//! Geometry of the client shell's tab bar: the classic strip of padded text
//! tabs with scroll buttons and a "+" button, and the minimal strip of glyph
//! markers; the right-hand status segments; scrolling that keeps the focused
//! tab in view; and the drag-to-reorder drop indicator.
//!
//! Everything here is layout: it decides rectangles, scroll offsets and the
//! text each cell range shows. Painting those decisions into a terminal
//! buffer is the caller's job.

use vstd::prelude::*;

use crate::geometry::{max, min, rect_new, right_of, sat_add, sat_mul, sat_sub, Rect};
use crate::text::{display_width, display_width_spec};
use crate::widgets::{Color, Palette};

verus! {

/// Width of the "+" new-tab button.
pub const NEW_TAB_WIDTH: u16 = 3;

/// Narrowest width a classic text tab is given.
pub const MIN_TAB_WIDTH: u16 = 8;

/// Width of each classic scroll button (" < " and " > ").
pub const TAB_SCROLL_BUTTON_WIDTH: u16 = 3;

/// Narrowest content area that still holds a tab, the "+" button and both
/// scroll buttons.
pub const MIN_TAB_STRIP_WIDTH: u16 = 17;

/// Width of one glyph-only marker slot in the minimal style: the glyph plus
/// one trailing space, which is also the click target for that tab.
pub const TAB_MARKER_WIDTH: u16 = 2;

/// Active tab marker (a Nerd Font glyph).
pub const TAB_MARKER_ACTIVE: char = '\u{F09DE}';

/// Inactive tab marker (a Nerd Font glyph).
pub const TAB_MARKER_INACTIVE: char = '\u{EABC}';

/// One tab of the focused workspace as the shell snapshot projects it.
#[derive(Debug, Clone, PartialEq, Eq)]
pub struct ClientShellTab {
    pub tab_id: String,
    pub workspace_id: String,
    pub number: usize,
    pub label: String,
    pub custom_label: bool,
    pub zoomed: bool,
    pub focused: bool,
}

/// One right-aligned status segment of the tab bar.
#[derive(Debug, Clone, PartialEq, Eq)]
pub struct ClientShellTabStatusSegment {
    pub text: String,
    pub accent: bool,
}

/// The part of a shell snapshot that the tab bar reads.
#[derive(Debug, Clone, PartialEq, Eq)]
pub struct TabBarSnapshot {
    pub focused_workspace_id: Option<String>,
    pub tabs: Vec<ClientShellTab>,
    pub tab_bar_right: Vec<ClientShellTabStatusSegment>,
    pub tab_bar_right_separator: String,
}

/// The label a tab shows: its label, with " Z" appended while zoomed.
pub open spec fn tab_label_spec(tab: ClientShellTab) -> Seq<char> {
    if tab.zoomed {
        tab.label@ + " Z"@
    } else {
        tab.label@
    }
}

/// The label a tab shows: its label, with " Z" appended while zoomed.
pub fn tab_label(tab: &ClientShellTab) -> (label: String)
    ensures
        label@ == tab_label_spec(*tab),
{
    if tab.zoomed {
        let mut label = tab.label.clone();
        label.append(" Z");
        label
    } else {
        tab.label.clone()
    }
}

/// Width of one minimal marker slot. Glyph-only slots are
/// `TAB_MARKER_WIDTH`; titled slots hold glyph, space, label and a trailing
/// space. The zoom marker rides on the label, so glyph-only strips never
/// widen for it.
pub open spec fn minimal_slot_width_spec(tab: ClientShellTab, show_title: bool) -> u16 {
    if show_title {
        sat_add(display_width_spec(tab_label_spec(tab)) as int, 3) as u16
    } else {
        TAB_MARKER_WIDTH
    }
}

/// Width of one minimal marker slot.
pub fn minimal_slot_width(tab: &ClientShellTab, show_title: bool) -> (width: u16)
    ensures
        width == minimal_slot_width_spec(*tab, show_title),
{
    if show_title {
        let label = tab_label(tab);
        display_width(label.as_str()).saturating_add(3)
    } else {
        TAB_MARKER_WIDTH
    }
}

/// Width of the classic text tab for `tab`: its label padded by two cells
/// on each side, and at least `MIN_TAB_WIDTH`.
pub open spec fn classic_tab_width_spec(tab: ClientShellTab) -> u16 {
    max(sat_add(display_width_spec(tab_label_spec(tab)) as int, 4), MIN_TAB_WIDTH as int) as u16
}

/// Width of the classic text tab for `tab`.
pub fn classic_tab_width(tab: &ClientShellTab) -> (width: u16)
    ensures
        width == classic_tab_width_spec(*tab),
{
    let label = tab_label(tab);
    let w = display_width(label.as_str()).saturating_add(4);
    if w >= MIN_TAB_WIDTH {
        w
    } else {
        MIN_TAB_WIDTH
    }
}

/// The glyph of a minimal marker: the active one for the focused tab.
pub(crate) fn marker_glyph_of(tab: &ClientShellTab) -> (glyph: char)
    ensures
        glyph == (if tab.focused {
            TAB_MARKER_ACTIVE
        } else {
            TAB_MARKER_INACTIVE
        }),
{
    if tab.focused {
        TAB_MARKER_ACTIVE
    } else {
        TAB_MARKER_INACTIVE
    }
}

/// Glyph and foreground colour of one minimal marker: the active glyph in
/// the accent colour for the focused tab, the inactive one in `overlay1`
/// otherwise. The only place the active marker's colour is decided.
pub fn minimal_marker(tab: &ClientShellTab, palette: &Palette) -> (marker: (char, Color))
    ensures
        marker == (if tab.focused {
            (TAB_MARKER_ACTIVE, palette.accent)
        } else {
            (TAB_MARKER_INACTIVE, palette.overlay1)
        }),
{
    if tab.focused {
        (TAB_MARKER_ACTIVE, palette.accent)
    } else {
        (TAB_MARKER_INACTIVE, palette.overlay1)
    }
}

// ---------------------------------------------------------------------------
// Scrolling
// ---------------------------------------------------------------------------

/// Cells one slot of width `w` consumes, with `gap` blank cells after it.
pub open spec fn slot_step(w: u16, gap: u16) -> int {
    sat_add(w as int, gap as int)
}

/// Scanning slots from index `i` with `remaining` cells left: the last slot
/// that gets any cell. A slot at least as wide as what remains is the last;
/// the scan also stops once nothing remains.
pub open spec fn scan_last_visible(
    widths: Seq<u16>,
    i: int,
    remaining: int,
    gap: u16,
    last: Option<usize>,
) -> Option<usize>
    decreases widths.len() - i,
{
    if i < 0 || i >= widths.len() || remaining <= 0 {
        last
    } else if widths[i] as int >= remaining {
        Some(i as usize)
    } else {
        scan_last_visible(
            widths,
            i + 1,
            sat_sub(remaining, slot_step(widths[i], gap)),
            gap,
            Some(i as usize),
        )
    }
}

/// The last slot that is at least partly visible when the strip starts at
/// `start` and has `available` cells.
pub open spec fn last_visible_spec(start: int, widths: Seq<u16>, available: u16, gap: u16) -> Option<
    usize,
> {
    scan_last_visible(widths, start, available as int, gap, None)
}

/// The last slot that is at least partly visible when the strip starts at
/// `start` and has `available` cells, `gap` blank cells separating slots.
pub fn last_visible_tab(start: usize, widths: &[u16], available: u16, gap: u16) -> (last: Option<
    usize,
>)
    ensures
        last == last_visible_spec(start as int, widths@, available, gap),
{
    let mut remaining = available;
    let mut last: Option<usize> = None;
    let mut index = start;
    while index < widths.len()
        invariant
            start <= index,
            scan_last_visible(widths@, index as int, remaining as int, gap, last)
                == last_visible_spec(start as int, widths@, available, gap),
        decreases widths@.len() - index,
    {
        if remaining == 0 {
            return last;
        }
        let width = widths[index];
        if width >= remaining {
            return Some(index);
        }
        last = Some(index);
        remaining = remaining.saturating_sub(width.saturating_add(gap));
        index = index + 1;
    }
    last
}

/// Starting at `start`, the last slot is at least partly visible.
pub open spec fn reaches_last(start: int, widths: Seq<u16>, available: u16, gap: u16) -> bool {
    widths.len() > 0 && last_visible_spec(start, widths, available, gap) == Some(
        (widths.len() - 1) as usize,
    )
}

/// The first scroll offset from `s` on at which the last slot is visible,
/// or 0 when there is none.
pub open spec fn first_reaching(widths: Seq<u16>, s: int, available: u16, gap: u16) -> int
    decreases widths.len() - s,
{
    if s < 0 || s >= widths.len() {
        0
    } else if reaches_last(s, widths, available, gap) {
        s
    } else {
        first_reaching(widths, s + 1, available, gap)
    }
}

/// The largest useful scroll offset: the smallest one at which the last slot
/// is visible (0 when none is).
pub open spec fn max_scroll_spec(widths: Seq<u16>, available: u16, gap: u16) -> int {
    first_reaching(widths, 0, available, gap)
}

/// The smallest scroll offset at which the last slot is visible, or 0 when
/// there is none.
pub fn max_tab_scroll(widths: &[u16], available: u16, gap: u16) -> (scroll: usize)
    ensures
        scroll as int == max_scroll_spec(widths@, available, gap),
        (exists|s: int| 0 <= s < widths@.len() && reaches_last(s, widths@, available, gap)) ==> (
        scroll < widths@.len() && reaches_last(scroll as int, widths@, available, gap) && forall|
            s: int,
        |
            0 <= s < scroll ==> !reaches_last(s, widths@, available, gap)),
        !(exists|s: int| 0 <= s < widths@.len() && reaches_last(s, widths@, available, gap))
            ==> scroll == 0,
{
    let n = widths.len();
    let mut start: usize = 0;
    while start < n
        invariant
            n == widths@.len(),
            start <= n,
            forall|s: int| 0 <= s < start ==> !reaches_last(s, widths@, available, gap),
            first_reaching(widths@, start as int, available, gap) == max_scroll_spec(
                widths@,
                available,
                gap,
            ),
        decreases n - start,
    {
        if last_visible_tab(start, widths, available, gap) == Some(n - 1) {
            assert(reaches_last(start as int, widths@, available, gap));
            return start;
        }
        start = start + 1;
    }
    0
}

/// The cells the slots `start..end` take with their gaps, before any
/// saturation.
pub open spec fn step_sum(widths: Seq<u16>, start: int, end: int, gap: u16) -> int
    decreases end - start,
{
    if end <= start {
        0
    } else {
        step_sum(widths, start, end - 1, gap) + slot_step(widths[end - 1], gap)
    }
}

/// The cells before the focused slot when the strip starts at `start`
/// (saturated to `u16::MAX`).
pub open spec fn cells_before(widths: Seq<u16>, start: int, focused: int, gap: u16) -> int {
    min(step_sum(widths, start, focused, gap), u16::MAX as int)
}

/// Scrolling to `start` shows at least the first cell of the focused slot.
pub open spec fn centering_candidate(
    widths: Seq<u16>,
    start: int,
    focused: int,
    available: u16,
    gap: u16,
) -> bool {
    cells_before(widths, start, focused, gap) < available
}

/// How far the focused slot's centre is from the strip's centre when the
/// strip starts at `start` (both doubled, to stay in whole cells).
pub open spec fn centering_distance(
    widths: Seq<u16>,
    start: int,
    focused: int,
    available: u16,
    gap: u16,
) -> int {
    let before = cells_before(widths, start, focused, gap);
    let focused_width = min(widths[focused] as int, available - before);
    let center = sat_add(sat_mul(before, 2), focused_width);
    if center >= available {
        center - available
    } else {
        available - center
    }
}

proof fn lemma_step_sum_nonneg(widths: Seq<u16>, start: int, end: int, gap: u16)
    ensures
        step_sum(widths, start, end, gap) >= 0,
    decreases end - start,
{
    if end > start {
        lemma_step_sum_nonneg(widths, start, end - 1, gap);
    }
}

fn saturated_cells_before(widths: &[u16], start: usize, focused: usize, gap: u16) -> (before: u16)
    requires
        start <= focused < widths@.len(),
    ensures
        before == cells_before(widths@, start as int, focused as int, gap),
{
    let mut before: u16 = 0;
    let mut k = start;
    while k < focused
        invariant
            start <= k <= focused,
            focused < widths@.len(),
            before as int == min(step_sum(widths@, start as int, k as int, gap), u16::MAX as int),
        decreases focused - k,
    {
        proof {
            lemma_step_sum_nonneg(widths@, start as int, k as int, gap);
        }
        before = before.saturating_add(widths[k].saturating_add(gap));
        k = k + 1;
    }
    before
}

/// Scanning offsets `start..=focused`, the last one whose focused-slot
/// distance is at most the best seen so far.
pub open spec fn scan_centered(
    widths: Seq<u16>,
    start: int,
    focused: int,
    available: u16,
    gap: u16,
    best: int,
    best_distance: int,
) -> int
    decreases focused + 1 - start,
{
    if start < 0 || start > focused {
        best
    } else if centering_candidate(widths, start, focused, available, gap) && centering_distance(
        widths,
        start,
        focused,
        available,
        gap,
    ) <= best_distance {
        scan_centered(
            widths,
            start + 1,
            focused,
            available,
            gap,
            start,
            centering_distance(widths, start, focused, available, gap),
        )
    } else {
        scan_centered(widths, start + 1, focused, available, gap, best, best_distance)
    }
}

/// The scroll offset that centres the focused slot (see
/// [`centered_tab_scroll`]).
pub open spec fn centered_scroll_spec(widths: Seq<u16>, focused: int, available: u16, gap: u16) -> int {
    scan_centered(widths, 0, focused, available, gap, focused, u16::MAX as int)
}

/// The scroll offset in `0..=focused` that puts the focused slot closest to
/// the middle of `available` cells (the last one on ties); `focused` itself
/// when no offset shows any of it.
///
/// `gap` is the number of blank cells the style leaves between slots: 1 for
/// the classic strip, 0 for the minimal one, whose slots include their own
/// trailing space.
pub fn centered_tab_scroll(focused: usize, widths: &[u16], available: u16, gap: u16) -> (scroll:
    usize)
    requires
        focused < widths@.len(),
    ensures
        (exists|s: int| 0 <= s <= focused && centering_candidate(widths@, s, focused as int, available, gap)) ==> {
            &&& scroll <= focused
            &&& centering_candidate(widths@, scroll as int, focused as int, available, gap)
            &&& forall|s: int|
                0 <= s <= focused && centering_candidate(widths@, s, focused as int, available, gap)
                    ==> centering_distance(widths@, scroll as int, focused as int, available, gap)
                    <= centering_distance(widths@, s, focused as int, available, gap) && (
                centering_distance(widths@, s, focused as int, available, gap)
                    == centering_distance(widths@, scroll as int, focused as int, available, gap)
                    ==> s <= scroll)
        },
        !(exists|s: int| 0 <= s <= focused && centering_candidate(widths@, s, focused as int, available, gap))
            ==> scroll == focused,
        scroll as int == centered_scroll_spec(widths@, focused as int, available, gap),
{
    let ghost w = widths@;
    let ghost f = focused as int;
    let mut best = focused;
    let mut best_distance = u16::MAX;
    let mut found = false;
    let mut start: usize = 0;
    while start <= focused
        invariant
            w == widths@,
            f == focused,
            focused < w.len(),
            focused < widths.len(),
            start <= focused + 1,
            found == (exists|s: int| 0 <= s < start && centering_candidate(w, s, f, available, gap)),
            !found ==> best == focused && best_distance == u16::MAX,
            scan_centered(w, start as int, f, available, gap, best as int, best_distance as int)
                == centered_scroll_spec(w, f, available, gap),
            found ==> {
                &&& best < start
                &&& centering_candidate(w, best as int, f, available, gap)
                &&& best_distance as int == centering_distance(w, best as int, f, available, gap)
                &&& forall|s: int|
                    0 <= s < start && centering_candidate(w, s, f, available, gap)
                        ==> centering_distance(w, best as int, f, available, gap)
                        <= centering_distance(w, s, f, available, gap) && (centering_distance(
                        w,
                        s,
                        f,
                        available,
                        gap,
                    ) == centering_distance(w, best as int, f, available, gap) ==> s <= best)
            },
        decreases focused + 1 - start,
    {
        let before = saturated_cells_before(widths, start, focused, gap);
        if before < available {
            let room = available - before;
            let focused_width = if widths[focused] < room {
                widths[focused]
            } else {
                room
            };
            let doubled = if before > 32767 {
                u16::MAX
            } else {
                before * 2
            };
            let center = doubled.saturating_add(focused_width);
            let distance = if center >= available {
                center - available
            } else {
                available - center
            };
            assert(distance as int == centering_distance(w, start as int, f, available, gap));
            if distance <= best_distance {
                best_distance = distance;
                best = start;
            }
            found = true;
            assert(centering_candidate(w, start as int, f, available, gap));
        } else {
            assert(!centering_candidate(w, start as int, f, available, gap));
        }
        assert(forall|s: int| 0 <= s < start + 1 && centering_candidate(w, s, f, available, gap)
            ==> (0 <= s < start || s == start));
        start = start + 1;
    }
    best
}

proof fn lemma_step_sum_grows(widths: Seq<u16>, start: int, mid: int, end: int, gap: u16)
    requires
        start <= mid <= end,
    ensures
        step_sum(widths, start, mid, gap) <= step_sum(widths, start, end, gap),
    decreases end - mid,
{
    if mid < end {
        lemma_step_sum_grows(widths, start, mid, end - 1, gap);
    }
}

/// A scan that has already seen slot `j` ends on `j` or a later slot.
proof fn lemma_scan_keeps_last(widths: Seq<u16>, i: int, remaining: int, gap: u16, j: int)
    requires
        0 <= j < i,
        j < widths.len() <= usize::MAX,
    ensures
        scan_last_visible(widths, i, remaining, gap, Some(j as usize)) matches Some(l) && j <= l,
    decreases widths.len() - i,
{
    if i < widths.len() && remaining > 0 && (widths[i] as int) < remaining {
        lemma_scan_keeps_last(widths, i + 1, sat_sub(remaining, slot_step(widths[i], gap)), gap, i);
    }
}

/// When the cells before slot `f` leave some room, a scan from `start`
/// reaches slot `f`: the last visible slot is `f` or a later one.
proof fn lemma_scan_reaches(
    widths: Seq<u16>,
    start: int,
    i: int,
    f: int,
    available: u16,
    gap: u16,
    last: Option<usize>,
)
    requires
        0 <= start <= i <= f < widths.len() <= usize::MAX,
        step_sum(widths, start, f, gap) < available,
    ensures
        scan_last_visible(widths, i, available - step_sum(widths, start, i, gap), gap, last) matches Some(
            l,
        ) && f <= l,
    decreases f - i,
{
    let remaining = available - step_sum(widths, start, i, gap);
    lemma_step_sum_grows(widths, start, i, f, gap);
    if i < f {
        lemma_step_sum_grows(widths, start, i + 1, f, gap);
        assert(step_sum(widths, start, i + 1, gap) == step_sum(widths, start, i, gap) + slot_step(
            widths[i],
            gap,
        ));
        lemma_scan_reaches(widths, start, i + 1, f, available, gap, Some(i as usize));
    } else if (widths[i] as int) < remaining {
        lemma_scan_keeps_last(widths, i + 1, sat_sub(remaining, slot_step(widths[i], gap)), gap, i);
    }
}

/// The centring scan ends on the best offset it started with, or on a later
/// candidate no greater than `focused`.
proof fn lemma_scan_centered_candidate(
    widths: Seq<u16>,
    start: int,
    focused: int,
    available: u16,
    gap: u16,
    best: int,
    best_distance: int,
)
    requires
        0 <= start,
    ensures
        scan_centered(widths, start, focused, available, gap, best, best_distance) == best || (start
            <= scan_centered(widths, start, focused, available, gap, best, best_distance) <= focused
            && centering_candidate(
            widths,
            scan_centered(widths, start, focused, available, gap, best, best_distance),
            focused,
            available,
            gap,
        )),
    decreases focused + 1 - start,
{
    if start <= focused {
        if centering_candidate(widths, start, focused, available, gap) && centering_distance(
            widths,
            start,
            focused,
            available,
            gap,
        ) <= best_distance {
            lemma_scan_centered_candidate(
                widths,
                start + 1,
                focused,
                available,
                gap,
                start,
                centering_distance(widths, start, focused, available, gap),
            );
        } else {
            lemma_scan_centered_candidate(
                widths,
                start + 1,
                focused,
                available,
                gap,
                best,
                best_distance,
            );
        }
    }
}

/// The first offset from `s` on that reaches the last slot, when offset
/// `t` does.
proof fn lemma_first_reaching_found(widths: Seq<u16>, s: int, t: int, available: u16, gap: u16)
    requires
        0 <= s <= t < widths.len(),
        reaches_last(t, widths, available, gap),
    ensures
        s <= first_reaching(widths, s, available, gap) <= t,
        reaches_last(first_reaching(widths, s, available, gap), widths, available, gap),
    decreases t - s,
{
    if !reaches_last(s, widths, available, gap) {
        lemma_first_reaching_found(widths, s + 1, t, available, gap);
    }
}

/// Scrolled to centre slot `focused` and clamped to the largest useful
/// offset, a strip with any room shows that slot: the offset is at most
/// `focused`, and the last visible slot is `focused` or a later one.
pub proof fn law_centered_scroll_shows_the_focused_slot(
    widths: Seq<u16>,
    focused: int,
    available: u16,
    gap: u16,
)
    requires
        0 <= focused < widths.len() <= usize::MAX,
        available > 0,
    ensures
        ({
            let s = min(
                centered_scroll_spec(widths, focused, available, gap),
                max_scroll_spec(widths, available, gap),
            );
            &&& 0 <= s <= focused
            &&& last_visible_spec(s, widths, available, gap) matches Some(l) && focused <= l
        }),
{
    let n = widths.len() as int;
    let r = centered_scroll_spec(widths, focused, available, gap);
    let m = max_scroll_spec(widths, available, gap);
    lemma_scan_centered_candidate(widths, 0, focused, available, gap, focused, u16::MAX as int);
    assert(centering_candidate(widths, focused, focused, available, gap));
    assert(0 <= r <= focused && centering_candidate(widths, r, focused, available, gap));
    lemma_step_sum_nonneg(widths, r, focused, gap);
    assert(step_sum(widths, r, focused, gap) < available);
    assert(step_sum(widths, r, r, gap) == 0);
    lemma_scan_reaches(widths, r, r, focused, available, gap, None);
    assert(scan_last_visible(widths, n - 1, available as int, gap, None) == Some((n - 1) as usize))
        by {
        if (widths[n - 1] as int) < available {
            assert(scan_last_visible(
                widths,
                n,
                sat_sub(available as int, slot_step(widths[n - 1], gap)),
                gap,
                Some((n - 1) as usize),
            ) == Some((n - 1) as usize));
        }
    }
    assert(reaches_last(n - 1, widths, available, gap));
    lemma_first_reaching_found(widths, 0, n - 1, available, gap);
}


// ---------------------------------------------------------------------------
// Status segments
// ---------------------------------------------------------------------------

/// The summed display widths of the status segments.
pub open spec fn status_text_width(segs: Seq<ClientShellTabStatusSegment>) -> int
    decreases segs.len(),
{
    if segs.len() == 0 {
        0
    } else {
        status_text_width(segs.drop_last()) + display_width_spec(segs.last().text@) as int
    }
}

/// Width of the right-hand status: the segments plus one separator between
/// each pair, all saturating at `u16::MAX`.
pub open spec fn status_width_spec(snapshot: TabBarSnapshot) -> u16 {
    let segs = snapshot.tab_bar_right@;
    let content = min(status_text_width(segs), u16::MAX as int);
    let separators = min(sat_sub(segs.len() as int, 1), u16::MAX as int);
    sat_add(
        content,
        sat_mul(display_width_spec(snapshot.tab_bar_right_separator@) as int, separators),
    ) as u16
}

proof fn lemma_status_text_width_nonneg(segs: Seq<ClientShellTabStatusSegment>)
    ensures
        status_text_width(segs) >= 0,
    decreases segs.len(),
{
    if segs.len() > 0 {
        lemma_status_text_width_nonneg(segs.drop_last());
    }
}

pub(crate) fn saturating_mul_u16(a: u16, b: u16) -> (r: u16)
    ensures
        r as int == sat_mul(a as int, b as int),
{
    assert(a as int * b as int <= 65535 * 65535) by (nonlinear_arith)
        requires
            a <= 65535,
            b <= 65535,
    ;
    let wide = (a as u32) * (b as u32);
    if wide > 65535 {
        u16::MAX
    } else {
        wide as u16
    }
}

/// Width of the right-hand status segments and their separators.
pub fn tab_bar_status_width(snapshot: &TabBarSnapshot) -> (width: u16)
    ensures
        width == status_width_spec(*snapshot),
{
    let segs = &snapshot.tab_bar_right;
    let n = segs.len();
    let mut content: u16 = 0;
    let mut i: usize = 0;
    while i < n
        invariant
            n == segs@.len(),
            i <= n,
            content as int == min(status_text_width(segs@.subrange(0, i as int)), u16::MAX as int),
        decreases n - i,
    {
        proof {
            lemma_status_text_width_nonneg(segs@.subrange(0, i as int));
            assert(segs@.subrange(0, i + 1).drop_last() =~= segs@.subrange(0, i as int));
        }
        content = content.saturating_add(display_width(segs[i].text.as_str()));
        i = i + 1;
    }
    assert(segs@.subrange(0, n as int) =~= segs@);
    let separators: usize = if n == 0 {
        0
    } else {
        n - 1
    };
    let separators: u16 = if separators > 65535 {
        u16::MAX
    } else {
        separators as u16
    };
    let sep = display_width(snapshot.tab_bar_right_separator.as_str());
    content.saturating_add(saturating_mul_u16(sep, separators))
}

/// Where the status segments go: flush right, when the bar still leaves
/// `MIN_TAB_STRIP_WIDTH` cells (after a one-cell gap) for the tabs.
pub open spec fn status_area_spec(snapshot: TabBarSnapshot, area: Rect) -> Option<Rect> {
    let width = status_width_spec(snapshot);
    if width == 0 {
        None
    } else if sat_sub(area.width as int, sat_add(width as int, 1)) >= MIN_TAB_STRIP_WIDTH as int {
        Some(rect_new(sat_sub(right_of(area), width as int) as u16, area.y, width, 1))
    } else {
        None
    }
}

/// Where the status segments go, if the bar has room for them.
pub fn tab_bar_status_area(snapshot: &TabBarSnapshot, area: Rect) -> (status: Option<Rect>)
    ensures
        status == status_area_spec(*snapshot, area),
{
    let width = tab_bar_status_width(snapshot);
    if width == 0 {
        return None;
    }
    let reserved = width.saturating_add(1);
    if area.width.saturating_sub(reserved) >= MIN_TAB_STRIP_WIDTH {
        Some(Rect::new(area.right().saturating_sub(width), area.y, width, 1))
    } else {
        None
    }
}

/// The bar minus the status segments and their one-cell gap.
pub open spec fn content_area_spec(snapshot: TabBarSnapshot, area: Rect) -> Rect {
    let reserved = match status_area_spec(snapshot, area) {
        Some(status) => sat_add(status.width as int, 1),
        None => 0,
    };
    Rect { width: sat_sub(area.width as int, reserved) as u16, ..area }
}

/// The part of the bar left for tabs.
pub fn tab_bar_content_area(snapshot: &TabBarSnapshot, area: Rect) -> (content: Rect)
    ensures
        content == content_area_spec(*snapshot, area),
{
    let reserved = match tab_bar_status_area(snapshot, area) {
        Some(status) => status.width.saturating_add(1),
        None => 0,
    };
    Rect { width: area.width.saturating_sub(reserved), ..area }
}

// ---------------------------------------------------------------------------
// Hit areas and the drop indicator
// ---------------------------------------------------------------------------

/// The clickable areas of the tab bar.
#[derive(Debug, Clone, PartialEq, Eq, Default)]
pub struct TabHits {
    /// Each visible tab's rectangle and tab id, left to right.
    pub tabs: Vec<(Rect, String)>,
    pub tab_scroll_left: Rect,
    pub tab_scroll_right: Rect,
    pub new_tab: Rect,
}

/// The clickable areas of the tab bar, as values.
pub struct HitsModel {
    pub tabs: Seq<(Rect, Seq<char>)>,
    pub tab_scroll_left: Rect,
    pub tab_scroll_right: Rect,
    pub new_tab: Rect,
}

/// The hit entries as rectangles and tab-id texts.
pub open spec fn hit_entries(tabs: Seq<(Rect, String)>) -> Seq<(Rect, Seq<char>)> {
    tabs.map_values(|e: (Rect, String)| (e.0, e.1@))
}

/// The value of a [`TabHits`].
pub open spec fn hits_view(h: TabHits) -> HitsModel {
    HitsModel {
        tabs: hit_entries(h.tabs@),
        tab_scroll_left: h.tab_scroll_left,
        tab_scroll_right: h.tab_scroll_right,
        new_tab: h.new_tab,
    }
}

/// The index of the first tab with id `id` at or after `k`.
pub open spec fn tab_position_from(tabs: Seq<ClientShellTab>, id: Seq<char>, k: int) -> Option<int>
    decreases tabs.len() - k,
{
    if k < 0 || k >= tabs.len() {
        None
    } else if tabs[k].tab_id@ == id {
        Some(k)
    } else {
        tab_position_from(tabs, id, k + 1)
    }
}

/// Each hit rectangle paired with the index of its tab, skipping hits whose
/// tab is not in `tabs`.
pub open spec fn visible_tabs(hits: Seq<(Rect, Seq<char>)>, tabs: Seq<ClientShellTab>) -> Seq<
    (int, Rect),
>
    decreases hits.len(),
{
    if hits.len() == 0 {
        Seq::empty()
    } else {
        let prev = visible_tabs(hits.drop_last(), tabs);
        match tab_position_from(tabs, hits.last().1, 0) {
            Some(i) => prev.push((i, hits.last().0)),
            None => prev,
        }
    }
}

/// The first entry of `v` for tab `index`.
pub open spec fn visible_entry(v: Seq<(int, Rect)>, index: int, k: int) -> Option<Rect>
    decreases v.len() - k,
{
    if k < 0 || k >= v.len() {
        None
    } else if v[k].0 == index {
        Some(v[k].1)
    } else {
        visible_entry(v, index, k + 1)
    }
}

/// Column of the drag-to-reorder drop indicator for inserting before tab
/// `insert_index`: left of that tab's slot when it is visible; at the strip's
/// start or end (or just inside the scroll buttons when tabs are hidden
/// behind them) for the first and past-the-end positions.
pub open spec fn drop_indicator_spec(hits: HitsModel, tabs: Seq<ClientShellTab>, insert_index: int) -> Option<u16> {
    let v = visible_tabs(hits.tabs, tabs);
    if v.len() == 0 {
        None
    } else {
        let (first_index, first_rect) = v[0];
        let (last_index, last_rect) = v.last();
        if insert_index == 0 {
            Some(
                if first_index == 0 || hits.tab_scroll_left.width == 0 {
                    first_rect.x
                } else {
                    right_of(hits.tab_scroll_left) as u16
                },
            )
        } else if visible_entry(v, insert_index, 0) is Some {
            Some(sat_sub(visible_entry(v, insert_index, 0)->0.x as int, 1) as u16)
        } else if insert_index >= tabs.len() {
            Some(
                if last_index + 1 >= tabs.len() || hits.tab_scroll_right.width == 0 {
                    right_of(last_rect) as u16
                } else {
                    sat_sub(hits.tab_scroll_right.x as int, 1) as u16
                },
            )
        } else {
            None
        }
    }
}

fn tab_position(tabs: &[ClientShellTab], id: &String) -> (pos: Option<usize>)
    ensures
        match tab_position_from(tabs@, id@, 0) {
            Some(i) => pos is Some && pos->0 as int == i,
            None => pos is None,
        },
{
    let n = tabs.len();
    let mut k = n;
    // Scan from the back so that the first match is the one kept.
    let mut found: Option<usize> = None;
    while k > 0
        invariant
            n == tabs@.len(),
            k <= n,
            match tab_position_from(tabs@, id@, k as int) {
                Some(i) => found is Some && found->0 as int == i,
                None => found is None,
            },
        decreases k,
    {
        k = k - 1;
        if tabs[k].tab_id == *id {
            found = Some(k);
        }
    }
    found
}

fn visible_tab_list(hits: &Vec<(Rect, String)>, tabs: &[ClientShellTab]) -> (v: Vec<(usize, Rect)>)
    ensures
        v@.len() == visible_tabs(hit_entries(hits@), tabs@).len(),
        forall|k: int|
            0 <= k < v@.len() ==> (#[trigger] v@[k]).0 as int == visible_tabs(
                hit_entries(hits@),
                tabs@,
            )[k].0 && v@[k].1 == visible_tabs(hit_entries(hits@), tabs@)[k].1,
        forall|k: int| 0 <= k < v@.len() ==> (#[trigger] v@[k]).0 < tabs@.len(),
{
    let n = hits.len();
    let mut v: Vec<(usize, Rect)> = Vec::new();
    let mut i: usize = 0;
    while i < n
        invariant
            n == hits@.len(),
            i <= n,
            v@.len() == visible_tabs(hit_entries(hits@.subrange(0, i as int)), tabs@).len(),
            forall|k: int|
                0 <= k < v@.len() ==> (#[trigger] v@[k]).0 as int == visible_tabs(
                    hit_entries(hits@.subrange(0, i as int)),
                    tabs@,
                )[k].0 && v@[k].1 == visible_tabs(hit_entries(hits@.subrange(0, i as int)), tabs@)[k].1,
            forall|k: int| 0 <= k < v@.len() ==> (#[trigger] v@[k]).0 < tabs@.len(),
        decreases n - i,
    {
        proof {
            assert(hit_entries(hits@.subrange(0, i + 1)).drop_last() =~= hit_entries(
                hits@.subrange(0, i as int),
            ));
            lemma_tab_position_bound(tabs@, hits@[i as int].1@, 0);
        }
        let ghost prev = visible_tabs(hit_entries(hits@.subrange(0, i as int)), tabs@);
        let ghost next = visible_tabs(hit_entries(hits@.subrange(0, i + 1)), tabs@);
        let (rect, id) = &hits[i];
        assert(hit_entries(hits@.subrange(0, i + 1)).last() == (hits@[i as int].0, hits@[i as int].1@));
        match tab_position(tabs, id) {
            Some(index) => {
                assert(next == prev.push((index as int, *rect)));
                v.push((index, *rect));
            },
            None => {
                assert(next == prev);
            },
        }
        i = i + 1;
    }
    assert(hits@.subrange(0, n as int) =~= hits@);
    v
}

proof fn lemma_tab_position_bound(tabs: Seq<ClientShellTab>, id: Seq<char>, k: int)
    requires
        0 <= k,
    ensures
        tab_position_from(tabs, id, k) matches Some(i) ==> k <= i < tabs.len(),
    decreases tabs.len() - k,
{
    if k < tabs.len() && tabs[k].tab_id@ != id {
        lemma_tab_position_bound(tabs, id, k + 1);
    }
}

/// Column of the drag-to-reorder drop indicator.
pub fn tab_drop_indicator_x(hits: &TabHits, tabs: &[ClientShellTab], insert_index: usize) -> (x:
    Option<u16>)
    ensures
        x == drop_indicator_spec(hits_view(*hits), tabs@, insert_index as int),
{
    let visible = visible_tab_list(&hits.tabs, tabs);
    let ghost v = visible_tabs(hit_entries(hits.tabs@), tabs@);
    let n = visible.len();
    if n == 0 {
        return None;
    }
    let (first_index, first_rect) = visible[0];
    let (last_index, last_rect) = visible[n - 1];
    if insert_index == 0 {
        return Some(
            if first_index == 0 || hits.tab_scroll_left.width == 0 {
                first_rect.x
            } else {
                hits.tab_scroll_left.right()
            },
        );
    }
    let mut k: usize = 0;
    while k < n
        invariant
            n == visible@.len(),
            n == v.len(),
            n > 0,
            k <= n,
            insert_index != 0,
            v == visible_tabs(hit_entries(hits.tabs@), tabs@),
            forall|j: int|
                0 <= j < n ==> (#[trigger] visible@[j]).0 as int == v[j].0 && visible@[j].1
                    == v[j].1,
            visible_entry(v, insert_index as int, k as int) == visible_entry(
                v,
                insert_index as int,
                0,
            ),
        decreases n - k,
    {
        let (index, rect) = visible[k];
        if index == insert_index {
            assert(visible_entry(v, insert_index as int, k as int) == Some(v[k as int].1));
            assert(rect == v[k as int].1);
            assert(visible_entry(v, insert_index as int, 0) is Some);
            assert(insert_index != 0);
            return Some(rect.x.saturating_sub(1));
        }
        assert(visible_entry(v, insert_index as int, k as int) == visible_entry(
            v,
            insert_index as int,
            k + 1,
        ));
        k = k + 1;
    }
    if insert_index >= tabs.len() {
        return Some(
            if last_index + 1 >= tabs.len() || hits.tab_scroll_right.width == 0 {
                last_rect.right()
            } else {
                hits.tab_scroll_right.x.saturating_sub(1)
            },
        );
    }
    None
}

} // verus!
