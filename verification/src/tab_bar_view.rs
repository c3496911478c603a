//! The server-side tab bar of a workspace: one marker slot per tab, laid
//! out from a scroll offset, scrolled so that the active tab sits near the
//! middle, with a "+" button after the markers and the active tab's custom
//! name right-aligned.
//!
//! Layout yields a [`TabBarView`] (scroll offset and hit areas, shared by
//! painting and mouse hit-testing); painting yields a [`TabBarPaint`], the
//! list of things the renderer draws.

use vstd::prelude::*;

use crate::geometry::{max, min, rect_new, right_of, sat_add, sat_mul, sat_sub, Rect};
use crate::shell_tab_bar::{saturating_total, width_sum, TabBarAlign};
use crate::tab_strip::saturating_mul_u16;
use crate::text::{decimal, line_width, text_width, usize_to_string};
use crate::widgets::{Color, Palette};

verus! {

/// Width of the "+" new-tab button.
pub const NEW_TAB_WIDTH: u16 = 3;

/// Width of one marker slot: the glyph plus one trailing space.
pub const TAB_MARKER_WIDTH: u16 = 2;

/// Blank cells before the first marker.
pub const TAB_BAR_LEFT_PAD: u16 = 1;

/// What the tab bar reads of one tab of a workspace.
#[derive(Debug, Clone, PartialEq, Eq)]
pub struct WorkspaceTab {
    /// The name the tab is shown under, if it has one.
    pub display_name: Option<String>,
    /// The tab carries an automatic name rather than one the user gave it.
    pub auto_named: bool,
}

/// What the tab bar reads of a workspace: its tabs and the active one.
#[derive(Debug, Clone, PartialEq, Eq)]
pub struct WorkspaceTabs {
    pub tabs: Vec<WorkspaceTab>,
    pub active_tab: usize,
}

impl WorkspaceTabs {
    /// The display name of tab `idx`, if there is such a tab and it has one.
    pub fn tab_display_name(&self, idx: usize) -> (name: Option<String>)
        ensures
            match name {
                Some(s) => display_name_of(*self, idx as int) == Some(s@),
                None => display_name_of(*self, idx as int) is None,
            },
    {
        if idx < self.tabs.len() {
            match &self.tabs[idx].display_name {
                Some(name) => Some(name.clone()),
                None => None,
            }
        } else {
            None
        }
    }
}

/// The name the tab at `idx` is shown under.
pub open spec fn display_name_of(ws: WorkspaceTabs, idx: int) -> Option<Seq<char>> {
    if 0 <= idx < ws.tabs@.len() {
        match ws.tabs@[idx].display_name {
            Some(d) => Some(d@),
            None => None,
        }
    } else {
        None
    }
}

/// Tab bar geometry from one layout pass: the scroll offset, one hit area
/// per tab (zero-width for tabs that are not shown), and the button hit
/// areas (zero-width when absent).
#[derive(Debug, Clone, PartialEq, Eq, Default)]
pub struct TabBarView {
    pub scroll: usize,
    pub tab_hit_areas: Vec<Rect>,
    pub scroll_left_hit_area: Rect,
    pub scroll_right_hit_area: Rect,
    pub new_tab_hit_area: Rect,
}

/// The empty rectangle.
pub open spec fn no_rect() -> Rect {
    Rect { x: 0, y: 0, width: 0, height: 0 }
}

/// `n` empty rectangles.
pub open spec fn no_rects(n: int) -> Seq<Rect> {
    Seq::new(n as nat, |_i: int| no_rect())
}

/// The rectangles of the slots from `i` on, the first at column `x`: each
/// slot gets its width, cut at `right` but at least one cell; the next
/// starts a full slot width later; once a slot would start at or past
/// `right` it and all later ones are empty.
pub open spec fn slot_rects(widths: Seq<u16>, i: int, x: int, right: int, y: u16) -> Seq<Rect>
    decreases widths.len() - i,
{
    if i < 0 || i >= widths.len() {
        Seq::empty()
    } else if x >= right {
        no_rects(widths.len() - i)
    } else {
        let w = max(min(widths[i] as int, right - x), 1);
        seq![rect_new(x as u16, y, w as u16, 1)] + slot_rects(
            widths,
            i + 1,
            sat_add(x, widths[i] as int),
            right,
            y,
        )
    }
}

/// One hit area per slot when the strip in `area` starts at slot `scroll`:
/// the slots before `scroll` are empty, and so is everything when `area`
/// is.
pub open spec fn slot_layout(widths: Seq<u16>, area: Rect, scroll: int) -> Seq<Rect> {
    if area.width == 0 || area.height == 0 || scroll >= widths.len() {
        no_rects(widths.len() as int)
    } else {
        no_rects(scroll) + slot_rects(widths, scroll, area.x as int, area.x + area.width, area.y)
    }
}

proof fn lemma_slot_rects_len(widths: Seq<u16>, i: int, x: int, right: int, y: u16)
    requires
        0 <= i <= widths.len(),
    ensures
        slot_rects(widths, i, x, right, y).len() == widths.len() - i,
    decreases widths.len() - i,
{
    if i < widths.len() && x < right {
        lemma_slot_rects_len(widths, i + 1, sat_add(x, widths[i] as int), right, y);
    }
}

/// Lays out slots of the given widths in `area`, starting at slot
/// `scroll`, per [`slot_layout`].
pub fn layout_slots(widths: &[u16], area: Rect, scroll: usize) -> (rects: Vec<Rect>)
    requires
        area.x + area.width <= u16::MAX,
    ensures
        rects@ == slot_layout(widths@, area, scroll as int),
        rects@.len() == widths@.len(),
{
    let n = widths.len();
    let ghost whole = slot_layout(widths@, area, scroll as int);
    let mut rects: Vec<Rect> = Vec::new();
    if area.width == 0 || area.height == 0 || scroll >= n {
        let mut i: usize = 0;
        while i < n
            invariant
                i <= n,
                rects@ == no_rects(i as int),
            decreases n - i,
        {
            rects.push(Rect::zero());
            i = i + 1;
            assert(rects@ =~= no_rects(i as int));
        }
        return rects;
    }
    let mut i: usize = 0;
    while i < scroll
        invariant
            i <= scroll,
            scroll < n,
            rects@ == no_rects(i as int),
        decreases scroll - i,
    {
        rects.push(Rect::zero());
        i = i + 1;
        assert(rects@ =~= no_rects(i as int));
    }
    let right = area.x + area.width;
    let mut x = area.x;
    let mut stopped = false;
    proof {
        lemma_slot_rects_len(widths@, scroll as int, x as int, right as int, area.y);
    }
    while i < n
        invariant
            n == widths@.len(),
            scroll <= i <= n,
            right == area.x + area.width,
            whole == slot_layout(widths@, area, scroll as int),
            whole == no_rects(scroll as int) + slot_rects(
                widths@,
                scroll as int,
                area.x as int,
                right as int,
                area.y,
            ),
            stopped ==> rects@ + no_rects(n - i) == whole,
            !stopped ==> rects@ + slot_rects(widths@, i as int, x as int, right as int, area.y)
                == whole,
        decreases n - i,
    {
        if stopped || x >= right {
            let ghost before = rects@;
            rects.push(Rect::zero());
            proof {
                assert(no_rects(n - i) =~= seq![no_rect()] + no_rects(n - i - 1));
                assert(before + (seq![no_rect()] + no_rects(n - i - 1)) =~= rects@ + no_rects(
                    n - i - 1,
                ));
            }
            stopped = true;
        } else {
            let room = right - x;
            let w = if widths[i] < room {
                widths[i]
            } else {
                room
            };
            let w = if w < 1 {
                1
            } else {
                w
            };
            let ghost before = rects@;
            let r = Rect::new(x, area.y, w, 1);
            rects.push(r);
            proof {
                let rest = slot_rects(
                    widths@,
                    i + 1,
                    sat_add(x as int, widths@[i as int] as int),
                    right as int,
                    area.y,
                );
                assert(before + (seq![r] + rest) =~= rects@ + rest);
            }
            x = x.saturating_add(widths[i]);
        }
        i = i + 1;
    }
    proof {
        if stopped {
            assert(rects@ + no_rects(0) =~= rects@);
        } else {
            assert(rects@ + Seq::<Rect>::empty() =~= rects@);
        }
    }
    rects
}

/// The doubled centre column of `r` (saturating), so that centres compare
/// without halving.
pub open spec fn doubled_center(x: u16, width: u16) -> int {
    sat_add(sat_mul(x as int, 2), width as int)
}

/// How far the active slot's centre lies from the viewport's centre when
/// the strip starts at `scroll`; `None` when the active slot is not shown.
pub open spec fn centering_distance_at(
    widths: Seq<u16>,
    area: Rect,
    active: int,
    scroll: int,
) -> Option<int> {
    let rects = slot_layout(widths, area, scroll);
    if active < 0 || active >= rects.len() || rects[active].width == 0 {
        None
    } else {
        let c = doubled_center(rects[active].x, rects[active].width);
        let v = doubled_center(area.x, area.width);
        Some(if c >= v {
            c - v
        } else {
            v - c
        })
    }
}

/// The scroll offset at most `active` that brings the active slot closest
/// to the middle; among equally close offsets the largest; `active` when
/// no offset shows it.
pub open spec fn centered_scroll_ok(widths: Seq<u16>, area: Rect, active: int, r: int) -> bool {
    ||| (forall|s: int| 0 <= s <= active ==> (#[trigger] centering_distance_at(widths, area, active, s)) is None)
        && r == active
    ||| 0 <= r <= active && centering_distance_at(widths, area, active, r) is Some && (forall|s: int|
        0 <= s <= active && (#[trigger] centering_distance_at(widths, area, active, s)) is Some
            ==> centering_distance_at(widths, area, active, r)->0 <= centering_distance_at(
            widths,
            area,
            active,
            s,
        )->0) && (forall|s: int|
        r < s <= active && (#[trigger] centering_distance_at(widths, area, active, s)) is Some
            ==> centering_distance_at(widths, area, active, r)->0 < centering_distance_at(
            widths,
            area,
            active,
            s,
        )->0)
}

fn abs_diff_u16(a: u16, b: u16) -> (d: u16)
    ensures
        d as int == (if a >= b {
            a - b
        } else {
            b - a
        }),
{
    if a >= b {
        a - b
    } else {
        b - a
    }
}

/// The scroll offset that centres the active slot, per
/// [`centered_scroll_ok`].
pub fn centered_slot_scroll(widths: &[u16], area: Rect, active: usize) -> (scroll: usize)
    requires
        area.x + area.width <= u16::MAX,
    ensures
        centered_scroll_ok(widths@, area, active as int, scroll as int),
        scroll as int == centered_slot_scroll_spec(widths@, area, active as int),
{
    let scroll = centered_scan(widths, area, active);
    proof {
        lemma_centered_unique(widths@, area, active as int, scroll as int);
    }
    scroll
}

fn centered_scan(widths: &[u16], area: Rect, active: usize) -> (scroll: usize)
    requires
        area.x + area.width <= u16::MAX,
    ensures
        centered_scroll_ok(widths@, area, active as int, scroll as int),
{
    let n = widths.len();
    if active >= n {
        assert forall|s: int| 0 <= s <= active implies (#[trigger] centering_distance_at(
            widths@,
            area,
            active as int,
            s,
        )) is None by {
            let rects = slot_layout(widths@, area, s);
            if !(area.width == 0 || area.height == 0 || s >= widths@.len()) {
                lemma_slot_rects_len(widths@, s, area.x as int, area.x + area.width, area.y);
            }
        }
        return active;
    }
    let viewport = saturating_mul_u16(area.x, 2).saturating_add(area.width);
    let mut best = active;
    let mut best_distance: u16 = u16::MAX;
    let mut found = false;
    let mut s: usize = 0;
    while s <= active
        invariant
            n == widths@.len(),
            active < n,
            s <= active + 1,
            area.x + area.width <= u16::MAX,
            viewport as int == doubled_center(area.x, area.width),
            !found ==> best_distance == u16::MAX,
            !found ==> best == active && forall|t: int|
                0 <= t < s ==> (#[trigger] centering_distance_at(widths@, area, active as int, t))
                    is None,
            found ==> best < s && centering_distance_at(widths@, area, active as int, best as int)
                == Some(best_distance as int),
            forall|t: int|
                0 <= t < s && (#[trigger] centering_distance_at(widths@, area, active as int, t))
                    is Some ==> best_distance <= centering_distance_at(
                    widths@,
                    area,
                    active as int,
                    t,
                )->0,
            forall|t: int|
                best < t < s && (#[trigger] centering_distance_at(widths@, area, active as int, t))
                    is Some ==> best_distance < centering_distance_at(
                    widths@,
                    area,
                    active as int,
                    t,
                )->0,
        decreases active + 1 - s,
    {
        let rects = layout_slots(widths, area, s);
        let r = rects[active];
        if r.width > 0 {
            let center = saturating_mul_u16(r.x, 2).saturating_add(r.width);
            let distance = abs_diff_u16(center, viewport);
            assert(centering_distance_at(widths@, area, active as int, s as int) == Some(
                distance as int,
            ));
            if distance <= best_distance {
                best_distance = distance;
                best = s;
                found = true;
            }
        } else {
            assert(centering_distance_at(widths@, area, active as int, s as int) is None);
        }
        s = s + 1;
    }
    best
}

/// The last slot is shown when the strip starts at `scroll`.
pub open spec fn shows_last(widths: Seq<u16>, area: Rect, scroll: int) -> bool {
    let rects = slot_layout(widths, area, scroll);
    rects.len() > 0 && rects.last().width > 0
}

/// The smallest scroll offset that still shows the last slot (0 when none
/// does).
pub open spec fn max_scroll_ok(widths: Seq<u16>, area: Rect, r: int) -> bool {
    ||| (forall|s: int| 0 <= s < widths.len() ==> !#[trigger] shows_last(widths, area, s)) && r == 0
    ||| 0 <= r < widths.len() && shows_last(widths, area, r) && forall|s: int|
        0 <= s < r ==> !#[trigger] shows_last(widths, area, s)
}

/// The smallest scroll offset that still shows the last slot, per
/// [`max_scroll_ok`].
pub fn max_slot_scroll(widths: &[u16], area: Rect) -> (scroll: usize)
    requires
        area.x + area.width <= u16::MAX,
    ensures
        max_scroll_ok(widths@, area, scroll as int),
        scroll as int == max_slot_scroll_spec(widths@, area),
{
    let scroll = max_scan(widths, area);
    proof {
        lemma_max_unique(widths@, area, scroll as int);
    }
    scroll
}

fn max_scan(widths: &[u16], area: Rect) -> (scroll: usize)
    requires
        area.x + area.width <= u16::MAX,
    ensures
        max_scroll_ok(widths@, area, scroll as int),
{
    let n = widths.len();
    let mut s: usize = 0;
    while s < n
        invariant
            n == widths@.len(),
            s <= n,
            area.x + area.width <= u16::MAX,
            forall|t: int| 0 <= t < s ==> !#[trigger] shows_last(widths@, area, t),
        decreases n - s,
    {
        let rects = layout_slots(widths, area, s);
        if rects[n - 1].width > 0 {
            return s;
        }
        s = s + 1;
    }
    0
}

/// The centring scroll offset of [`centered_scroll_ok`].
pub open spec fn centered_slot_scroll_spec(widths: Seq<u16>, area: Rect, active: int) -> int {
    choose|r: int| centered_scroll_ok(widths, area, active, r)
}

/// The largest useful scroll offset of [`max_scroll_ok`].
pub open spec fn max_slot_scroll_spec(widths: Seq<u16>, area: Rect) -> int {
    choose|r: int| max_scroll_ok(widths, area, r)
}

proof fn lemma_centered_unique(widths: Seq<u16>, area: Rect, active: int, r: int)
    requires
        centered_scroll_ok(widths, area, active, r),
    ensures
        centered_slot_scroll_spec(widths, area, active) == r,
{
    let c = centered_slot_scroll_spec(widths, area, active);
    assert(centered_scroll_ok(widths, area, active, c));
    if c != r {
        let dc = centering_distance_at(widths, area, active, c);
        let dr = centering_distance_at(widths, area, active, r);
        if 0 <= r <= active && dr is Some && 0 <= c <= active && dc is Some {
            if c < r {
                assert(dc->0 < dr->0);
                assert(dr->0 <= dc->0);
            } else {
                assert(dr->0 < dc->0);
                assert(dc->0 <= dr->0);
            }
        } else if 0 <= r <= active && dr is Some {
            assert(centering_distance_at(widths, area, active, r) is None);
        } else {
            assert(centering_distance_at(widths, area, active, c) is None);
        }
    }
}

proof fn lemma_max_unique(widths: Seq<u16>, area: Rect, r: int)
    requires
        max_scroll_ok(widths, area, r),
    ensures
        max_slot_scroll_spec(widths, area) == r,
{
    let c = max_slot_scroll_spec(widths, area);
    assert(max_scroll_ok(widths, area, c));
    if c != r {
        if 0 <= r < widths.len() && shows_last(widths, area, r) && 0 <= c < widths.len()
            && shows_last(widths, area, c) {
            if c < r {
                assert(!shows_last(widths, area, c));
            } else {
                assert(!shows_last(widths, area, r));
            }
        } else if 0 <= r < widths.len() && shows_last(widths, area, r) {
            assert(!shows_last(widths, area, r));
        } else {
            assert(!shows_last(widths, area, c));
        }
    }
}

/// The column right after the last shown slot, or `fallback` when none is.
pub open spec fn trailing_x_spec(rects: Seq<Rect>, fallback: u16) -> int
    decreases rects.len(),
{
    if rects.len() == 0 {
        fallback as int
    } else if rects.last().width > 0 {
        rects.last().x + rects.last().width
    } else {
        trailing_x_spec(rects.drop_last(), fallback)
    }
}

/// Every rectangle ends inside the `u16` coordinate space.
pub open spec fn rects_in_range(rects: Seq<Rect>) -> bool {
    forall|i: int| 0 <= i < rects.len() ==> (#[trigger] rects[i]).x + rects[i].width <= u16::MAX
}

proof fn lemma_trailing_x_bound(rects: Seq<Rect>, fallback: u16)
    requires
        rects_in_range(rects),
    ensures
        0 <= trailing_x_spec(rects, fallback) <= u16::MAX,
    decreases rects.len(),
{
    if rects.len() > 0 && rects.last().width == 0 {
        lemma_trailing_x_bound(rects.drop_last(), fallback);
    }
}

/// The column where the controls after the markers start: right after the
/// last shown marker, or `fallback_x` when none is shown.
pub fn trailing_tab_controls_x(tab_hit_areas: &[Rect], fallback_x: u16) -> (x: u16)
    requires
        rects_in_range(tab_hit_areas@),
    ensures
        x as int == trailing_x_spec(tab_hit_areas@, fallback_x),
{
    let mut k = tab_hit_areas.len();
    assert(tab_hit_areas@.subrange(0, k as int) =~= tab_hit_areas@);
    while k > 0
        invariant
            k <= tab_hit_areas@.len(),
            rects_in_range(tab_hit_areas@),
            trailing_x_spec(tab_hit_areas@.subrange(0, k as int), fallback_x) == trailing_x_spec(
                tab_hit_areas@,
                fallback_x,
            ),
        decreases k,
    {
        let r = tab_hit_areas[k - 1];
        proof {
            assert(tab_hit_areas@.subrange(0, k as int).last() == r);
            assert(tab_hit_areas@.subrange(0, k as int).drop_last() =~= tab_hit_areas@.subrange(
                0,
                k - 1,
            ));
        }
        if r.width > 0 {
            return r.x + r.width;
        }
        k = k - 1;
    }
    assert(tab_hit_areas@.subrange(0, 0) =~= Seq::<Rect>::empty());
    fallback_x
}

/// The visible slots (those with a width) with their indexes, in order.
pub open spec fn visible_slots(rects: Seq<Rect>) -> Seq<(int, Rect)>
    decreases rects.len(),
{
    if rects.len() == 0 {
        Seq::empty()
    } else if rects.last().width > 0 {
        visible_slots(rects.drop_last()).push((rects.len() - 1, rects.last()))
    } else {
        visible_slots(rects.drop_last())
    }
}

/// The first visible slot with index `index`, among `v` from position `k`.
pub open spec fn find_slot(v: Seq<(int, Rect)>, index: int, k: int) -> Option<Rect>
    decreases v.len() - k,
{
    if k < 0 || k >= v.len() {
        None
    } else if v[k].0 == index {
        Some(v[k].1)
    } else {
        find_slot(v, index, k + 1)
    }
}

/// Where the drop indicator goes for inserting at `insert`: at the first
/// visible slot when inserting at or before it; just left of the slot now
/// at `insert` when that one is visible; else right after the last visible
/// slot. `None` when no slot is visible.
pub open spec fn marker_indicator_spec(rects: Seq<Rect>, insert: int) -> Option<int> {
    let v = visible_slots(rects);
    if v.len() == 0 {
        None
    } else if insert <= v[0].0 {
        Some(v[0].1.x as int)
    } else {
        match find_slot(v, insert, 0) {
            Some(r) => Some(sat_sub(r.x as int, 1)),
            None => Some(v.last().1.x + v.last().1.width),
        }
    }
}

proof fn lemma_visible_slots_facts(rects: Seq<Rect>)
    ensures
        forall|k: int|
            0 <= k < visible_slots(rects).len() ==> 0 <= (#[trigger] visible_slots(rects)[k]).0
                < rects.len() && visible_slots(rects)[k].1 == rects[visible_slots(rects)[k].0]
                && visible_slots(rects)[k].1.width > 0,
    decreases rects.len(),
{
    if rects.len() > 0 {
        let prev = rects.drop_last();
        lemma_visible_slots_facts(prev);
        let vp = visible_slots(prev);
        let vr = visible_slots(rects);
        assert forall|k: int| 0 <= k < vr.len() implies 0 <= (#[trigger] vr[k]).0 < rects.len()
            && vr[k].1 == rects[vr[k].0] && vr[k].1.width > 0 by {
            if k < vp.len() {
                assert(vr[k] == vp[k]);
                assert(prev[vp[k].0] == rects[vp[k].0]);
            }
        }
    }
}

fn visible_slot_list(rects: &[Rect]) -> (v: Vec<(usize, Rect)>)
    ensures
        v@.len() == visible_slots(rects@).len(),
        forall|k: int|
            0 <= k < v@.len() ==> (#[trigger] v@[k]).0 as int == visible_slots(rects@)[k].0 && v@[k].1
                == visible_slots(rects@)[k].1,
{
    let n = rects.len();
    let mut v: Vec<(usize, Rect)> = Vec::new();
    let mut i: usize = 0;
    while i < n
        invariant
            n == rects@.len(),
            i <= n,
            v@.len() == visible_slots(rects@.subrange(0, i as int)).len(),
            forall|k: int|
                0 <= k < v@.len() ==> (#[trigger] v@[k]).0 as int == visible_slots(
                    rects@.subrange(0, i as int),
                )[k].0 && v@[k].1 == visible_slots(rects@.subrange(0, i as int))[k].1,
        decreases n - i,
    {
        proof {
            assert(rects@.subrange(0, i + 1).drop_last() =~= rects@.subrange(0, i as int));
        }
        if rects[i].width > 0 {
            v.push((i, rects[i]));
        }
        i = i + 1;
    }
    assert(rects@.subrange(0, n as int) =~= rects@);
    v
}

/// The column for the drag-to-reorder drop indicator, per
/// [`marker_indicator_spec`].
pub fn tab_drop_indicator_x(tab_hit_areas: &[Rect], insert_idx: usize) -> (x: Option<u16>)
    requires
        rects_in_range(tab_hit_areas@),
    ensures
        match marker_indicator_spec(tab_hit_areas@, insert_idx as int) {
            Some(c) => x is Some && x->0 as int == c,
            None => x is None,
        },
{
    let visible = visible_slot_list(tab_hit_areas);
    proof {
        lemma_visible_slots_facts(tab_hit_areas@);
    }
    let ghost v = visible_slots(tab_hit_areas@);
    if visible.len() == 0 {
        return None;
    }
    let (first_idx, first_rect) = visible[0];
    let (_, last_rect) = visible[visible.len() - 1];
    if insert_idx <= first_idx {
        return Some(first_rect.x);
    }
    let mut k = visible.len();
    let mut found: Option<Rect> = None;
    while k > 0
        invariant
            k <= visible@.len(),
            visible@.len() == v.len(),
            forall|j: int|
                0 <= j < visible@.len() ==> (#[trigger] visible@[j]).0 as int == v[j].0
                    && visible@[j].1 == v[j].1,
            found == find_slot(v, insert_idx as int, k as int),
        decreases k,
    {
        k = k - 1;
        if visible[k].0 == insert_idx {
            found = Some(visible[k].1);
        }
    }
    match found {
        Some(rect) => Some(rect.x.saturating_sub(1)),
        None => {
            assert(tab_hit_areas@[v.last().0] == v.last().1);
            Some(last_rect.x + last_rect.width)
        },
    }
}

/// The value of a [`TabBarView`].
pub struct ViewModel {
    pub scroll: int,
    pub rects: Seq<Rect>,
    pub scroll_left: Rect,
    pub scroll_right: Rect,
    pub new_tab: Rect,
}

pub open spec fn view_model(v: TabBarView) -> ViewModel {
    ViewModel {
        scroll: v.scroll as int,
        rects: v.tab_hit_areas@,
        scroll_left: v.scroll_left_hit_area,
        scroll_right: v.scroll_right_hit_area,
        new_tab: v.new_tab_hit_area,
    }
}

/// The view of an empty bar.
pub open spec fn empty_view() -> ViewModel {
    ViewModel {
        scroll: 0,
        rects: Seq::empty(),
        scroll_left: no_rect(),
        scroll_right: no_rect(),
        new_tab: no_rect(),
    }
}

fn empty_tab_bar_view() -> (v: TabBarView)
    ensures
        view_model(v) == empty_view(),
{
    TabBarView {
        scroll: 0,
        tab_hit_areas: Vec::new(),
        scroll_left_hit_area: Rect::zero(),
        scroll_right_hit_area: Rect::zero(),
        new_tab_hit_area: Rect::zero(),
    }
}

/// The active tab's name when the user gave it one; auto-named tabs show
/// none.
pub open spec fn active_name_spec(ws: WorkspaceTabs) -> Option<Seq<char>> {
    if ws.active_tab < ws.tabs@.len() && !ws.tabs@[ws.active_tab as int].auto_named {
        display_name_of(ws, ws.active_tab as int)
    } else {
        None
    }
}

/// The active tab's name, shown right-aligned in the bar, but only when the
/// tab has a user-assigned name.
pub fn active_tab_name(ws: &WorkspaceTabs) -> (name: Option<String>)
    ensures
        match name {
            Some(s) => active_name_spec(*ws) == Some(s@),
            None => active_name_spec(*ws) is None,
        },
{
    if ws.active_tab < ws.tabs.len() && !ws.tabs[ws.active_tab].auto_named {
        ws.tab_display_name(ws.active_tab)
    } else {
        None
    }
}

/// The name's width fits a `u16` cell count with room for its padding cell
/// (the width is taken modulo 2^16, as a `u16` conversion does).
pub open spec fn name_fits(name: Seq<char>) -> bool {
    line_width(name) % 65536 < 65535
}

/// Cells reserved for the active tab name: its display width (modulo
/// 2^16) plus one cell of padding.
pub open spec fn name_region_width_spec(name: Seq<char>) -> int {
    (line_width(name) % 65536) as int + 1
}

/// Cells reserved on the right for the active tab name: its display width
/// plus one cell of padding between the markers and the name.
pub fn name_region_width(name: &str) -> (w: u16)
    requires
        name_fits(name@),
    ensures
        w as int == name_region_width_spec(name@),
{
    let width = text_width(name);
    let low = (width % 65536) as u16;
    low + 1
}

/// The active tab's name fits its region, if there is one.
pub open spec fn active_name_fits(ws: WorkspaceTabs) -> bool {
    match active_name_spec(ws) {
        Some(name) => name_fits(name),
        None => true,
    }
}

/// Whether the active tab's name, if any, fits its region, per
/// [`active_name_fits`].
pub fn active_name_fits_exec(ws: &WorkspaceTabs) -> (fits: bool)
    ensures
        fits == active_name_fits(*ws),
{
    match active_tab_name(ws) {
        Some(name) => text_width(name.as_str()) % 65536 < 65535,
        None => true,
    }
}

/// `n` marker slots of `TAB_MARKER_WIDTH` cells.
pub open spec fn marker_widths(n: int) -> Seq<u16> {
    Seq::new(n as nat, |_i: int| TAB_MARKER_WIDTH)
}

/// Cells the name region takes: its width, at most the whole bar.
pub open spec fn name_cells(ws: WorkspaceTabs, area: Rect) -> int {
    match active_name_spec(ws) {
        Some(name) => min(name_region_width_spec(name), area.width as int),
        None => 0,
    }
}

/// Cells the "+" button takes.
pub open spec fn plus_cells(ws: WorkspaceTabs, area: Rect, mouse: bool) -> int {
    let controls = sat_sub(area.width as int, name_cells(ws, area));
    let inner = controls - min(TAB_BAR_LEFT_PAD as int, controls);
    if mouse {
        min(NEW_TAB_WIDTH as int, inner)
    } else {
        0
    }
}

/// Where the markers go: after the left padding, before the "+" button and
/// the name region.
pub open spec fn markers_area_spec(ws: WorkspaceTabs, area: Rect, mouse: bool) -> Rect {
    let controls = sat_sub(area.width as int, name_cells(ws, area));
    let left_pad = min(TAB_BAR_LEFT_PAD as int, controls);
    let inner = controls - left_pad;
    rect_new(
        (area.x + left_pad) as u16,
        area.y,
        (inner - plus_cells(ws, area, mouse)) as u16,
        area.height,
    )
}

/// The marker bar view: no geometry for an empty bar; otherwise the markers
/// laid out from the scroll offset (centring the active tab when following
/// it, else the current offset, either clamped to the largest useful one),
/// and the "+" button right after the last shown marker.
pub open spec fn marker_bar_view(
    ws: WorkspaceTabs,
    area: Rect,
    current: int,
    follow: bool,
    mouse: bool,
) -> ViewModel {
    if area.width == 0 || area.height == 0 {
        empty_view()
    } else {
        let m = markers_area_spec(ws, area, mouse);
        let widths = marker_widths(ws.tabs@.len() as int);
        let max_s = max_slot_scroll_spec(widths, m);
        let scroll = if follow {
            min(centered_slot_scroll_spec(widths, m, ws.active_tab as int), max_s)
        } else {
            min(current, max_s)
        };
        let rects = slot_layout(widths, m, scroll);
        let plus = plus_cells(ws, area, mouse);
        ViewModel {
            scroll,
            rects,
            scroll_left: no_rect(),
            scroll_right: no_rect(),
            new_tab: if plus > 0 {
                rect_new(
                    min(trailing_x_spec(rects, m.x), m.x + m.width) as u16,
                    area.y,
                    plus as u16,
                    1,
                )
            } else {
                no_rect()
            },
        }
    }
}

fn marker_width_list(n: usize) -> (widths: Vec<u16>)
    ensures
        widths@ == marker_widths(n as int),
{
    let mut widths: Vec<u16> = Vec::new();
    let mut i: usize = 0;
    while i < n
        invariant
            i <= n,
            widths@ == marker_widths(i as int),
        decreases n - i,
    {
        widths.push(TAB_MARKER_WIDTH);
        i = i + 1;
        assert(widths@ =~= marker_widths(i as int));
    }
    widths
}

proof fn lemma_slot_layout_in_range(widths: Seq<u16>, area: Rect, scroll: int)
    requires
        area.x + area.width <= u16::MAX,
        0 <= scroll,
    ensures
        rects_in_range(slot_layout(widths, area, scroll)),
        slot_layout(widths, area, scroll).len() == widths.len(),
{
    if !(area.width == 0 || area.height == 0 || scroll >= widths.len()) {
        lemma_slot_rects_range(widths, scroll, area.x as int, area.x + area.width, area.y);
        lemma_slot_rects_len(widths, scroll, area.x as int, area.x + area.width, area.y);
        let a = no_rects(scroll);
        let b = slot_rects(widths, scroll, area.x as int, area.x + area.width, area.y);
        assert forall|i: int| 0 <= i < (a + b).len() implies (#[trigger] (a + b)[i]).x + (a
            + b)[i].width <= u16::MAX by {
            if i >= a.len() {
                assert((a + b)[i] == b[i - a.len()]);
            }
        }
    }
}

proof fn lemma_slot_rects_range(widths: Seq<u16>, i: int, x: int, right: int, y: u16)
    requires
        0 <= x,
        right <= u16::MAX,
    ensures
        rects_in_range(slot_rects(widths, i, x, right, y)),
    decreases widths.len() - i,
{
    if 0 <= i < widths.len() && x < right {
        let next = sat_add(x, widths[i] as int);
        lemma_slot_rects_range(widths, i + 1, next, right, y);
        let w = max(min(widths[i] as int, right - x), 1);
        let head = seq![rect_new(x as u16, y, w as u16, 1)];
        let rest = slot_rects(widths, i + 1, next, right, y);
        assert forall|k: int| 0 <= k < (head + rest).len() implies (#[trigger] (head + rest)[k]).x
            + (head + rest)[k].width <= u16::MAX by {
            if k >= 1 {
                assert((head + rest)[k] == rest[k - 1]);
            }
        }
    }
}

/// Lays out the marker bar for workspace `ws` in `area`, per
/// [`marker_bar_view`].
pub fn compute_tab_bar_view(
    ws: &WorkspaceTabs,
    area: Rect,
    current_scroll: usize,
    follow_active: bool,
    mouse_chrome: bool,
) -> (view: TabBarView)
    requires
        area.x + area.width <= u16::MAX,
        active_name_fits(*ws),
    ensures
        view_model(view) == marker_bar_view(
            *ws,
            area,
            current_scroll as int,
            follow_active,
            mouse_chrome,
        ),
{
    if area.width == 0 || area.height == 0 {
        return empty_tab_bar_view();
    }
    let name_w = match active_tab_name(ws) {
        Some(name) => {
            let w = name_region_width(name.as_str());
            if w < area.width {
                w
            } else {
                area.width
            }
        },
        None => 0,
    };
    let controls_w = area.width.saturating_sub(name_w);
    let left_pad = if TAB_BAR_LEFT_PAD < controls_w {
        TAB_BAR_LEFT_PAD
    } else {
        controls_w
    };
    let inner_w = controls_w - left_pad;
    let plus_w = if mouse_chrome {
        if NEW_TAB_WIDTH < inner_w {
            NEW_TAB_WIDTH
        } else {
            inner_w
        }
    } else {
        0
    };
    let markers_area = Rect::new(area.x + left_pad, area.y, inner_w - plus_w, area.height);
    assert(markers_area == markers_area_spec(*ws, area, mouse_chrome));
    let widths = marker_width_list(ws.tabs.len());
    let max_scroll = max_slot_scroll(widths.as_slice(), markers_area);
    let scroll = if follow_active {
        let centered = centered_slot_scroll(widths.as_slice(), markers_area, ws.active_tab);
        if centered < max_scroll {
            centered
        } else {
            max_scroll
        }
    } else if current_scroll < max_scroll {
        current_scroll
    } else {
        max_scroll
    };
    let tab_hit_areas = layout_slots(widths.as_slice(), markers_area, scroll);
    proof {
        lemma_slot_layout_in_range(widths@, markers_area, scroll as int);
        lemma_trailing_x_bound(tab_hit_areas@, markers_area.x);
    }
    let new_tab_hit_area = if plus_w > 0 {
        let trailing = trailing_tab_controls_x(tab_hit_areas.as_slice(), markers_area.x);
        let end = markers_area.x + markers_area.width;
        Rect::new(
            if trailing < end {
                trailing
            } else {
                end
            },
            area.y,
            plus_w,
            1,
        )
    } else {
        Rect::zero()
    };
    TabBarView {
        scroll,
        tab_hit_areas,
        scroll_left_hit_area: Rect::zero(),
        scroll_right_hit_area: Rect::zero(),
        new_tab_hit_area,
    }
}

/// Lays out the marker bar, per [`marker_bar_view`], when the active tab's
/// name fits its region; `None` (and no layout) when its width leaves no
/// room for the padding cell.
pub fn try_compute_tab_bar_view(
    ws: &WorkspaceTabs,
    area: Rect,
    current_scroll: usize,
    follow_active: bool,
    mouse_chrome: bool,
) -> (view: Option<TabBarView>)
    requires
        area.x + area.width <= u16::MAX,
    ensures
        match view {
            Some(v) => active_name_fits(*ws) && view_model(v) == marker_bar_view(
                *ws,
                area,
                current_scroll as int,
                follow_active,
                mouse_chrome,
            ),
            None => !active_name_fits(*ws),
        },
{
    if active_name_fits_exec(ws) {
        Some(compute_tab_bar_view(ws, area, current_scroll, follow_active, mouse_chrome))
    } else {
        None
    }
}

// ---------------------------------------------------------------------------
// The minimal style: markers with optional titles
// ---------------------------------------------------------------------------

/// The label a minimal slot shows: the tab's display name, or its 1-based
/// number.
pub open spec fn chrome_label_spec(ws: WorkspaceTabs, idx: int) -> Seq<char> {
    match display_name_of(ws, idx) {
        Some(d) => d,
        None => decimal((idx + 1) as nat),
    }
}

/// The label a minimal slot shows: the tab's display name, or its 1-based
/// number.
pub fn tab_chrome_label(ws: &WorkspaceTabs, tab_idx: usize) -> (label: String)
    requires
        tab_idx < usize::MAX,
    ensures
        label@ == chrome_label_spec(*ws, tab_idx as int),
{
    match ws.tab_display_name(tab_idx) {
        Some(name) => name,
        None => usize_to_string(tab_idx + 1),
    }
}

/// Width of one minimal slot: glyph-only slots are `TAB_MARKER_WIDTH`;
/// titled ones hold glyph, space, label (its character count, modulo 2^16)
/// and a trailing space.
pub open spec fn slot_width_spec(ws: WorkspaceTabs, idx: int, show_title: bool) -> u16 {
    if show_title {
        sat_add((chrome_label_spec(ws, idx).len() % 65536) as int, 3) as u16
    } else {
        TAB_MARKER_WIDTH
    }
}

/// Width of one minimal slot, per [`slot_width_spec`].
pub fn slot_width(ws: &WorkspaceTabs, tab_idx: usize, show_title: bool) -> (w: u16)
    requires
        tab_idx < usize::MAX,
    ensures
        w == slot_width_spec(*ws, tab_idx as int, show_title),
{
    if show_title {
        let label = tab_chrome_label(ws, tab_idx);
        let count = label.unicode_len();
        let low = (count % 65536) as u16;
        low.saturating_add(3)
    } else {
        TAB_MARKER_WIDTH
    }
}

/// The widths of all minimal slots of `ws`.
pub open spec fn minimal_slot_widths(ws: WorkspaceTabs, show_title: bool) -> Seq<u16> {
    Seq::new(ws.tabs@.len(), |i: int| slot_width_spec(ws, i, show_title))
}

fn minimal_slot_width_list(ws: &WorkspaceTabs, show_title: bool) -> (widths: Vec<u16>)
    ensures
        widths@ == minimal_slot_widths(*ws, show_title),
{
    let n = ws.tabs.len();
    let mut widths: Vec<u16> = Vec::new();
    let mut i: usize = 0;
    while i < n
        invariant
            n == ws.tabs@.len(),
            i <= n,
            widths@ == minimal_slot_widths(*ws, show_title).subrange(0, i as int),
        decreases n - i,
    {
        widths.push(slot_width(ws, i, show_title));
        i = i + 1;
        assert(widths@ =~= minimal_slot_widths(*ws, show_title).subrange(0, i as int));
    }
    assert(minimal_slot_widths(*ws, show_title).subrange(0, n as int) =~= minimal_slot_widths(
        *ws,
        show_title,
    ));
    widths
}

/// The cells all minimal slots take, saturating.
pub open spec fn total_width_spec(ws: WorkspaceTabs, show_title: bool) -> int {
    min(width_sum(minimal_slot_widths(ws, show_title)), u16::MAX as int)
}

/// The cells all minimal slots take, saturating.
pub fn total_width(ws: &WorkspaceTabs, show_title: bool) -> (w: u16)
    ensures
        w as int == total_width_spec(*ws, show_title),
{
    let widths = minimal_slot_width_list(ws, show_title);
    saturating_total(&widths)
}

/// The minimal view: while the slots fit, they sit flush with the edge
/// `align` names, unscrolled; otherwise they fill the bar from the left,
/// scrolled to centre the active tab when following it (else the current
/// offset), clamped to the largest useful offset. No buttons.
pub open spec fn minimal_view(
    ws: WorkspaceTabs,
    area: Rect,
    current: int,
    follow: bool,
    align: TabBarAlign,
    show_title: bool,
) -> ViewModel {
    let widths = minimal_slot_widths(ws, show_title);
    let total = total_width_spec(ws, show_title);
    let (m, scroll) = if total <= area.width {
        let x = match align {
            TabBarAlign::Left => area.x as int,
            TabBarAlign::Right => area.x + sat_sub(area.width as int, total),
        };
        (rect_new(x as u16, area.y, total as u16, area.height), 0int)
    } else {
        let m = rect_new(area.x, area.y, area.width, area.height);
        let max_s = max_slot_scroll_spec(widths, m);
        (
            m,
            if follow {
                min(centered_slot_scroll_spec(widths, m, ws.active_tab as int), max_s)
            } else {
                min(current, max_s)
            },
        )
    };
    ViewModel {
        scroll,
        rects: slot_layout(widths, m, scroll),
        scroll_left: no_rect(),
        scroll_right: no_rect(),
        new_tab: no_rect(),
    }
}

/// Lays out the minimal strip for `ws` in `area`, per [`minimal_view`].
pub fn compute(
    ws: &WorkspaceTabs,
    area: Rect,
    current_scroll: usize,
    follow_active: bool,
    align: TabBarAlign,
    show_title: bool,
) -> (view: TabBarView)
    requires
        area.x + area.width <= u16::MAX,
    ensures
        view_model(view) == minimal_view(
            *ws,
            area,
            current_scroll as int,
            follow_active,
            align,
            show_title,
        ),
{
    let widths = minimal_slot_width_list(ws, show_title);
    let total_w = saturating_total(&widths);
    let markers_area: Rect;
    let scroll: usize;
    if total_w <= area.width {
        let x = match align {
            TabBarAlign::Left => area.x,
            TabBarAlign::Right => area.x + area.width.saturating_sub(total_w),
        };
        markers_area = Rect::new(x, area.y, total_w, area.height);
        scroll = 0;
    } else {
        markers_area = Rect::new(area.x, area.y, area.width, area.height);
        let max_scroll = max_slot_scroll(widths.as_slice(), markers_area);
        scroll = if follow_active {
            let centered = centered_slot_scroll(widths.as_slice(), markers_area, ws.active_tab);
            if centered < max_scroll {
                centered
            } else {
                max_scroll
            }
        } else if current_scroll < max_scroll {
            current_scroll
        } else {
            max_scroll
        };
    }
    let tab_hit_areas = layout_slots(widths.as_slice(), markers_area, scroll);
    TabBarView {
        scroll,
        tab_hit_areas,
        scroll_left_hit_area: Rect::zero(),
        scroll_right_hit_area: Rect::zero(),
        new_tab_hit_area: Rect::zero(),
    }
}

// ---------------------------------------------------------------------------
// Painting
// ---------------------------------------------------------------------------

/// A tab being dragged to a new position in workspace `ws_idx`.
#[derive(Debug, Clone, Copy, PartialEq, Eq, Structural)]
pub struct TabDrag {
    pub ws_idx: usize,
    pub insert_idx: Option<usize>,
}

/// One marker to paint: the active glyph (accent, or yellow while the
/// prefix is highlighted) or the inactive one, with the tab's label after
/// it when titles are on.
#[derive(Debug, Clone, PartialEq, Eq)]
pub struct MarkerPaint {
    pub rect: Rect,
    pub active: bool,
    pub title: Option<String>,
}

/// What the tab bar paints over its background.
#[derive(Debug, Clone, PartialEq, Eq)]
pub struct TabBarPaint {
    pub markers: Vec<MarkerPaint>,
    /// Column of the drag-to-reorder drop indicator.
    pub drop_indicator_x: Option<u16>,
    /// The " + " button.
    pub new_tab: Option<Rect>,
    /// The active tab's name, right-aligned in its region (bold).
    pub name: Option<(Rect, String)>,
}

pub struct MarkerPaintModel {
    pub rect: Rect,
    pub active: bool,
    pub title: Option<Seq<char>>,
}

pub struct PaintModel {
    pub markers: Seq<MarkerPaintModel>,
    pub drop_indicator_x: Option<u16>,
    pub new_tab: Option<Rect>,
    pub name: Option<(Rect, Seq<char>)>,
}

pub open spec fn marker_model(m: MarkerPaint) -> MarkerPaintModel {
    MarkerPaintModel {
        rect: m.rect,
        active: m.active,
        title: match m.title {
            Some(t) => Some(t@),
            None => None,
        },
    }
}

pub open spec fn marker_models(ms: Seq<MarkerPaint>) -> Seq<MarkerPaintModel> {
    ms.map_values(|m: MarkerPaint| marker_model(m))
}

pub open spec fn paint_model(p: TabBarPaint) -> PaintModel {
    PaintModel {
        markers: marker_models(p.markers@),
        drop_indicator_x: p.drop_indicator_x,
        new_tab: p.new_tab,
        name: match p.name {
            Some(n) => Some((n.0, n.1@)),
            None => None,
        },
    }
}

/// A marker for every shown slot, in order; titled with the tab's label
/// when `titles` is on.
pub open spec fn marker_paints(ws: WorkspaceTabs, rects: Seq<Rect>, titles: bool) -> Seq<
    MarkerPaintModel,
> {
    let v = visible_slots(rects);
    Seq::new(
        v.len(),
        |k: int|
            MarkerPaintModel {
                rect: v[k].1,
                active: v[k].0 == ws.active_tab,
                title: if titles {
                    Some(chrome_label_spec(ws, v[k].0))
                } else {
                    None
                },
            },
    )
}

/// The drop indicator's column while a tab of the active workspace is
/// dragged to an insert position, kept inside the bar.
pub open spec fn indicator_spec(
    area: Rect,
    active_idx: int,
    rects: Seq<Rect>,
    drag: Option<TabDrag>,
) -> Option<u16> {
    match drag {
        Some(d) => if d.ws_idx == active_idx && d.insert_idx is Some {
            match marker_indicator_spec(rects, d.insert_idx->0 as int) {
                Some(x) => Some(min(x, area.x + sat_sub(area.width as int, 1)) as u16),
                None => None,
            }
        } else {
            None
        },
        None => None,
    }
}

/// What the marker bar paints: nothing for an empty bar or when no
/// workspace is active; else the markers, the drop indicator, the "+"
/// button (with mouse capture, when laid out) and the active tab's custom
/// name in a region at the right edge.
pub open spec fn marker_bar_paint(
    area: Rect,
    active: Option<usize>,
    workspaces: Seq<WorkspaceTabs>,
    view: ViewModel,
    mouse_capture: bool,
    drag: Option<TabDrag>,
) -> Option<PaintModel> {
    if area.width == 0 || area.height == 0 || active is None || active->0 >= workspaces.len() {
        None
    } else {
        let a = active->0 as int;
        let ws = workspaces[a];
        Some(
            PaintModel {
                markers: marker_paints(ws, view.rects, false),
                drop_indicator_x: indicator_spec(area, a, view.rects, drag),
                new_tab: if mouse_capture && view.new_tab.width > 0 {
                    Some(view.new_tab)
                } else {
                    None
                },
                name: match active_name_spec(ws) {
                    Some(name) => {
                        let w = min(name_region_width_spec(name), area.width as int);
                        Some((rect_new((area.x + area.width - w) as u16, area.y, w as u16, 1), name))
                    },
                    None => None,
                },
            },
        )
    }
}

/// What the minimal strip paints: nothing for an empty bar or when no
/// workspace is active; else the markers (titled when `show_title` is on)
/// and the drop indicator.
pub open spec fn minimal_paint(
    area: Rect,
    active: Option<usize>,
    workspaces: Seq<WorkspaceTabs>,
    view: ViewModel,
    show_title: bool,
    drag: Option<TabDrag>,
) -> Option<PaintModel> {
    if area.width == 0 || area.height == 0 || active is None || active->0 >= workspaces.len() {
        None
    } else {
        let a = active->0 as int;
        Some(
            PaintModel {
                markers: marker_paints(workspaces[a], view.rects, show_title),
                drop_indicator_x: indicator_spec(area, a, view.rects, drag),
                new_tab: None,
                name: None,
            },
        )
    }
}

fn marker_paint_list(ws: &WorkspaceTabs, rects: &[Rect], titles: bool) -> (markers: Vec<MarkerPaint>)
    requires
        titles ==> rects@.len() < usize::MAX,
    ensures
        marker_models(markers@) == marker_paints(*ws, rects@, titles),
{
    let visible = visible_slot_list(rects);
    proof {
        lemma_visible_slots_facts(rects@);
    }
    let ghost target = marker_paints(*ws, rects@, titles);
    let n = visible.len();
    let mut markers: Vec<MarkerPaint> = Vec::new();
    let mut k: usize = 0;
    while k < n
        invariant
            n == visible@.len(),
            n == visible_slots(rects@).len(),
            forall|j: int|
                0 <= j < n ==> (#[trigger] visible@[j]).0 as int == visible_slots(rects@)[j].0
                    && visible@[j].1 == visible_slots(rects@)[j].1,
            forall|j: int|
                0 <= j < n ==> 0 <= (#[trigger] visible_slots(rects@)[j]).0 < rects@.len(),
            target == marker_paints(*ws, rects@, titles),
            titles ==> rects@.len() < usize::MAX,
            k <= n,
            markers@.len() == k,
            marker_models(markers@) == target.subrange(0, k as int),
        decreases n - k,
    {
        let (idx, rect) = visible[k];
        let title = if titles {
            Some(tab_chrome_label(ws, idx))
        } else {
            None
        };
        let ghost before = markers@;
        let m = MarkerPaint { rect, active: idx == ws.active_tab, title };
        assert(marker_model(m) == target[k as int]);
        markers.push(m);
        assert(markers@ == before.push(m));
        assert forall|j: int| 0 <= j < k + 1 implies #[trigger] marker_models(markers@)[j]
            == target.subrange(0, k + 1)[j] by {
            assert(markers@.len() == k + 1);
            assert(marker_models(markers@)[j] == marker_model(markers@[j]));
            if j < k {
                assert(markers@[j] == before[j]);
                assert(marker_models(before)[j] == marker_model(before[j]));
                assert(marker_models(before)[j] == target.subrange(0, k as int)[j]);
            } else {
                assert(markers@[j] == m);
            }
        }
        assert(marker_models(markers@) =~= target.subrange(0, k + 1));
        k = k + 1;
    }
    assert(target.subrange(0, n as int) =~= target);
    markers
}

fn indicator_for(area: Rect, active_idx: usize, rects: &[Rect], drag: Option<TabDrag>) -> (x:
    Option<u16>)
    requires
        area.x + area.width <= u16::MAX,
        rects_in_range(rects@),
    ensures
        x == indicator_spec(area, active_idx as int, rects@, drag),
{
    match drag {
        Some(d) => {
            if d.ws_idx == active_idx {
                match d.insert_idx {
                    Some(insert_idx) => match tab_drop_indicator_x(rects, insert_idx) {
                        Some(x) => {
                            let last = area.x + area.width.saturating_sub(1);
                            Some(
                                if x < last {
                                    x
                                } else {
                                    last
                                },
                            )
                        },
                        None => None,
                    },
                    None => None,
                }
            } else {
                None
            }
        },
        None => None,
    }
}

/// The colour of a marker: the active one in the accent (yellow while the
/// prefix is highlighted), inactive ones in `overlay1`.
pub fn marker_color(active: bool, prefix_highlight: bool, palette: &Palette) -> (color: Color)
    ensures
        color == (if active {
            if prefix_highlight {
                palette.yellow
            } else {
                palette.accent
            }
        } else {
            palette.overlay1
        }),
{
    if active {
        if prefix_highlight {
            palette.yellow
        } else {
            palette.accent
        }
    } else {
        palette.overlay1
    }
}

/// What the marker bar paints, per [`marker_bar_paint`].
pub fn render_tab_bar(
    area: Rect,
    active: Option<usize>,
    workspaces: &[WorkspaceTabs],
    view: &TabBarView,
    mouse_capture: bool,
    drag: Option<TabDrag>,
) -> (paint: Option<TabBarPaint>)
    requires
        area.x + area.width <= u16::MAX,
        rects_in_range(view.tab_hit_areas@),
        active is Some && active->0 < workspaces@.len() ==> active_name_fits(
            workspaces@[active->0 as int],
        ),
    ensures
        match paint {
            Some(p) => marker_bar_paint(
                area,
                active,
                workspaces@,
                view_model(*view),
                mouse_capture,
                drag,
            ) == Some(paint_model(p)),
            None => marker_bar_paint(
                area,
                active,
                workspaces@,
                view_model(*view),
                mouse_capture,
                drag,
            ) is None,
        },
{
    if area.width == 0 || area.height == 0 {
        return None;
    }
    let a = match active {
        Some(a) => a,
        None => {
            return None;
        },
    };
    if a >= workspaces.len() {
        return None;
    }
    let ws = &workspaces[a];
    let markers = marker_paint_list(ws, view.tab_hit_areas.as_slice(), false);
    let drop_indicator_x = indicator_for(area, a, view.tab_hit_areas.as_slice(), drag);
    let new_tab = if mouse_capture && view.new_tab_hit_area.width > 0 {
        Some(view.new_tab_hit_area)
    } else {
        None
    };
    let name = match active_tab_name(ws) {
        Some(name) => {
            let w = name_region_width(name.as_str());
            let w = if w < area.width {
                w
            } else {
                area.width
            };
            Some((Rect::new(area.x + (area.width - w), area.y, w, 1), name))
        },
        None => None,
    };
    let paint = TabBarPaint { markers, drop_indicator_x, new_tab, name };
    assert(paint_model(paint).markers == marker_paints(*ws, view.tab_hit_areas@, false));
    Some(paint)
}

/// What the marker bar paints, per [`marker_bar_paint`], when the active
/// workspace's active tab name fits its region; `Err(())` when its width
/// leaves no room for the padding cell.
pub fn try_render_tab_bar(
    area: Rect,
    active: Option<usize>,
    workspaces: &[WorkspaceTabs],
    view: &TabBarView,
    mouse_capture: bool,
    drag: Option<TabDrag>,
) -> (paint: Result<Option<TabBarPaint>, ()>)
    requires
        area.x + area.width <= u16::MAX,
        rects_in_range(view.tab_hit_areas@),
    ensures
        match paint {
            Ok(Some(p)) => marker_bar_paint(
                area,
                active,
                workspaces@,
                view_model(*view),
                mouse_capture,
                drag,
            ) == Some(paint_model(p)),
            Ok(None) => marker_bar_paint(
                area,
                active,
                workspaces@,
                view_model(*view),
                mouse_capture,
                drag,
            ) is None,
            Err(()) => active is Some && active->0 < workspaces@.len() && !active_name_fits(
                workspaces@[active->0 as int],
            ),
        },
{
    match active {
        Some(a) => {
            if a < workspaces.len() && !active_name_fits_exec(&workspaces[a]) {
                return Err(());
            }
        },
        None => {},
    }
    Ok(render_tab_bar(area, active, workspaces, view, mouse_capture, drag))
}

/// What the minimal strip paints, per [`minimal_paint`].
pub fn render(
    area: Rect,
    active: Option<usize>,
    workspaces: &[WorkspaceTabs],
    view: &TabBarView,
    show_title: bool,
    drag: Option<TabDrag>,
) -> (paint: Option<TabBarPaint>)
    requires
        area.x + area.width <= u16::MAX,
        rects_in_range(view.tab_hit_areas@),
        view.tab_hit_areas@.len() < usize::MAX,
    ensures
        match paint {
            Some(p) => minimal_paint(area, active, workspaces@, view_model(*view), show_title, drag)
                == Some(paint_model(p)),
            None => minimal_paint(
                area,
                active,
                workspaces@,
                view_model(*view),
                show_title,
                drag,
            ) is None,
        },
{
    if area.width == 0 || area.height == 0 {
        return None;
    }
    let a = match active {
        Some(a) => a,
        None => {
            return None;
        },
    };
    if a >= workspaces.len() {
        return None;
    }
    let ws = &workspaces[a];
    let markers = marker_paint_list(ws, view.tab_hit_areas.as_slice(), show_title);
    let drop_indicator_x = indicator_for(area, a, view.tab_hit_areas.as_slice(), drag);
    let paint = TabBarPaint { markers, drop_indicator_x, new_tab: None, name: None };
    assert(paint_model(paint).markers == marker_paints(*ws, view.tab_hit_areas@, show_title));
    Some(paint)
}


/// The centring choice as it stands after looking at the offsets below
/// `s`: `found` once some offset shows the active slot, `best` the closest
/// such offset (the largest among equally close ones), else `active`.
spec fn centering_prefix_ok(
    widths: Seq<u16>,
    area: Rect,
    active: int,
    s: int,
    found: bool,
    best: int,
) -> bool {
    &&& !found ==> best == active && forall|t: int|
        0 <= t < s ==> (#[trigger] centering_distance_at(widths, area, active, t)) is None
    &&& found ==> 0 <= best < s && centering_distance_at(widths, area, active, best) is Some
    &&& found ==> forall|t: int|
        0 <= t < s && (#[trigger] centering_distance_at(widths, area, active, t)) is Some
            ==> centering_distance_at(widths, area, active, best)->0 <= centering_distance_at(
            widths,
            area,
            active,
            t,
        )->0
    &&& found ==> forall|t: int|
        best < t < s && (#[trigger] centering_distance_at(widths, area, active, t)) is Some
            ==> centering_distance_at(widths, area, active, best)->0 < centering_distance_at(
            widths,
            area,
            active,
            t,
        )->0
}

proof fn lemma_centering_prefix(widths: Seq<u16>, area: Rect, active: int, s: int) -> (choice: (
    bool,
    int,
))
    requires
        0 <= s <= active + 1,
    ensures
        centering_prefix_ok(widths, area, active, s, choice.0, choice.1),
    decreases s,
{
    if s == 0 {
        (false, active)
    } else {
        let (found, best) = lemma_centering_prefix(widths, area, active, s - 1);
        let d = centering_distance_at(widths, area, active, s - 1);
        if d is Some && (!found || d->0 <= centering_distance_at(widths, area, active, best)->0) {
            (true, s - 1)
        } else {
            (found, best)
        }
    }
}

/// Some offset centres the active slot: the centring choice is well defined.
proof fn lemma_centered_exists(widths: Seq<u16>, area: Rect, active: int)
    requires
        0 <= active,
    ensures
        centered_scroll_ok(widths, area, active, centered_slot_scroll_spec(widths, area, active)),
{
    let (found, best) = lemma_centering_prefix(widths, area, active, active + 1);
    assert(centered_scroll_ok(widths, area, active, best));
}

/// Some offset is the smallest that shows the last slot, searching from `s`.
proof fn lemma_first_showing_last(widths: Seq<u16>, area: Rect, s: int) -> (r: int)
    requires
        0 <= s < widths.len(),
        shows_last(widths, area, widths.len() - 1),
        forall|t: int| 0 <= t < s ==> !#[trigger] shows_last(widths, area, t),
    ensures
        max_scroll_ok(widths, area, r),
    decreases widths.len() - s,
{
    if shows_last(widths, area, s) {
        s
    } else {
        lemma_first_showing_last(widths, area, s + 1)
    }
}

/// Once a slot is shown, so is every slot between the strip's start and it.
proof fn lemma_slot_rects_shown_before(
    widths: Seq<u16>,
    i: int,
    x: int,
    right: int,
    y: u16,
    j: int,
    k: int,
)
    requires
        0 <= i <= j <= k < widths.len(),
        0 <= x,
        right <= u16::MAX,
        slot_rects(widths, i, x, right, y)[k - i].width > 0,
    ensures
        slot_rects(widths, i, x, right, y)[j - i].width > 0,
    decreases widths.len() - i,
{
    lemma_slot_rects_len(widths, i, x, right, y);
    if x >= right {
        assert(slot_rects(widths, i, x, right, y)[k - i] == no_rect());
    } else if j == i {
        let w = max(min(widths[i] as int, right - x), 1);
        assert(slot_rects(widths, i, x, right, y)[0] == rect_new(x as u16, y, w as u16, 1));
    } else {
        let next = sat_add(x, widths[i] as int);
        lemma_slot_rects_len(widths, i + 1, next, right, y);
        let w = max(min(widths[i] as int, right - x), 1);
        let head = seq![rect_new(x as u16, y, w as u16, 1)];
        let rest = slot_rects(widths, i + 1, next, right, y);
        assert(slot_rects(widths, i, x, right, y) == head + rest);
        assert((head + rest)[k - i] == rest[k - (i + 1)]);
        assert((head + rest)[j - i] == rest[j - (i + 1)]);
        lemma_slot_rects_shown_before(widths, i + 1, next, right, y, j, k);
    }
}

/// The slot a strip starts with is shown whenever the area is not empty.
proof fn lemma_first_slot_shown(widths: Seq<u16>, area: Rect, s: int)
    requires
        0 <= s < widths.len(),
        area.x + area.width <= u16::MAX,
        area.width > 0,
        area.height > 0,
    ensures
        slot_layout(widths, area, s).len() == widths.len(),
        slot_layout(widths, area, s)[s].width > 0,
{
    let right = area.x + area.width;
    let next = sat_add(area.x as int, widths[s] as int);
    lemma_slot_rects_len(widths, s, area.x as int, right, area.y);
    lemma_slot_rects_len(widths, s + 1, next, right, area.y);
    let rest = slot_rects(widths, s, area.x as int, right, area.y);
    assert(slot_layout(widths, area, s)[s] == rest[0]);
}

/// Scrolled to centre the active slot and clamped to the largest useful
/// offset, a strip in a non-empty area shows the active slot.
proof fn lemma_followed_scroll_shows_active(widths: Seq<u16>, area: Rect, active: int)
    requires
        0 <= active < widths.len(),
        area.x + area.width <= u16::MAX,
        area.width > 0,
        area.height > 0,
    ensures
        slot_layout(
            widths,
            area,
            min(centered_slot_scroll_spec(widths, area, active), max_slot_scroll_spec(widths, area)),
        ).len() == widths.len(),
        slot_layout(
            widths,
            area,
            min(centered_slot_scroll_spec(widths, area, active), max_slot_scroll_spec(widths, area)),
        )[active].width > 0,
{
    let n = widths.len() as int;
    let right = area.x + area.width;
    let r = centered_slot_scroll_spec(widths, area, active);
    let m = max_slot_scroll_spec(widths, area);
    lemma_centered_exists(widths, area, active);
    lemma_first_slot_shown(widths, area, active);
    assert(centering_distance_at(widths, area, active, active) is Some);
    assert(0 <= r <= active && centering_distance_at(widths, area, active, r) is Some);
    lemma_first_slot_shown(widths, area, n - 1);
    assert(shows_last(widths, area, n - 1));
    let first = lemma_first_showing_last(widths, area, 0);
    lemma_max_unique(widths, area, first);
    assert(0 <= m < n && shows_last(widths, area, m));
    if r > m {
        lemma_slot_rects_len(widths, m, area.x as int, right, area.y);
        let rects = slot_rects(widths, m, area.x as int, right, area.y);
        assert(slot_layout(widths, area, m) == no_rects(m) + rects);
        assert(slot_layout(widths, area, m)[n - 1] == rects[n - 1 - m]);
        assert(slot_layout(widths, area, m)[active] == rects[active - m]);
        lemma_slot_rects_shown_before(widths, m, area.x as int, right, area.y, active, n - 1);
    } else {
        lemma_slot_layout_in_range(widths, area, r);
    }
}

/// While the tabs overflow the bar, following the active tab keeps its
/// marker on screen: the minimal strip scrolled to centre the active tab,
/// and clamped to the largest useful offset, shows the active slot.
pub proof fn law_followed_active_minimal_slot_is_shown(
    ws: WorkspaceTabs,
    area: Rect,
    current: int,
    align: TabBarAlign,
    show_title: bool,
)
    requires
        area.x + area.width <= u16::MAX,
        area.y < u16::MAX,
        area.width > 0,
        area.height > 0,
        ws.active_tab < ws.tabs@.len(),
        total_width_spec(ws, show_title) > area.width,
    ensures
        minimal_view(ws, area, current, true, align, show_title).rects.len() == ws.tabs@.len(),
        minimal_view(ws, area, current, true, align, show_title).rects[ws.active_tab as int].width
            > 0,
{
    let widths = minimal_slot_widths(ws, show_title);
    let m = rect_new(area.x, area.y, area.width, area.height);
    assert(m.width == area.width && m.height > 0);
    lemma_followed_scroll_shows_active(widths, m, ws.active_tab as int);
}

/// Following the active tab keeps its marker on screen in the marker bar
/// too, whenever the bar leaves the markers any room.
pub proof fn law_followed_active_marker_is_shown(
    ws: WorkspaceTabs,
    area: Rect,
    current: int,
    mouse: bool,
)
    requires
        area.x + area.width <= u16::MAX,
        area.y < u16::MAX,
        area.height > 0,
        ws.active_tab < ws.tabs@.len(),
        markers_area_spec(ws, area, mouse).width > 0,
    ensures
        marker_bar_view(ws, area, current, true, mouse).rects.len() == ws.tabs@.len(),
        marker_bar_view(ws, area, current, true, mouse).rects[ws.active_tab as int].width > 0,
{
    let m = markers_area_spec(ws, area, mouse);
    let widths = marker_widths(ws.tabs@.len() as int);
    assert(area.width > 0);
    assert(m.x + m.width <= u16::MAX);
    lemma_followed_scroll_shows_active(widths, m, ws.active_tab as int);
}


/// Without following the active tab, the marker bar keeps where the user
/// scrolled to: an offset within reach (at most the largest useful one for
/// the markers' area) is kept as it is, and a larger one is pulled back to
/// exactly the largest useful one.
pub proof fn law_unfollowed_marker_bar_keeps_the_current_scroll(
    ws: WorkspaceTabs,
    area: Rect,
    current: int,
    mouse: bool,
)
    requires
        area.width > 0,
        area.height > 0,
    ensures
        ({
            let max_s = max_slot_scroll_spec(
                marker_widths(ws.tabs@.len() as int),
                markers_area_spec(ws, area, mouse),
            );
            let view = marker_bar_view(ws, area, current, false, mouse);
            &&& current <= max_s ==> view.scroll == current
            &&& current > max_s ==> view.scroll == max_s
        }),
{
}

/// Without following the active tab, an overflowing minimal strip keeps
/// the current scroll when it is within reach and is otherwise pulled back
/// to exactly the largest useful one; a strip that fits is not scrolled.
pub proof fn law_unfollowed_minimal_strip_keeps_the_current_scroll(
    ws: WorkspaceTabs,
    area: Rect,
    current: int,
    align: TabBarAlign,
    show_title: bool,
)
    ensures
        ({
            let widths = minimal_slot_widths(ws, show_title);
            let m = rect_new(area.x, area.y, area.width, area.height);
            let max_s = max_slot_scroll_spec(widths, m);
            let view = minimal_view(ws, area, current, false, align, show_title);
            &&& total_width_spec(ws, show_title) > area.width && current <= max_s ==> view.scroll == current
            &&& total_width_spec(ws, show_title) > area.width && current > max_s ==> view.scroll == max_s
            &&& total_width_spec(ws, show_title) <= area.width ==> view.scroll == 0
        }),
{
}

} // verus!
