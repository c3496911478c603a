//! Addressing the popup terminal from API requests.
//!
//! The popup pane belongs to no workspace, so requests name its terminal by
//! id. The id must match the live popup exactly: a request aimed at a
//! popup that has since been replaced fails rather than acting on the new
//! one.

use vstd::prelude::*;

verus! {

/// The open popup: its pane and the terminal it shows.
#[derive(Debug, Clone, PartialEq, Eq)]
pub struct PopupPane {
    pub pane_id: u64,
    pub terminal_id: String,
}

/// An error answer to an API request.
#[derive(Debug, Clone, PartialEq, Eq)]
pub struct ErrorReply {
    pub id: String,
    pub code: String,
    pub message: String,
}

pub open spec fn not_found_message(terminal_id: Seq<char>) -> Seq<char> {
    "popup terminal "@ + terminal_id + " not found"@
}

/// The `popup_not_found` error for a request `id` naming `terminal_id`.
pub fn popup_not_found(id: String, terminal_id: &str) -> (reply: ErrorReply)
    ensures
        reply.id@ == id@,
        reply.code@ == "popup_not_found"@,
        reply.message@ == not_found_message(terminal_id@),
{
    let mut message = "popup terminal ".to_owned();
    message.append(terminal_id);
    message.append(" not found");
    ErrorReply { id, code: "popup_not_found".to_owned(), message }
}

/// Some live runtime has terminal id `terminal_id`.
pub open spec fn is_live(live: Seq<String>, terminal_id: Seq<char>) -> bool {
    exists|i: int| 0 <= i < live.len() && (#[trigger] live[i])@ == terminal_id
}

/// The popup pane a request naming `terminal_id` reaches: the open popup's
/// pane when its terminal has exactly that id and a live runtime.
pub open spec fn copy_target_spec(popup: Option<PopupPane>, terminal_id: Seq<char>, live: Seq<String>) -> Option<u64> {
    match popup {
        Some(p) => if p.terminal_id@ == terminal_id && is_live(live, terminal_id) {
            Some(p.pane_id)
        } else {
            None
        },
        None => None,
    }
}

/// The popup pane a request reaches, per [`copy_target_spec`];
/// `live_runtimes` holds the terminal ids that have a running terminal.
pub fn popup_copy_target(popup: &Option<PopupPane>, terminal_id: &str, live_runtimes: &[String]) -> (pane: Option<u64>)
    ensures
        pane == copy_target_spec(*popup, terminal_id@, live_runtimes@),
{
    let target = match popup {
        Some(p) => p,
        None => {
            return None;
        },
    };
    if !str_equal(target.terminal_id.as_str(), terminal_id) {
        return None;
    }
    let n = live_runtimes.len();
    let mut i: usize = 0;
    while i < n
        invariant
            n == live_runtimes@.len(),
            i <= n,
            forall|j: int| 0 <= j < i ==> (#[trigger] live_runtimes@[j])@ != terminal_id@,
            *popup == Some(*target),
            target.terminal_id@ == terminal_id@,
        decreases n - i,
    {
        if str_equal(live_runtimes[i].as_str(), terminal_id) {
            assert(live_runtimes@[i as int]@ == terminal_id@);
            assert(is_live(live_runtimes@, terminal_id@));
            return Some(target.pane_id);
        }
        i = i + 1;
    }
    None
}

/// Whether two strings hold the same characters.
pub(crate) fn str_equal(a: &str, b: &str) -> (r: bool)
    ensures
        r == (a@ == b@),
{
    let n = a.unicode_len();
    if n != b.unicode_len() {
        return false;
    }
    let mut i: usize = 0;
    while i < n
        invariant
            n == a@.len(),
            n == b@.len(),
            i <= n,
            forall|j: int| 0 <= j < i ==> a@[j] == b@[j],
        decreases n - i,
    {
        if a.get_char(i) != b.get_char(i) {
            return false;
        }
        i = i + 1;
    }
    assert(a@ =~= b@);
    true
}

/// Scroll state of a terminal, in rows.
#[derive(Debug, Clone, Copy, PartialEq, Eq, Structural)]
pub struct ScrollMetrics {
    pub offset_from_bottom: u64,
    pub max_offset_from_bottom: u64,
    pub viewport_rows: u64,
}

/// The answer to a popup scroll request.
#[derive(Debug, Clone, PartialEq, Eq)]
pub enum PopupScrollReply {
    /// The popup scrolled; its terminal and the scroll state afterwards.
    Scrolled { id: String, terminal_id: String, scroll: ScrollMetrics },
    /// The request failed.
    Failed(ErrorReply),
}

/// The scrollback offset a scroll request asks for, as the terminal takes
/// it: the requested offset, or the largest one when it does not fit.
pub open spec fn requested_offset_spec(offset_from_bottom: u64) -> usize {
    if offset_from_bottom <= usize::MAX {
        offset_from_bottom as usize
    } else {
        usize::MAX
    }
}

/// The scrollback offset a scroll request asks for, per
/// [`requested_offset_spec`].
pub fn requested_offset(offset_from_bottom: u64) -> (offset: usize)
    ensures
        offset == requested_offset_spec(offset_from_bottom),
{
    if offset_from_bottom <= usize::MAX as u64 {
        offset_from_bottom as usize
    } else {
        usize::MAX
    }
}

/// The answer to a popup scroll request once the popup has scrolled: its
/// scroll state, or `popup_scroll_unavailable` when the terminal reports
/// none.
pub fn popup_scroll_reply(id: String, terminal_id: String, metrics: Option<ScrollMetrics>) -> (reply:
    PopupScrollReply)
    ensures
        match metrics {
            Some(m) => reply matches PopupScrollReply::Scrolled { id: rid, terminal_id: tid, scroll }
                && rid@ == id@ && tid@ == terminal_id@ && scroll == m,
            None => reply matches PopupScrollReply::Failed(e) && e.id@ == id@ && e.code@
                == "popup_scroll_unavailable"@ && e.message@ == "popup scroll metrics are unavailable"@,
        },
{
    match metrics {
        Some(scroll) => PopupScrollReply::Scrolled { id, terminal_id, scroll },
        None => PopupScrollReply::Failed(
            ErrorReply {
                id,
                code: "popup_scroll_unavailable".to_owned(),
                message: "popup scroll metrics are unavailable".to_owned(),
            },
        ),
    }
}

} // verus!
