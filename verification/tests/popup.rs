use herdr::popup::{
    popup_copy_target, popup_not_found, popup_scroll_reply, requested_offset, PopupPane,
    PopupScrollReply, ScrollMetrics,
};

fn popup() -> Option<PopupPane> {
    Some(PopupPane { pane_id: 7, terminal_id: "term_9".into() })
}

#[test]
fn popup_requests_reach_the_live_popup_by_exact_id() {
    let live = vec!["term_1".to_owned(), "term_9".to_owned()];
    assert_eq!(popup_copy_target(&popup(), "term_9", &live), Some(7));
    // A replaced popup: the id names a terminal that is no longer the popup.
    assert_eq!(popup_copy_target(&popup(), "term_1", &live), None);
    // No popup open.
    assert_eq!(popup_copy_target(&None, "term_9", &live), None);
    // The popup's terminal has no running terminal.
    assert_eq!(popup_copy_target(&popup(), "term_9", &["term_1".to_owned()]), None);
}

#[test]
fn missing_popups_answer_popup_not_found() {
    let reply = popup_not_found("req_1".into(), "term_3");
    assert_eq!(reply.id, "req_1");
    assert_eq!(reply.code, "popup_not_found");
    assert_eq!(reply.message, "popup terminal term_3 not found");
}

#[test]
fn scroll_replies_report_metrics_or_unavailability() {
    let metrics = ScrollMetrics { offset_from_bottom: 3, max_offset_from_bottom: 8, viewport_rows: 4 };
    match popup_scroll_reply("req_2".into(), "term_9".into(), Some(metrics)) {
        PopupScrollReply::Scrolled { id, terminal_id, scroll } => {
            assert_eq!(id, "req_2");
            assert_eq!(terminal_id, "term_9");
            assert_eq!(scroll, metrics);
        }
        other => panic!("unexpected {other:?}"),
    }
    match popup_scroll_reply("req_3".into(), "term_9".into(), None) {
        PopupScrollReply::Failed(error) => {
            assert_eq!(error.code, "popup_scroll_unavailable");
            assert_eq!(error.message, "popup scroll metrics are unavailable");
        }
        other => panic!("unexpected {other:?}"),
    }
    assert_eq!(requested_offset(42), 42);
}
