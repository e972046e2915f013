use caesar::layout::{pane_frame, pane_inner, screen_layout, Area, PaneFrame};

#[test]
fn screen_splits_into_two_panes_and_a_status_line() {
    let l = screen_layout(Area { x: 0, y: 0, width: 80, height: 24 });
    assert_eq!(l.status, Area { x: 0, y: 23, width: 80, height: 1 });
    assert_eq!(l.left, Area { x: 0, y: 0, width: 40, height: 23 });
    assert_eq!(l.right, Area { x: 40, y: 0, width: 40, height: 23 });
}

#[test]
fn pane_inner_is_inside_the_border() {
    assert_eq!(pane_inner(Area { x: 0, y: 0, width: 40, height: 23 }), Area { x: 1, y: 1, width: 38, height: 21 });
}

#[test]
fn pane_inner_at_the_edges() {
    assert_eq!(pane_inner(Area { x: 65534, y: 0, width: 10, height: 1 }), Area { x: 65535, y: 1, width: 0, height: 0 });
    assert_eq!(pane_inner(Area { x: 3, y: 4, width: 0, height: 2 }), Area { x: 3, y: 5, width: 0, height: 0 });
}

#[test]
fn only_the_active_pane_is_framed_as_active() {
    assert_eq!(pane_frame(0, 0), PaneFrame::Active);
    assert_eq!(pane_frame(1, 0), PaneFrame::Inactive);
}
