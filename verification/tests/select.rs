use wlrix_screenshot::geometry::Rect;
use wlrix_screenshot::select::{
    grab_radius, Grip, Handle, Point, Selection, DRAG_THRESHOLD, HANDLE_GRAB, NUDGE_FAST,
};

fn desktop() -> Rect {
    Rect::new(0, 0, 200, 100)
}

fn dragged(from: Point, to: Point) -> Selection {
    let mut selection = Selection::new(desktop());
    selection.press(from);
    selection.motion(to);
    selection.release();
    selection
}

#[test]
fn nothing_is_selected_to_begin_with() {
    assert_eq!(Selection::new(desktop()).rect(), None);
}

#[test]
fn a_band_selects_what_it_covers() {
    let selection = dragged(Point::new(10, 20), Point::new(60, 50));
    assert_eq!(selection.rect(), Some(Rect::new(10, 20, 50, 30)));
}

/// Dragging up and to the left is as valid as down and to the right, and nothing above
/// this ever sees a negative width.
#[test]
fn a_band_dragged_backwards_is_the_same_rectangle() {
    let forward = dragged(Point::new(10, 20), Point::new(60, 50));
    let backward = dragged(Point::new(60, 50), Point::new(10, 20));
    assert_eq!(forward.rect(), backward.rect());
}

/// The whole point of the threshold: a click with a shaky hand must not replace a good
/// selection with a two-pixel one.
#[test]
fn a_click_that_barely_moves_leaves_the_selection_alone() {
    let mut selection = Selection::preset(desktop(), Rect::new(10, 10, 50, 50));
    // Press bare desktop, twitch by less than the threshold, release.
    selection.press(Point::new(150, 90));
    selection.motion(Point::new(151, 91));
    selection.release();
    assert_eq!(selection.rect(), Some(Rect::new(10, 10, 50, 50)));
}

#[test]
fn a_band_past_the_threshold_replaces_the_selection() {
    let mut selection = Selection::preset(desktop(), Rect::new(10, 10, 50, 50));
    selection.press(Point::new(100, 10));
    selection.motion(Point::new(140, 40));
    selection.release();
    assert_eq!(selection.rect(), Some(Rect::new(100, 10, 40, 30)));
}

#[test]
fn a_band_is_clamped_to_the_desktop() {
    let selection = dragged(Point::new(-50, -50), Point::new(500, 500));
    assert_eq!(selection.rect(), Some(desktop()));
}

#[test]
fn the_grip_says_what_a_press_would_do() {
    let selection = Selection::preset(desktop(), Rect::new(40, 40, 40, 40));
    assert_eq!(
        selection.grip_at(Point::new(40, 40)),
        Grip::Handle(Handle::TopLeft)
    );
    assert_eq!(selection.grip_at(Point::new(60, 60)), Grip::Inside);
    assert_eq!(selection.grip_at(Point::new(150, 90)), Grip::Outside);
    // Nothing selected: everything is bare desktop.
    assert_eq!(
        Selection::new(desktop()).grip_at(Point::new(60, 60)),
        Grip::Outside
    );
}

/// A handle sits on the last pixel inside the rectangle, not one past it.
#[test]
fn the_handles_sit_on_the_selection() {
    let rect = Rect::new(10, 20, 40, 30);
    assert_eq!(Handle::TopLeft.centre(rect), Point::new(10, 20));
    assert_eq!(Handle::BottomRight.centre(rect), Point::new(49, 49));
    assert_eq!(Handle::Right.centre(rect), Point::new(49, 35));
}

#[test]
fn a_handle_resizes_from_the_opposite_edge() {
    let mut selection = Selection::preset(desktop(), Rect::new(40, 40, 40, 40));
    selection.press(Point::new(79, 79)); // bottom-right
    selection.motion(Point::new(99, 89));
    selection.release();
    // The top-left corner has not moved.
    assert_eq!(selection.rect(), Some(Rect::new(40, 40, 60, 50)));
}

#[test]
fn an_edge_handle_moves_only_its_own_edge() {
    let mut selection = Selection::preset(desktop(), Rect::new(40, 40, 40, 40));
    selection.press(Point::new(40, 60)); // left edge
    selection.motion(Point::new(20, 95)); // pulled left and, pointlessly, down
    selection.release();
    assert_eq!(selection.rect(), Some(Rect::new(20, 40, 60, 40)));
}

/// Dragging a handle past the opposite edge flips the rectangle rather than collapsing it,
/// which is what every other selection in the world does.
#[test]
fn a_handle_dragged_past_the_far_edge_flips() {
    let mut selection = Selection::preset(desktop(), Rect::new(40, 40, 40, 40));
    selection.press(Point::new(79, 79));
    selection.motion(Point::new(10, 10));
    selection.release();
    // Pixels 10 through 40 inclusive on both axes: the anchor corner stays selected, which
    // is what makes the flip continuous rather than a jump.
    assert_eq!(selection.rect(), Some(Rect::new(10, 10, 31, 31)));
}

#[test]
fn dragging_inside_moves_the_whole_selection() {
    let mut selection = Selection::preset(desktop(), Rect::new(40, 40, 40, 40));
    // The middle, not near a corner -- (50, 50) is inside the top-left handle's grab area
    // on a selection this small, and would resize.
    selection.press(Point::new(60, 60));
    selection.motion(Point::new(80, 70));
    selection.release();
    assert_eq!(selection.rect(), Some(Rect::new(60, 50, 40, 40)));
}

/// A move must not also resize. Clipping against the edge would shrink the selection, and
/// once shrunk there is no way to get the size back except by starting over.
#[test]
fn a_move_against_the_edge_slides_rather_than_shrinking() {
    let mut selection = Selection::preset(desktop(), Rect::new(40, 40, 40, 40));
    selection.press(Point::new(60, 60));
    selection.motion(Point::new(500, 500));
    selection.release();
    let rect = selection.rect().unwrap();
    assert_eq!((rect.w, rect.h), (40, 40));
    assert_eq!(rect, Rect::new(160, 60, 40, 40));
}

#[test]
fn arrows_nudge_and_shift_nudges_further() {
    let mut selection = Selection::preset(desktop(), Rect::new(40, 40, 40, 40));
    assert!(selection.nudge(1, 0, false));
    assert_eq!(selection.rect(), Some(Rect::new(41, 40, 40, 40)));
    assert!(selection.nudge(NUDGE_FAST, 0, false));
    assert_eq!(selection.rect(), Some(Rect::new(51, 40, 40, 40)));
}

#[test]
fn a_nudged_resize_grows_from_the_bottom_right() {
    let mut selection = Selection::preset(desktop(), Rect::new(40, 40, 40, 40));
    assert!(selection.nudge(5, -5, true));
    assert_eq!(selection.rect(), Some(Rect::new(40, 40, 45, 35)));
}

#[test]
fn nudging_nothing_does_nothing() {
    let mut selection = Selection::new(desktop());
    assert!(!selection.nudge(1, 0, false));
    assert_eq!(selection.rect(), None);
}

/// `--select` comes from the compositor describing a window, which can hang off the edge
/// of its monitor. A rectangle outside the desktop would crop to black.
#[test]
fn a_preset_is_clamped_to_the_desktop() {
    let selection = Selection::preset(desktop(), Rect::new(-20, -20, 400, 400));
    assert_eq!(selection.rect(), Some(desktop()));

    // Entirely off the desktop selects nothing rather than an empty rectangle.
    let gone = Selection::preset(desktop(), Rect::new(1000, 1000, 40, 40));
    assert_eq!(gone.rect(), None);
}

#[test]
fn select_all_takes_the_whole_desktop() {
    let mut selection = Selection::new(desktop());
    assert!(selection.select_all());
    assert_eq!(selection.rect(), Some(desktop()));
    // Already everything: nothing changed, so nothing to redraw.
    assert!(!selection.select_all());
}

/// A corner and an edge handle overlap on a thin selection. The corner has to win, or one
/// of the two axes cannot be resized at all.
#[test]
fn a_corner_beats_an_edge_where_they_overlap() {
    let selection = Selection::preset(desktop(), Rect::new(40, 40, 6, 6));
    assert!(matches!(
        selection.grip_at(Point::new(43, 40)),
        Grip::Handle(Handle::TopLeft | Handle::TopRight)
    ));
}

/// A drag reports a change only when what is selected is another.
#[test]
fn motion_reports_changes_only() {
    let mut selection = Selection::new(desktop());
    assert!(!selection.motion(Point::new(5, 5)));
    assert!(!selection.press(Point::new(10, 20)));
    assert!(selection.dragging());
    assert!(!selection.motion(Point::new(12, 22)));
    assert!(selection.motion(Point::new(60, 50)));
    assert!(!selection.motion(Point::new(60, 50)));
    assert!(!selection.release());
    assert!(!selection.dragging());
    assert_eq!(selection.bounds(), desktop());
}

/// A band one pixel short of the threshold is no band; one that reaches it is.
#[test]
fn the_threshold_is_exact() {
    assert_eq!(dragged(Point::new(10, 10), Point::new(12, 12)).rect(), None);
    assert_eq!(
        dragged(Point::new(10, 10), Point::new(13, 13)).rect(),
        Some(Rect::new(10, 10, DRAG_THRESHOLD, DRAG_THRESHOLD))
    );
    // Far along one axis only, a band covers nothing.
    assert_eq!(dragged(Point::new(10, 10), Point::new(60, 10)).rect(), None);
}

/// Throwing a selection away reports whether there was one.
#[test]
fn clearing_throws_the_selection_away() {
    let mut selection = Selection::preset(desktop(), Rect::new(40, 40, 40, 40));
    selection.press(Point::new(60, 60));
    assert!(selection.clear());
    assert_eq!(selection.rect(), None);
    assert!(!selection.dragging());
    assert!(!selection.clear());
}

/// Whatever is done to it, what is selected stays on the desktop and is never empty.
#[test]
fn a_selection_stays_on_the_desktop() {
    let corners = [
        Point::new(i32::MIN, i32::MIN),
        Point::new(i32::MAX, i32::MIN),
        Point::new(i32::MIN, i32::MAX),
        Point::new(i32::MAX, i32::MAX),
        Point::new(0, 0),
        Point::new(199, 99),
        Point::new(60, 60),
    ];
    for from in corners {
        for to in corners {
            let mut selection = Selection::preset(desktop(), Rect::new(40, 40, 40, 40));
            selection.press(from);
            selection.motion(to);
            selection.nudge(-7, 3, true);
            selection.nudge(i32::MAX, i32::MIN, false);
            selection.release();
            if let Some(rect) = selection.rect() {
                assert!(rect.w > 0 && rect.h > 0);
                assert!(desktop().contains(rect.x, rect.y));
                assert!(desktop().contains(rect.right() - 1, rect.bottom() - 1));
            }
        }
    }
}

/// A selection of seven pixels either way can be grabbed by each handle and moved, one of four by
/// each corner, and one of any size can be moved and resized.
#[test]
fn every_gesture_is_reachable() {
    let rect = Rect::new(40, 40, 7, 7);
    let selection = Selection::preset(desktop(), rect);
    for handle in Handle::ALL {
        assert_eq!(selection.grip_at(handle.centre(rect)), Grip::Handle(handle));
    }
    assert_eq!(selection.grip_at(Point::new(43, 43)), Grip::Inside);

    let rect = Rect::new(40, 40, 4, 4);
    let selection = Selection::preset(desktop(), rect);
    for handle in [Handle::TopLeft, Handle::TopRight, Handle::BottomLeft, Handle::BottomRight] {
        assert_eq!(selection.grip_at(handle.centre(rect)), Grip::Handle(handle));
    }

    for (w, h) in [(1, 1), (1, 2), (2, 1), (2, 2), (3, 5), (6, 6), (1, 90)] {
        let selection = Selection::preset(desktop(), Rect::new(40, 5, w, h));
        let middle = Point::new(40 + w / 2, 5 + h / 2);
        assert_eq!(selection.grip_at(middle), Grip::Inside);
        let corner = Point::new(if (w, h) == (1, 1) { 41 } else { 40 }, 5);
        assert_eq!(selection.grip_at(corner), Grip::Handle(Handle::TopLeft));
    }
}

/// A selection no larger than its own handles is moved by its middle, and resized by the pixels
/// around that.
#[test]
fn a_small_selection_can_be_moved() {
    let mut selection = Selection::preset(desktop(), Rect::new(40, 40, 6, 6));
    assert_eq!(selection.grip_at(Point::new(43, 43)), Grip::Inside);
    assert_eq!(selection.grip_at(Point::new(43, 40)), Grip::Handle(Handle::TopRight));
    assert_eq!(selection.grip_at(Point::new(42, 43)), Grip::Handle(Handle::BottomLeft));
    selection.press(Point::new(43, 43));
    assert!(selection.motion(Point::new(53, 63)));
    selection.release();
    assert_eq!(selection.rect(), Some(Rect::new(50, 60, 6, 6)));
}

/// The grab radius shrinks with the selection, between two bounds.
#[test]
fn the_grab_radius_follows_the_size() {
    assert_eq!(grab_radius(Rect::new(0, 0, 600, 600)), HANDLE_GRAB);
    assert_eq!(grab_radius(Rect::new(0, 0, 600, 40)), 6);
    assert_eq!(grab_radius(Rect::new(0, 0, 1, 1)), 2);
    assert_eq!(grab_radius(Rect::new(0, 0, -40, 40)), 2);
}

/// Each handle moves the edges it is named by.
#[test]
fn handles_move_the_edges_they_are_named_by() {
    assert_eq!(Handle::TopLeft.edges(), (true, false, true, false));
    assert_eq!(Handle::Top.edges(), (false, false, true, false));
    assert_eq!(Handle::TopRight.edges(), (false, true, true, false));
    assert_eq!(Handle::Left.edges(), (true, false, false, false));
    assert_eq!(Handle::Right.edges(), (false, true, false, false));
    assert_eq!(Handle::BottomLeft.edges(), (true, false, false, true));
    assert_eq!(Handle::Bottom.edges(), (false, false, false, true));
    assert_eq!(Handle::BottomRight.edges(), (false, true, false, true));
}

/// A selection as big as the desktop has nowhere to slide to.
#[test]
fn a_nudge_with_no_room_changes_nothing() {
    let mut selection = Selection::preset(desktop(), desktop());
    assert!(!selection.nudge(5, 5, false));
    assert_eq!(selection.rect(), Some(desktop()));
}

/// A nudged resize past nothing selects nothing, and one past the far side flips.
#[test]
fn a_nudged_resize_can_empty_and_flip() {
    let mut selection = Selection::preset(desktop(), Rect::new(40, 40, 10, 10));
    assert!(selection.nudge(-20, 0, true));
    assert_eq!(selection.rect(), Some(Rect::new(30, 40, 10, 10)));
    assert!(selection.nudge(-10, 0, true));
    assert_eq!(selection.rect(), None);
}

/// A rectangle's edges are exclusive.
#[test]
fn edges_are_exclusive() {
    let a = Rect::new(0, 0, 10, 10);
    assert!(a.contains(9, 9) && !a.contains(10, 9) && !a.contains(9, 10) && !a.contains(-1, 0));
    assert!(!Rect::new(5, 5, 0, 3).contains(5, 5));
    assert_eq!((a.left(), a.top(), a.right(), a.bottom()), (0, 0, 10, 10));
    assert!(!Rect::new(i32::MAX, 0, 1, 1).has_edges());
    assert!(Rect::new(i32::MIN, 0, 1, 1).has_edges());
}

/// A rectangle is clamped to the desktop as it is selected, and the selection says whether that
/// changed it.
#[test]
fn a_rectangle_is_clamped_as_it_is_selected() {
    let mut selection = Selection::new(desktop());
    assert!(selection.set(Rect::new(-10, 90, 30, 30)));
    assert_eq!(selection.rect(), Some(Rect::new(0, 90, 20, 10)));
    assert!(!selection.set(Rect::new(0, 90, 20, 10)));
    assert!(!selection.set(Rect::new(-50, 90, 70, 99)));
    assert!(selection.set(Rect::new(1, 2, 3, 4)));
    assert_eq!(selection.rect(), Some(Rect::new(1, 2, 3, 4)));
}

/// Whichever way it was dragged, a band has the corners it was dragged between.
#[test]
fn normalizing_keeps_the_corners() {
    let expected = Some(Rect::new(20, 30, 60, 40));
    for (from, to) in [
        ((20, 30), (80, 70)),
        ((80, 70), (20, 30)),
        ((80, 30), (20, 70)),
        ((20, 70), (80, 30)),
    ] {
        let selection = dragged(Point::new(from.0, from.1), Point::new(to.0, to.1));
        assert_eq!(selection.rect(), expected);
    }
}

/// A move past an edge ends at the edge, and keeps its size and what it did along the other axis.
#[test]
fn a_slide_is_as_short_as_can_be() {
    let mut selection = dragged(Point::new(20, 20), Point::new(80, 60));
    selection.press(Point::new(50, 40));
    selection.motion(Point::new(250, 45));
    assert_eq!(selection.rect(), Some(Rect::new(140, 25, 60, 40)));
    selection.motion(Point::new(-50, 140));
    assert_eq!(selection.rect(), Some(Rect::new(0, 60, 60, 40)));
}
