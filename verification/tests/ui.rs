use wlrix_screenshot::geometry::Rect;
use wlrix_screenshot::select::{Grip, Handle};
use wlrix_screenshot::shot::{Region, Shot};
use wlrix_screenshot::ui::paint::{Button, Metrics};
use wlrix_screenshot::ui::{
    cursor_for, pool_size, Choice, Cursor, Key, Modifiers, OutputInfo, Pane, PointerEvent,
    PointerKind, BTN_LEFT, KEY_DOWN, KEY_ESCAPE, KEY_KP_ENTER, KEY_KP_LEFT, KEY_LEFT, KEY_LOWER_A,
    KEY_LOWER_C, KEY_RETURN, KEY_RIGHT, KEY_UP, KEY_UPPER_A, KEY_UPPER_C,
};
use wlrix_screenshot::App;

fn metrics() -> Metrics {
    Metrics {
        save_w: 28,
        copy_w: 30,
        cancel_w: 44,
        readout_w: 80,
        readout_ascent: 11,
        prompt_w: 200,
        prompt_h: 19,
    }
}

fn output(name: &str, at: (i32, i32), size: (i32, i32)) -> Option<OutputInfo> {
    Some(OutputInfo {
        name: Some(name.to_string()),
        logical_position: Some(at),
        location: (-1, -1),
        logical_size: Some(size),
        scale_factor: 1,
    })
}

fn monitor(x: i32, y: i32, w: i32, h: i32) -> Region {
    Region { rect: Rect::new(x, y, w, h), pixels: Vec::new() }
}

/// Two monitors of 1000 by 600, side by side, with the overlay over both.
fn overlay(preset: Option<Rect>, can_copy: bool) -> App {
    let mut app = App::new(metrics(), can_copy, 140);
    app.set_outputs(vec![
        output("DP-1", (0, 0), (1000, 600)),
        output("DP-2", (1000, 0), (1000, 600)),
    ]);
    let shot = Shot { regions: vec![monitor(0, 0, 1000, 600), monitor(1000, 0, 1000, 600)] };
    assert!(app.can_start(&shot));
    assert_eq!(app.start(shot, preset), Ok(()));
    app
}

fn event(pane: usize, x: i32, y: i32, kind: PointerKind) -> PointerEvent {
    PointerEvent { pane: Some(pane), position: (x, y), kind }
}

fn press(pane: usize, x: i32, y: i32) -> PointerEvent {
    event(pane, x, y, PointerKind::Press(BTN_LEFT))
}

fn release(pane: usize, x: i32, y: i32) -> PointerEvent {
    event(pane, x, y, PointerKind::Release(BTN_LEFT))
}

fn motion(pane: usize, x: i32, y: i32) -> PointerEvent {
    event(pane, x, y, PointerKind::Motion)
}

/// The middle of a button, on the first pane.
fn middle(app: &App, wanted: Button) -> (i32, i32) {
    let bar = app.bar().expect("no bar");
    let (_, rect) = bar.buttons.iter().find(|(button, _)| *button == wanted).unwrap();
    (rect.x + rect.w / 2, rect.y + rect.h / 2)
}

const SELECTED: Rect = Rect { x: 100, y: 100, w: 400, h: 200 };

#[test]
fn there_is_a_pane_for_each_captured_monitor() {
    let app = overlay(None, true);
    assert_eq!(
        *app.panes(),
        vec![
            Pane { output: 0, origin: (0, 0), width: 1000, height: 600, configured: false },
            Pane { output: 1, origin: (1000, 0), width: 1000, height: 600, configured: false },
        ]
    );
    assert_eq!(pool_size(app.panes()), Some(2 * 1000 * 600 * 4));

    // A monitor that was asleep has no pane, and neither has one not described yet.
    let mut app = App::new(metrics(), true, 140);
    app.set_outputs(vec![None, output("DP-1", (0, 0), (9, 9)), output("DP-2", (9, 0), (9, 9))]);
    assert_eq!(app.start(Shot { regions: vec![monitor(9, 0, 5, 5)] }, None), Ok(()));
    assert_eq!(app.panes().len(), 1);
    assert_eq!(app.panes()[0].output, 2);
    assert_eq!((app.panes()[0].width, app.panes()[0].height), (5, 5));
}

#[test]
fn an_overlay_needs_a_monitor() {
    let mut app = App::new(metrics(), true, 140);
    app.set_outputs(vec![output("DP-1", (0, 0), (1000, 600))]);
    let shot = Shot { regions: vec![monitor(50, 0, 1000, 600)] };
    assert_eq!(app.start(shot, None), Err("no monitor to put the overlay on".to_string()));
}

#[test]
fn a_pool_is_never_nothing_and_never_more_than_can_be_counted() {
    let pane = |width, height| Pane { output: 0, origin: (0, 0), width, height, configured: false };
    assert_eq!(pool_size(&Vec::new()), Some(1));
    assert_eq!(pool_size(&vec![pane(0, 10)]), Some(1));
    assert_eq!(pool_size(&vec![pane(3, 2), pane(1, 1)]), Some(28));
    assert_eq!(pool_size(&vec![pane(-3, 2)]), None);
    let huge = pane(i32::MAX, i32::MAX);
    assert_eq!(pool_size(&vec![huge, huge]), None);
}

#[test]
fn monitors_are_found_by_name() {
    let mut app = App::new(metrics(), true, 140);
    let mut plain = output("HDMI", (0, 0), (1, 1)).unwrap();
    plain.logical_position = None;
    plain.location = (7, 8);
    let mut nameless = output("", (3, 3), (1, 1)).unwrap();
    nameless.name = None;
    app.set_outputs(vec![None, Some(nameless), Some(plain), output("HDMI", (5, 5), (1, 1))]);
    assert_eq!(app.output_count(), 4);
    assert_eq!(app.output_name(0), None);
    assert_eq!(app.output_name(1), None);
    assert_eq!(app.output_name(2), Some("HDMI".to_string()));
    assert_eq!(app.output_name(9), None);
    assert_eq!(app.output_origin("HDMI"), Some((7, 8)));
    assert_eq!(app.output_origin("nope"), None);
}

#[test]
fn a_scaled_monitor_is_reported() {
    let mut app = App::new(metrics(), true, 140);
    let mut scaled = output("eDP-1", (0, 0), (1280, 800)).unwrap();
    scaled.scale_factor = 2;
    let mut sizeless = output("X", (0, 0), (0, 0)).unwrap();
    sizeless.logical_size = None;
    app.set_outputs(vec![Some(scaled), Some(sizeless)]);
    assert_eq!(
        app.warn_if_scaled("eDP-1", 2560, 1600),
        Some(
            "eDP-1 is 2560x1600 pixels but 1280x800 logical (scale 2); this program draws at \
             scale 1, so the overlay on that monitor will not line up"
                .to_string()
        )
    );
    assert_eq!(app.warn_if_scaled("eDP-1", 1280, 800), None);
    assert_eq!(app.warn_if_scaled("X", 1, 1), None);
    assert_eq!(app.warn_if_scaled("nope", 1, 1), None);
}

#[test]
fn a_preset_starts_out_selected() {
    let app = overlay(Some(SELECTED), true);
    assert_eq!(app.selected(), Some(SELECTED));
    assert!(app.bar().is_some());
    let app = overlay(Some(Rect::new(-50, -50, 5000, 5000)), true);
    assert_eq!(app.selected(), Some(Rect::new(0, 0, 2000, 600)));
    let app = overlay(None, true);
    assert_eq!(app.selected(), None);
    assert!(app.bar().is_none());
}

/// A band may be dragged across the seam between two monitors.
#[test]
fn a_band_can_span_two_panes() {
    let mut app = overlay(None, true);
    app.pointer_frame(&vec![press(0, 900, 100), motion(1, 100, 300), release(1, 100, 300)]);
    assert_eq!(app.selected(), Some(Rect::new(900, 100, 200, 200)));
}

/// The bar goes away while a drag is in progress, and comes back when it ends.
#[test]
fn there_is_no_bar_during_a_drag() {
    let mut app = overlay(Some(SELECTED), true);
    assert!(app.bar().is_some());
    app.pointer(&press(0, 300, 200));
    assert!(app.bar().is_none());
    app.pointer(&motion(0, 350, 220));
    assert!(app.bar().is_none());
    app.pointer(&release(0, 350, 220));
    assert_eq!(app.selected(), Some(Rect::new(150, 120, 400, 200)));
    let bar = app.bar().unwrap();
    assert_eq!(bar.rect.y, 320 + 8);
}

#[test]
fn a_click_on_a_button_is_its_answer() {
    for (button, choice) in [
        (Button::Save, Choice::Save(SELECTED)),
        (Button::Copy, Choice::Copy(SELECTED)),
        (Button::Cancel, Choice::Canceled),
    ] {
        let mut app = overlay(Some(SELECTED), true);
        let (x, y) = middle(&app, button);
        app.pointer_frame(&vec![motion(0, x, y), press(0, x, y)]);
        assert_eq!(app.choice(), None);
        app.pointer(&release(0, x, y));
        assert_eq!(app.choice(), Some(choice));
        assert_eq!(app.selected(), Some(SELECTED));
    }
}

/// A press is taken back by sliding off the button, and armed again by sliding back.
#[test]
fn sliding_off_takes_a_press_back() {
    let mut app = overlay(Some(SELECTED), true);
    let (x, y) = middle(&app, Button::Save);
    app.pointer_frame(&vec![motion(0, x, y), press(0, x, y), motion(0, 700, 500)]);
    assert_eq!(app.selected(), Some(SELECTED));
    app.pointer(&release(0, 700, 500));
    assert_eq!(app.choice(), None);
    assert_eq!(app.selected(), Some(SELECTED));

    app.pointer_frame(&vec![
        motion(0, x, y),
        press(0, x, y),
        motion(0, 700, 500),
        motion(0, x, y),
        release(0, x, y),
    ]);
    assert_eq!(app.choice(), Some(Choice::Save(SELECTED)));
}

/// A press on the bar that is on no button starts no band under it.
#[test]
fn a_press_on_the_bar_leaves_the_selection_alone() {
    let mut app = overlay(Some(SELECTED), true);
    let (x, y) = {
        let bar = app.bar().unwrap();
        (bar.rect.x, bar.rect.y)
    };
    app.pointer_frame(&vec![press(0, x, y), motion(0, x + 50, y + 200), release(0, 0, 0)]);
    assert_eq!(app.selected(), Some(SELECTED));
    assert_eq!(app.choice(), None);
}

/// Other buttons, wheels and surfaces that are no pane's do nothing.
#[test]
fn other_events_change_nothing() {
    let mut app = overlay(Some(SELECTED), true);
    let nothing = vec![
        event(0, 700, 500, PointerKind::Press(BTN_LEFT + 1)),
        event(0, 700, 500, PointerKind::Release(BTN_LEFT + 1)),
        event(0, 700, 500, PointerKind::Other),
        PointerEvent { pane: None, position: (0, 0), kind: PointerKind::Press(BTN_LEFT) },
    ];
    assert_eq!(app.pointer_frame(&nothing), vec![]);
    assert!(app.bar().is_some());
    assert_eq!(app.selected(), Some(SELECTED));
    assert!(!app.can_point(&event(2, 0, 0, PointerKind::Motion)));
    assert!(!app.can_point(&event(1, i32::MAX, 0, PointerKind::Motion)));
    assert!(app.can_point(&event(0, i32::MAX, i32::MIN, PointerKind::Motion)));
}

/// The pointer is given a shape only when it is to have another.
#[test]
fn the_cursor_says_what_a_press_would_do() {
    let mut app = overlay(Some(SELECTED), true);
    assert_eq!(app.pointer(&motion(0, 700, 500)), Some(Cursor::Crosshair));
    assert_eq!(app.pointer(&motion(0, 701, 500)), None);
    assert_eq!(app.pointer(&motion(0, 300, 200)), Some(Cursor::Move));
    let (x, y) = middle(&app, Button::Save);
    assert_eq!(
        app.pointer_frame(&vec![
            motion(0, 100, 100),
            motion(0, 101, 100),
            event(0, x, y, PointerKind::Enter),
            event(0, x, y, PointerKind::Leave),
        ]),
        vec![Cursor::NwResize, Cursor::Default]
    );
    let shapes: Vec<Cursor> =
        Handle::ALL.iter().map(|handle| cursor_for(Grip::Handle(*handle), false)).collect();
    assert_eq!(
        shapes,
        vec![
            Cursor::NwResize,
            Cursor::NeResize,
            Cursor::SwResize,
            Cursor::SeResize,
            Cursor::NResize,
            Cursor::SResize,
            Cursor::WResize,
            Cursor::EResize,
        ]
    );
    assert_eq!(cursor_for(Grip::Inside, true), Cursor::Default);
}

#[test]
fn keys_answer() {
    let mut app = overlay(None, true);
    app.on_key(KEY_RETURN);
    assert_eq!(app.choice(), None);
    app.on_key(KEY_ESCAPE);
    assert_eq!(app.choice(), Some(Choice::Canceled));

    let mut app = overlay(Some(SELECTED), true);
    app.on_key(KEY_LOWER_C);
    assert_eq!(app.choice(), None);
    app.on_key(KEY_KP_ENTER);
    assert_eq!(app.choice(), Some(Choice::Save(SELECTED)));

    let mut app = overlay(Some(SELECTED), true);
    app.update_modifiers(Modifiers { shift: false, ctrl: true });
    app.on_key(KEY_UPPER_C);
    assert_eq!(app.choice(), Some(Choice::Copy(SELECTED)));
}

#[test]
fn arrows_nudge_and_modifiers_change_how() {
    let mut app = overlay(Some(SELECTED), true);
    app.on_key(KEY_RIGHT);
    app.on_key(KEY_DOWN);
    assert_eq!(app.selected(), Some(Rect::new(101, 101, 400, 200)));
    app.update_modifiers(Modifiers { shift: true, ctrl: false });
    app.on_key(KEY_KP_LEFT);
    app.on_key(KEY_UP);
    assert_eq!(app.selected(), Some(Rect::new(91, 91, 400, 200)));
    app.update_modifiers(Modifiers { shift: true, ctrl: true });
    app.on_key(KEY_LEFT);
    assert_eq!(app.selected(), Some(Rect::new(91, 91, 390, 200)));
    app.update_modifiers(Modifiers { shift: false, ctrl: false });
    app.on_key(KEY_LOWER_A);
    assert_eq!(app.selected(), Some(Rect::new(91, 91, 390, 200)));
    app.update_modifiers(Modifiers { shift: false, ctrl: true });
    app.on_key(KEY_UPPER_A);
    assert_eq!(app.selected(), Some(Rect::new(0, 0, 2000, 600)));
    // The bar follows the selection.
    assert_eq!(app.bar().unwrap().rect.y, 600 - 8 - 32);
    assert_eq!(Key::of(0x20), Key::Other);
}

#[test]
fn panes_are_drawn_once_configured_and_changed() {
    let mut app = overlay(None, true);
    assert_eq!(app.draw(), vec![]);
    app.configure(Some(1), (800, 500));
    assert_eq!(app.draw(), vec![1]);
    assert_eq!((app.panes()[1].width, app.panes()[1].height), (800, 500));
    assert_eq!(app.draw(), vec![]);
    // A zero leaves the size to the overlay.
    app.configure(Some(0), (0, 500));
    assert_eq!((app.panes()[0].width, app.panes()[0].height), (1000, 600));
    assert_eq!(app.draw(), vec![0, 1]);
    app.configure(None, (1, 1));
    assert_eq!(app.draw(), vec![]);
    app.pointer_frame(&vec![press(0, 10, 10), motion(0, 100, 100)]);
    assert_eq!(app.draw(), vec![0, 1]);
    assert_eq!(app.scene(1).origin, (1000, 0));
    assert_eq!(app.scene(0).selection.rect(), Some(Rect::new(10, 10, 90, 90)));
    assert_eq!(app.scene(0).dim, 140);
    app.pointer(&motion(0, 120, 120));
    app.closed();
    assert_eq!(app.choice(), Some(Choice::Canceled));
    assert_eq!(app.draw(), vec![]);
}

/// Hovering redraws when it changes what is under the pointer, and only then.
#[test]
fn hovering_redraws_only_on_a_change() {
    let mut app = overlay(Some(SELECTED), true);
    app.configure(Some(0), (0, 0));
    let (x, y) = middle(&app, Button::Cancel);
    assert_eq!(app.draw(), vec![0]);
    app.pointer(&motion(0, x, y));
    assert_eq!(app.draw(), vec![0]);
    assert_eq!(app.scene(0).hovered, Some(Button::Cancel));
    app.pointer(&motion(0, x + 1, y));
    assert_eq!(app.draw(), vec![]);
    app.pointer(&event(0, x, y, PointerKind::Leave));
    assert_eq!(app.draw(), vec![0]);
    assert_eq!(app.scene(0).hovered, None);
    assert_eq!(app.metrics().readout_w, 80);
}

#[test]
fn copy_is_not_offered_where_it_cannot_work() {
    let app = overlay(Some(SELECTED), false);
    let bar = app.bar().unwrap();
    assert!(bar.buttons.iter().all(|(button, _)| *button != Button::Copy));
    assert_eq!(bar.buttons.len(), 2);
}

#[test]
fn a_desktop_that_cannot_be_counted_gets_no_overlay() {
    let app = App::new(metrics(), true, 140);
    let far = Shot { regions: vec![monitor(i32::MAX, 0, 10, 10)] };
    assert!(!app.can_start(&far));
    let edge = Shot { regions: vec![monitor(i32::MAX - 20, 0, 10, 10)] };
    assert!(!app.can_start(&edge));
}
