use wlrix_screenshot::geometry::Rect;
use wlrix_screenshot::select::{Handle, Selection};
use wlrix_screenshot::shot::{ByteOrder, Region, Shot, NO_MONITOR};
use wlrix_screenshot::ui::paint::{
    can_lay_out, can_paint, layout, paint, Bar, Button, Figure, Metrics, Offered, PanePixel, Scene,
    BAR_GAP, BAR_H, BAR_PAD, BUTTON_H, BUTTON_MIN_W, PROMPT_PAD,
};

fn metrics() -> Metrics {
    Metrics {
        save_w: 28,
        copy_w: 30,
        cancel_w: 44,
        readout_w: 80,
        readout_ascent: 11,
        prompt_w: 201,
        prompt_h: 19,
    }
}

fn all() -> Offered {
    Offered { save: true, copy: true, cancel: true }
}

fn desktop() -> Rect {
    Rect::new(0, 0, 1000, 600)
}

/// The bar's width with all three buttons: 64, 64 and 72 wide.
const BAR_W: i32 = 2 * 6 + 80 + (64 + 6) + (64 + 6) + (72 + 6);

#[test]
fn the_bar_goes_under_the_selection() {
    let bar = layout(Rect::new(300, 100, 400, 200), desktop(), &metrics(), all());
    assert_eq!(bar.rect, Rect::new(300 + (400 - BAR_W) / 2, 300 + BAR_GAP, BAR_W, BAR_H));
    let readout = Rect::new(bar.rect.x + BAR_PAD, bar.rect.y + BAR_PAD, 80, BUTTON_H);
    assert_eq!(bar.readout, readout);
    let x = readout.x + 80 + BAR_PAD;
    let y = readout.y;
    assert_eq!(
        bar.buttons,
        vec![
            (Button::Save, Rect::new(x, y, BUTTON_MIN_W, BUTTON_H)),
            (Button::Copy, Rect::new(x + 70, y, BUTTON_MIN_W, BUTTON_H)),
            (Button::Cancel, Rect::new(x + 140, y, 72, BUTTON_H)),
        ]
    );
    // The last button ends where the bar's padding starts.
    assert_eq!(x + 140 + 72 + BAR_PAD, bar.rect.x + BAR_W);
}

#[test]
fn the_bar_goes_above_where_there_is_no_room_below() {
    let bar = layout(Rect::new(300, 300, 400, 280), desktop(), &metrics(), all());
    assert_eq!(bar.rect.y, 300 - BAR_GAP - BAR_H);
}

#[test]
fn the_bar_goes_inside_where_there_is_no_other_room() {
    let bar = layout(desktop(), desktop(), &metrics(), all());
    assert_eq!(bar.rect.y, 600 - BAR_GAP - BAR_H);
    // A desktop too low even for that keeps the bar's top on it.
    let low = Rect::new(0, 5, 1000, 30);
    assert_eq!(layout(low, low, &metrics(), all()).rect.y, 5);
}

/// The bar is slid back onto the desktop; one wider than the desktop starts at its left edge.
#[test]
fn the_bar_is_on_the_desktop() {
    let left = layout(Rect::new(0, 100, 10, 10), desktop(), &metrics(), all());
    assert_eq!(left.rect.x, 0);
    let right = layout(Rect::new(990, 100, 10, 10), desktop(), &metrics(), all());
    assert_eq!(right.rect.x, 1000 - BAR_W);
    let narrow = Rect::new(-50, 0, 100, 600);
    assert_eq!(layout(Rect::new(-50, 0, 10, 10), narrow, &metrics(), all()).rect.x, -50);
}

/// The bar keeps its width, and keeps clear of the selection where there is room.
#[test]
fn the_bar_keeps_its_width_and_its_distance() {
    for selection in [Rect::new(300, 100, 400, 200), Rect::new(0, 50, 7, 549), desktop()] {
        let bar = layout(selection, desktop(), &metrics(), all());
        assert_eq!(bar.rect.w, BAR_W);
        if selection != desktop() {
            let (x, y) = (bar.rect.x, bar.rect.y);
            assert!(!selection.contains(x, y) && !selection.contains(x, y + BAR_H - 1));
        }
    }
}

#[test]
fn copy_is_left_out_where_it_is_not_offered() {
    let offered = Offered { save: true, copy: false, cancel: true };
    assert!(!offered.offers(Button::Copy) && offered.offers(Button::Save));
    let bar = layout(Rect::new(300, 100, 400, 200), desktop(), &metrics(), offered);
    let buttons: Vec<Button> = bar.buttons.iter().map(|(button, _)| *button).collect();
    assert_eq!(buttons, vec![Button::Save, Button::Cancel]);
    assert_eq!(bar.rect.w, BAR_W - 70);
}

#[test]
fn buttons_say_what_they_do() {
    let labels: Vec<&str> = Button::ORDER.iter().map(|button| button.label()).collect();
    assert_eq!(labels, vec!["Save", "Copy", "Cancel"]);
}

/// A button is pressed where it is drawn, and between two of them is the bar but no button.
#[test]
fn a_button_is_pressed_where_it_is_drawn() {
    let bar = layout(Rect::new(300, 100, 400, 200), desktop(), &metrics(), all());
    for (button, rect) in &bar.buttons {
        assert_eq!(bar.button_at(rect.x, rect.y), Some(*button));
        assert_eq!(bar.button_at(rect.right() - 1, rect.bottom() - 1), Some(*button));
        assert_eq!(bar.button_at(rect.right(), rect.y), None);
        assert!(bar.contains(rect.right(), rect.y));
    }
    assert!(!bar.contains(bar.rect.x - 1, bar.rect.y));
}

#[test]
fn a_bar_that_cannot_be_counted_is_not_laid_out() {
    assert!(can_lay_out(desktop(), &metrics(), all()));
    let mut wide = metrics();
    wide.readout_w = i32::MAX;
    assert!(!can_lay_out(desktop(), &wide, all()));
    wide.readout_w = -1;
    assert!(!can_lay_out(desktop(), &wide, all()));
    let mut labels = metrics();
    labels.save_w = i32::MAX - 100;
    assert!(!can_lay_out(desktop(), &labels, all()));
    assert!(!can_lay_out(Rect::new(i32::MAX - 10, 0, 5, 5), &metrics(), all()));
    assert!(!can_lay_out(Rect::new(i32::MAX, 0, 5, 5), &metrics(), all()));
}

fn two_by_two() -> Shot {
    let mut pixels = Vec::new();
    for color in [1u32, 2, 3, 4] {
        pixels.extend_from_slice(&color.to_ne_bytes());
    }
    Shot { regions: vec![Region { rect: Rect::new(10, 20, 2, 2), pixels }] }
}

fn scene<'a>(shot: &'a Shot, selection: &'a Selection, bar: Option<&'a Bar>) -> Scene<'a> {
    Scene { origin: (10, 20), shot, selection, bar, hovered: None, pressed: None, dim: 140 }
}

/// A pane shows the desktop at its own place, dark everywhere the selection is not.
#[test]
fn a_pane_shows_its_part_of_the_desktop() {
    let shot = two_by_two();
    let selection = Selection::preset(Rect::new(10, 20, 2, 2), Rect::new(11, 20, 1, 2));
    let scene = scene(&shot, &selection, None);
    let order = ByteOrder::native();
    assert_eq!(
        scene.row(order, 1, 3),
        vec![
            PanePixel { color: 3, dimmed: true },
            PanePixel { color: 4, dimmed: false },
            PanePixel { color: NO_MONITOR, dimmed: true },
        ]
    );
    assert_eq!(scene.row(order, 0, 0), vec![]);
    assert_eq!(scene.row(order, 0, -3), vec![]);
}

#[test]
fn a_selection_is_outlined_in_pane_coordinates() {
    let shot = two_by_two();
    let selection = Selection::preset(Rect::new(0, 0, 500, 500), Rect::new(110, 120, 60, 50));
    let scene = scene(&shot, &selection, None);
    assert!(can_paint(&scene, 500, 500, &metrics()));
    let art = paint(&scene, 500, 500, &metrics());
    assert!(art.bar.is_none());
    let figure = match art.figure {
        Figure::Selection(figure) => figure,
        Figure::Prompt(_) => panic!("a prompt"),
    };
    assert_eq!(figure.inner, Rect::new(100, 100, 60, 50));
    assert_eq!(figure.outer, Rect::new(99, 99, 62, 52));
    assert_eq!(figure.handles.len(), 8);
    // Drawn smaller than they are grabbed, around the pixels they sit on.
    for (square, handle) in figure.handles.iter().zip(Handle::ALL) {
        let centre = handle.centre(Rect::new(110, 120, 60, 50));
        assert_eq!(*square, Rect::new(centre.x - 10 - 4, centre.y - 20 - 4, 9, 9));
    }
}

#[test]
fn handles_of_a_small_selection_are_drawn_smaller() {
    let shot = two_by_two();
    let selection = Selection::preset(Rect::new(0, 0, 500, 500), Rect::new(110, 120, 12, 12));
    let art = paint(&scene(&shot, &selection, None), 500, 500, &metrics());
    match art.figure {
        Figure::Selection(figure) => {
            assert_eq!(figure.handles[0], Rect::new(98, 98, 5, 5));
        }
        Figure::Prompt(_) => panic!("a prompt"),
    }
}

#[test]
fn the_bar_shows_the_size_and_the_held_button() {
    let shot = two_by_two();
    let selection = Selection::preset(desktop(), Rect::new(300, 100, 400, 200));
    let bar = layout(Rect::new(300, 100, 400, 200), desktop(), &metrics(), all());
    let mut scene = scene(&shot, &selection, Some(&bar));
    scene.pressed = Some(Button::Copy);
    scene.hovered = Some(Button::Copy);
    let art = paint(&scene, 1000, 600, &metrics()).bar.unwrap();
    assert_eq!(art.readout, "400 \u{d7} 200");
    assert_eq!(art.panel, Rect::new(bar.rect.x - 10, bar.rect.y - 20, bar.rect.w, bar.rect.h));
    assert_eq!(art.readout_x, bar.readout.x - 10);
    assert_eq!(art.readout_baseline, bar.readout.y - 20 + (20 + 11) / 2 - 2);
    let held: Vec<(Button, bool)> = art.buttons.iter().map(|b| (b.0, b.2)).collect();
    assert_eq!(
        held,
        vec![(Button::Save, false), (Button::Copy, true), (Button::Cancel, false)]
    );
    // Sliding off lets the button come up again.
    scene.hovered = Some(Button::Save);
    let art = paint(&scene, 1000, 600, &metrics()).bar.unwrap();
    assert!(art.buttons.iter().all(|b| !b.2));
}

/// Nothing selected: every pane asks, in its own middle, and there is no bar.
#[test]
fn a_pane_asks_while_nothing_is_selected() {
    let shot = two_by_two();
    let selection = Selection::new(desktop());
    let bar = layout(Rect::new(300, 100, 400, 200), desktop(), &metrics(), all());
    let scene = scene(&shot, &selection, Some(&bar));
    let art = paint(&scene, 1000, 600, &metrics());
    assert!(art.bar.is_none());
    match art.figure {
        Figure::Prompt(panel) => assert_eq!(
            panel,
            Rect::new((1000 - 201) / 2 - PROMPT_PAD, (600 - 19) / 2 - PROMPT_PAD, 237, 55)
        ),
        Figure::Selection(_) => panic!("a selection"),
    }
    // A pane smaller than the text rounds toward zero, as division does.
    let small = paint(&scene, 100, 10, &metrics());
    match small.figure {
        Figure::Prompt(panel) => {
            assert_eq!((panel.x, panel.y), ((100 - 201) / 2 - 18, (10 - 19) / 2 - 18));
        }
        Figure::Selection(_) => panic!("a selection"),
    }
}

#[test]
fn what_cannot_be_counted_is_not_painted() {
    let shot = two_by_two();
    let edge = Rect::new(i32::MIN, 0, 100, 100);
    let selection = Selection::preset(edge, edge);
    assert_eq!(selection.rect(), Some(edge));
    let mut scene = scene(&shot, &selection, None);
    assert!(!can_paint(&scene, 100, 100, &metrics()));
    scene.origin = (i32::MIN, 0);
    assert!(can_paint(&scene, 100, 100, &metrics()));
    let mut wide = metrics();
    wide.prompt_w = i32::MAX;
    let nothing = Selection::new(desktop());
    scene.selection = &nothing;
    assert!(!can_paint(&scene, 100, 100, &wide));
    assert!(can_paint(&scene, 100, 100, &metrics()));
}
