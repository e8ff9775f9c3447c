use wlrix_screenshot::clipboard::{Owner, Reply, SourceEvent, MIME, SERVE_ARG};
use wlrix_screenshot::geometry::Rect;
use wlrix_screenshot::grab::{
    assemble, buffer_for, collect, constrained, freeze, landed, no_room, open_sessions, regions_of,
    settle, Collected, SettleAction, SettleEvent, DEADLINE_SECS,
};
use wlrix_screenshot::shot::Region;
use wlrix_screenshot::ui::paint::Metrics;
use wlrix_screenshot::ui::OutputInfo;
use wlrix_screenshot::wayland::capture::{
    Capture, Constraints, FrameEvent, Outcome, SessionEvent,
};
use wlrix_screenshot::wayland::shm::Buffer;
use wlrix_screenshot::wayland::Wayland;
use wlrix_screenshot::App;

fn app() -> App {
    let metrics = Metrics {
        save_w: 28,
        copy_w: 30,
        cancel_w: 44,
        readout_w: 80,
        readout_ascent: 11,
        prompt_w: 200,
        prompt_h: 19,
    };
    let mut app = App::new(metrics, true, 140);
    let output = |name: Option<&str>, at: (i32, i32)| {
        Some(OutputInfo {
            name: name.map(str::to_string),
            logical_position: Some(at),
            location: (0, 0),
            logical_size: Some((4, 3)),
            scale_factor: 1,
        })
    };
    app.set_outputs(vec![output(Some("DP-1"), (0, 0)), output(None, (4, 0))]);
    app
}

fn bound() -> Wayland {
    let mut wayland = Wayland::default();
    wayland.output_sources = true;
    wayland.copy = true;
    wayland
}

fn announced(capture: &mut Capture, width: u32, height: u32) {
    assert_eq!(capture.session_event(SessionEvent::BufferSize { width, height }), None);
    assert_eq!(capture.session_event(SessionEvent::ShmFormat { format: Some(1) }), None);
    assert_eq!(capture.session_event(SessionEvent::ShmFormat { format: Some(0) }), None);
    assert_eq!(capture.session_event(SessionEvent::Done), None);
}

#[test]
fn what_is_missing_is_named() {
    let mut wayland = Wayland::default();
    assert_eq!(
        wayland.missing_globals(),
        vec!["ext_output_image_capture_source_manager_v1", "ext_image_copy_capture_manager_v1"]
    );
    assert_eq!(
        open_sessions(&app(), &mut wayland, false),
        Err(
            "the compositor does not implement ext_output_image_capture_source_manager_v1, \
             ext_image_copy_capture_manager_v1 -- it cannot be captured"
                .to_string()
        )
    );
    wayland.output_sources = true;
    assert_eq!(
        open_sessions(&app(), &mut wayland, false),
        Err(
            "the compositor does not implement ext_image_copy_capture_manager_v1 -- it cannot be \
             captured"
                .to_string()
        )
    );
    assert!(wayland.captures.is_empty());
    assert!(bound().missing_globals().is_empty());
}

#[test]
fn there_is_a_session_for_each_monitor() {
    let mut wayland = bound();
    assert_eq!(open_sessions(&app(), &mut wayland, true), Ok(()));
    let names: Vec<&str> =
        wayland.captures.iter().map(|capture| capture.output_name.as_str()).collect();
    assert_eq!(names, vec!["DP-1", "an unnamed monitor"]);
    assert!(wayland.captures.iter().all(|capture| capture.with_cursor));

    let mut nobody = app();
    nobody.set_outputs(Vec::new());
    assert_eq!(
        open_sessions(&nobody, &mut bound(), true),
        Err("the compositor reported no monitors".to_string())
    );
}

#[test]
fn constraints_come_in_complete_sets() {
    let mut capture = Capture::new("DP-1".to_string(), false);
    assert_eq!(
        capture.session_event(SessionEvent::Done),
        Some(
            "the compositor offered no shm format for DP-1; it cannot be captured".to_string()
        )
    );
    assert_eq!(capture.constraints, None);
    assert_eq!(capture.session_event(SessionEvent::ShmFormat { format: None }), None);
    announced(&mut capture, 4, 3);
    assert_eq!(capture.constraints, Some(Constraints { width: 4, height: 3, format: 1 }));
    // The next set needs a format of its own.
    assert!(capture.session_event(SessionEvent::Done).is_some());
    assert_eq!(capture.session_event(SessionEvent::Other), None);
    assert_eq!(capture.constraints, Some(Constraints { width: 4, height: 3, format: 1 }));
}

#[test]
fn one_frame_at_a_time() {
    let mut capture = Capture::new("DP-1".to_string(), false);
    assert!(!capture.busy() && !capture.ready());
    assert!(capture.request());
    assert!(capture.busy());
    assert!(!capture.request());
    assert!(capture.take_outcome().is_none());
    assert!(capture.busy());
    capture.frame_event(FrameEvent::Other);
    assert!(!capture.ready());
    capture.frame_event(FrameEvent::Ready);
    assert!(capture.ready());
    assert!(matches!(capture.take_outcome(), Some(Outcome::Ready)));
    assert!(!capture.busy() && !capture.ready());
    assert!(capture.request());
    capture.session_event(SessionEvent::Stopped);
    capture.frame_event(FrameEvent::Failed { reason: "Stopped".to_string() });
    assert!(matches!(capture.take_outcome(), Some(Outcome::Failed(why)) if why == "Stopped"));
    // A session that has stopped is never asked again.
    assert!(!capture.request());
}

#[test]
fn the_wait_is_for_every_session() {
    let mut wayland = bound();
    assert!(constrained(&wayland) && landed(&wayland));
    open_sessions(&app(), &mut wayland, false).unwrap();
    assert!(!constrained(&wayland) && !landed(&wayland));
    announced(&mut wayland.captures[0], 4, 3);
    assert!(!constrained(&wayland));
    wayland.captures[1].session_event(SessionEvent::Stopped);
    assert!(constrained(&wayland));
    assert!(!landed(&wayland));
    wayland.captures[0].request();
    wayland.captures[0].frame_event(FrameEvent::Ready);
    assert!(landed(&wayland));
}

#[test]
fn the_wait_is_bounded() {
    assert_eq!(DEADLINE_SECS, 2);
    let dispatched = |done, in_time| settle(SettleEvent::Dispatched { done, in_time });
    assert!(matches!(dispatched(true, true), SettleAction::Stop));
    assert!(matches!(dispatched(false, false), SettleAction::Stop));
    assert!(matches!(dispatched(false, true), SettleAction::Prepare));
    assert!(matches!(settle(SettleEvent::Prepared { queued: true }), SettleAction::Dispatch));
    assert!(matches!(settle(SettleEvent::Prepared { queued: false }), SettleAction::Poll));
    assert!(matches!(settle(SettleEvent::Polled { readable: true }), SettleAction::Read));
    assert!(matches!(settle(SettleEvent::Polled { readable: false }), SettleAction::Stop));
    assert!(matches!(settle(SettleEvent::PollInterrupted), SettleAction::Dispatch));
    assert!(matches!(settle(SettleEvent::Read), SettleAction::Dispatch));
}

#[test]
fn a_wait_that_fails_says_why() {
    let why = |event: SettleEvent| match settle(event) {
        SettleAction::Fail(why) => why,
        _ => panic!("no failure"),
    };
    let err = || "gone".to_string();
    assert_eq!(
        why(SettleEvent::DispatchFailed(err())),
        "lost the compositor while capturing: gone"
    );
    assert_eq!(why(SettleEvent::FlushFailed(err())), "could not talk to the compositor: gone");
    assert_eq!(why(SettleEvent::PollFailed(err())), "could not wait on the compositor: gone");
    assert_eq!(why(SettleEvent::ReadFailed(err())), "lost the compositor while capturing: gone");
}

#[test]
fn a_buffer_is_as_big_as_the_compositor_wants() {
    let mut capture = Capture::new("DP-1".to_string(), false);
    assert_eq!(buffer_for(&capture), None);
    announced(&mut capture, 4, 3);
    assert_eq!(
        buffer_for(&capture),
        Some(Buffer { width: 4, height: 3, stride: 16, size: 48 })
    );
    assert_eq!(Buffer::size_for(1920, 1080), 8_294_400);
    assert!(Buffer::has_size(0, 0) && !Buffer::has_size(-1, 1) && !Buffer::has_size(1, -1));
    assert_eq!(no_room(&capture, "mmap: no"), "no room for DP-1: mmap: no");
    let constraints = |width, height| Constraints { width, height, format: 0 };
    assert!(constraints(4, 3).can_be_met());
    assert!(!constraints(4, 0x8000_0000).can_be_met());
    assert!(!constraints(0x2000_0000, 3).can_be_met());
}

#[test]
fn what_was_captured_is_where_the_layout_says() {
    let app = app();
    let mut wayland = bound();
    open_sessions(&app, &mut wayland, false).unwrap();
    for capture in &mut wayland.captures {
        announced(capture, 8, 6);
        capture.request();
        capture.frame_event(FrameEvent::Ready);
    }
    let collected = collect(&app, &mut wayland, &vec![true, true, true]);
    assert_eq!(collected.len(), 3);
    match &collected[0] {
        Collected::Take { rect, warning } => {
            assert_eq!(*rect, Rect::new(0, 0, 8, 6));
            assert!(warning.as_ref().unwrap().starts_with("DP-1 is 8x6 pixels but 4x3 logical"));
        }
        _ => panic!("not taken"),
    }
    match &collected[1] {
        Collected::Note(note) => assert_eq!(
            note,
            "an unnamed monitor has no place in the layout; leaving it out"
        ),
        _ => panic!("not noted"),
    }
    assert!(matches!(collected[2], Collected::Nothing));
    assert!(wayland.captures.is_empty());
}

#[test]
fn what_was_not_captured_is_left_out() {
    let app = app();
    let mut wayland = bound();
    open_sessions(&app, &mut wayland, false).unwrap();
    open_sessions(&app, &mut wayland, false).unwrap();
    announced(&mut wayland.captures[0], 4, 3);
    wayland.captures[0].request();
    wayland.captures[0].frame_event(FrameEvent::Failed { reason: "Unknown".to_string() });
    announced(&mut wayland.captures[2], 4, 3);
    wayland.captures[2].request();
    announced(&mut wayland.captures[3], 4, 3);
    let collected = collect(&app, &mut wayland, &vec![true, true, true, false]);
    let note = |one: &Collected| match one {
        Collected::Note(note) => note.clone(),
        _ => panic!("not noted"),
    };
    assert_eq!(note(&collected[0]), "DP-1 could not be captured: Unknown");
    assert!(matches!(collected[1], Collected::Nothing));
    assert_eq!(note(&collected[2]), "DP-1 did not answer in time; leaving it out");
    assert!(matches!(collected[3], Collected::Nothing));
}

#[test]
fn a_shot_is_whatever_was_captured() {
    match assemble(Vec::new()) {
        Err(why) => assert_eq!(why, "nothing could be captured; is any monitor awake?"),
        Ok(_) => panic!("a shot of nothing"),
    }
    let region = Region { rect: Rect::new(0, 0, 1, 1), pixels: vec![1, 2, 3, 4] };
    match assemble(vec![region]) {
        Ok(shot) => assert_eq!(shot.bounds(), Rect::new(0, 0, 1, 1)),
        Err(_) => panic!("no shot"),
    }
}

/// One part for each capture that is taken and whose buffer is large enough, in their order, with
/// no byte past the image.
#[test]
fn the_parts_are_what_was_taken() {
    let take = |rect: Rect| Collected::Take { rect, warning: None };
    let collected = vec![
        take(Rect::new(3, 4, 1, 1)),
        Collected::Note("lost".to_string()),
        take(Rect::new(5, 6, 1, 2)),
        Collected::Nothing,
        take(Rect::new(7, 8, 1, 1)),
        take(Rect::new(9, 9, 1, 1)),
    ];
    let pixels = vec![
        vec![1, 2, 3, 4, 5, 6],
        vec![9; 4],
        vec![9; 7],
        vec![9; 4],
        vec![10, 11, 12, 13],
    ];
    let regions = regions_of(&collected, pixels);
    assert_eq!(regions.len(), 2);
    assert_eq!(regions[0].rect, Rect::new(3, 4, 1, 1));
    assert_eq!(regions[0].pixels, vec![1, 2, 3, 4]);
    assert_eq!(regions[1].rect, Rect::new(7, 8, 1, 1));
    assert_eq!(regions[1].pixels, vec![10, 11, 12, 13]);
}

/// Two monitors that deliver and one that does not make a desktop of two parts; only the buffers
/// of those two are looked at.
#[test]
fn the_desktop_is_every_monitor_that_delivered() {
    let app = app();
    let mut wayland = bound();
    open_sessions(&app, &mut wayland, false).unwrap();
    open_sessions(&app, &mut wayland, false).unwrap();
    announced(&mut wayland.captures[0], 4, 3);
    wayland.captures[0].request();
    wayland.captures[0].frame_event(FrameEvent::Ready);
    announced(&mut wayland.captures[1], 4, 3);
    wayland.captures[1].request();
    wayland.captures[1].frame_event(FrameEvent::Ready);
    announced(&mut wayland.captures[2], 2, 1);
    wayland.captures[2].request();
    wayland.captures[2].frame_event(FrameEvent::Ready);
    announced(&mut wayland.captures[3], 4, 3);
    wayland.captures[3].request();
    let read = |index: usize| match index {
        0 => vec![1; 4 * 3 * 4],
        2 => vec![2; 2 * 4 + 5],
        _ => panic!("a buffer that may be written to"),
    };
    let (shot, said) = freeze(&app, &mut wayland, &vec![true; 4], read);
    let shot = shot.unwrap_or_else(|why| panic!("{why}"));
    assert_eq!(shot.regions.len(), 2);
    assert_eq!(shot.regions[0].rect, Rect::new(0, 0, 4, 3));
    assert_eq!(shot.regions[0].pixels, vec![1; 48]);
    assert_eq!(shot.regions[1].rect, Rect::new(0, 0, 2, 1));
    assert_eq!(shot.regions[1].pixels, vec![2; 8]);
    assert_eq!(said.len(), 3);
    assert_eq!(said[0], "an unnamed monitor has no place in the layout; leaving it out");
    assert!(said[1].starts_with("DP-1 is 2x1 pixels but 4x3 logical"));
    assert_eq!(said[2], "an unnamed monitor did not answer in time; leaving it out");
    assert!(wayland.captures.is_empty());
}

#[test]
fn nothing_delivered_is_nothing_captured() {
    let app = app();
    let mut wayland = bound();
    open_sessions(&app, &mut wayland, false).unwrap();
    announced(&mut wayland.captures[0], 4, 3);
    wayland.captures[0].request();
    let (shot, said) =
        freeze(&app, &mut wayland, &vec![true, false], |_: usize| panic!("nothing to read"));
    match shot {
        Err(why) => assert_eq!(why, "nothing could be captured; is any monitor awake?"),
        Ok(_) => panic!("a shot of nothing"),
    }
    assert_eq!(said, vec!["DP-1 did not answer in time; leaving it out"]);
    assert!(wayland.captures.is_empty());
}

#[test]
fn the_clipboard_owner_answers_for_its_image() {
    match Owner::new(Vec::new()) {
        Err(why) => assert_eq!(why, "no image on stdin"),
        Ok(_) => panic!("an owner of nothing"),
    }
    let mut owner = Owner::new(vec![1, 2, 3]).unwrap();
    let send = |mime: &str| SourceEvent::Send { mime_type: mime.to_string() };
    assert_eq!(owner.event(send(MIME)), Reply::WriteImage);
    assert_eq!(owner.event(send("image/png")), Reply::WriteImage);
    assert_eq!(owner.event(send("text/plain")), Reply::CloseUnwritten);
    assert_eq!(owner.event(SourceEvent::Other), Reply::Ignore);
    assert!(!owner.done);
    assert_eq!(owner.event(SourceEvent::Cancelled), Reply::GiveUp);
    assert!(owner.done);
    assert_eq!(owner.event(send(MIME)), Reply::WriteImage);
    assert!(owner.done);
    assert_eq!(owner.png, vec![1, 2, 3]);
    assert_eq!(SERVE_ARG, "--serve-clipboard");
}
