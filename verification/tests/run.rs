use wlrix_screenshot::cli::{self, exit_code, picture, plan_of, Args, Mode, Plan};
use wlrix_screenshot::geometry::Rect;
use wlrix_screenshot::path::UnixPath;
use wlrix_screenshot::portal::{Manifest, TARGET_AREA, TARGET_SCREEN};
use wlrix_screenshot::run::{Action, Event, Run};
use wlrix_screenshot::shot::{Region, Shot};
use wlrix_screenshot::ui::Choice;

/// A monitor four pixels wide and two high, red on the left and green on the right.
fn shot() -> Shot {
    let mut pixels = Vec::new();
    for _ in 0..2 {
        for color in [0xffaa_0000u32, 0xffaa_0000, 0xff00_bb00, 0xff00_bb00] {
            pixels.extend_from_slice(&color.to_ne_bytes());
        }
    }
    Shot { regions: vec![Region { rect: Rect::new(0, 0, 4, 2), pixels }] }
}

fn args(argv: &[&str]) -> Args {
    let argv = argv.iter().map(|arg| arg.to_string()).collect();
    match cli::parse_args(&argv) {
        Ok(cli::Command::Run(args)) => args,
        _ => panic!("not a run"),
    }
}

fn manifest(interactive: bool, target: u32) -> Manifest {
    Manifest {
        app_id: String::new(),
        interactive,
        target,
        cursor: false,
        path: "/run/user/1000/shot.png".to_string(),
    }
}

/// The pixels of a PNG file, and its size.
fn decoded(file: &[u8]) -> (u32, u32, Vec<u8>) {
    let mut reader = png::Decoder::new(std::io::Cursor::new(file)).read_info().unwrap();
    let (width, height) = (reader.info().width, reader.info().height);
    let mut rgb = vec![0; (width * height * 3) as usize];
    reader.next_frame(&mut rgb).unwrap();
    (width, height, rgb)
}

/// Follow a run to its end, with every action going well, and say what was done.
fn followed(run: &Run) -> (Vec<String>, Result<bool, String>) {
    let mut done = Vec::new();
    let mut action = run.start();
    loop {
        let event = match action {
            Action::Copy => {
                done.push("copy".to_string());
                Event::Copied(None)
            }
            Action::Place => {
                done.push("place".to_string());
                Event::Placed(Ok(UnixPath::from_text("/pictures/shot.png")))
            }
            Action::Write(path) => {
                done.push(format!("write {}", String::from_utf8_lossy(&path.bytes)));
                Event::Written(path, None)
            }
            Action::Answer(path) => {
                done.push(format!("answer {}", String::from_utf8_lossy(&path.bytes)));
                Event::Answered(None)
            }
            Action::Tell(path) => {
                done.push(format!("tell {}", String::from_utf8_lossy(&path.bytes)));
                Event::Told
            }
            Action::End(result) => return (done, result),
        };
        action = run.next(event);
    }
}

#[test]
fn the_picture_is_what_the_plan_takes() {
    let shot = shot();
    let take = |rect: Rect| Plan::Take { rect, save: true, copy: false };
    let file = picture(&shot, take(Rect::new(1, 0, 2, 1))).unwrap().unwrap();
    assert_eq!(decoded(&file), (2, 1, vec![0xaa, 0, 0, 0, 0xbb, 0]));
    assert_eq!(
        picture(&shot, take(Rect::new(1, 0, 0, 1))),
        Some(Err("the selection is empty".to_string()))
    );
    assert_eq!(picture(&shot, Plan::Cancel), None);
}

#[test]
fn an_answer_outweighs_the_arguments() {
    let (bounds, rect) = (Rect::new(0, 0, 4, 2), Rect::new(1, 0, 2, 1));
    let asked = args(&["--no-ui"]);
    let take = |rect, save, copy| Plan::Take { rect, save, copy };
    assert_eq!(plan_of(&asked, bounds, None), take(bounds, true, false));
    assert_eq!(plan_of(&asked, bounds, Some(Choice::Copy(rect))), take(rect, false, true));
    assert_eq!(plan_of(&asked, bounds, Some(Choice::Save(rect))), take(rect, true, false));
    assert_eq!(plan_of(&asked, bounds, Some(Choice::Canceled)), Plan::Cancel);
}

#[test]
fn only_the_user_cancels_a_run() {
    let shot = shot();
    let asked = args(&[]);
    let plan = plan_of(&asked, shot.bounds(), Some(Choice::Canceled));
    let (done, result) = followed(&Run::new(&shot, &asked, false, plan));
    assert!(done.is_empty());
    assert_eq!(result, Ok(false));
    assert_eq!(exit_code(&result), 1);
}

#[test]
fn the_portal_gets_its_file() {
    let shot = shot();
    let mut asked = args(&["--portal"]);
    asked.apply_request(&manifest(false, TARGET_SCREEN));
    let plan = plan_of(&asked, shot.bounds(), None);
    let (done, result) = followed(&Run::new(&shot, &asked, true, plan));
    assert_eq!(
        done,
        vec!["write /run/user/1000/shot.png", "answer /run/user/1000/shot.png"]
    );
    assert_eq!(result, Ok(true));

    asked.apply_request(&manifest(true, TARGET_AREA));
    let rect = Rect::new(1, 0, 2, 1);
    let saved = plan_of(&asked, shot.bounds(), Some(Choice::Save(rect)));
    let run = Run::new(&shot, &asked, true, saved);
    assert_eq!(followed(&run).1, Ok(true));
    match &run.picture {
        Some(Ok(file)) => assert_eq!(decoded(file), (2, 1, vec![0xaa, 0, 0, 0, 0xbb, 0])),
        _ => panic!("no picture"),
    }

    let copied = plan_of(&asked, shot.bounds(), Some(Choice::Copy(rect)));
    let (done, result) = followed(&Run::new(&shot, &asked, true, copied));
    assert_eq!(done, vec!["copy"]);
    assert_eq!(result, Err("the portal asked for a file and none was written".to_string()));
}

#[test]
fn without_an_overlay_the_arguments_decide() {
    let shot = shot();
    let followed_as = |argv: &[&str]| {
        let asked = args(argv);
        let plan = plan_of(&asked, shot.bounds(), None);
        let run = Run::new(&shot, &asked, false, plan);
        let (done, result) = followed(&run);
        assert_eq!(result, Ok(true));
        match &run.picture {
            Some(Ok(file)) => (done, decoded(file)),
            _ => panic!("no picture"),
        }
    };
    let (done, (width, height, _)) = followed_as(&["--no-ui"]);
    assert_eq!(done, vec!["place", "write /pictures/shot.png", "tell /pictures/shot.png"]);
    assert_eq!((width, height), (4, 2));

    let (done, picture) = followed_as(&["--copy", "--select", "2,1,1,1"]);
    assert_eq!(done, vec!["copy"]);
    assert_eq!(picture, (1, 1, vec![0, 0xbb, 0]));

    let (done, _) = followed_as(&["--copy", "--output", "/x.png"]);
    assert_eq!(done, vec!["copy", "write /x.png", "tell /x.png"]);
    assert_eq!(args(&["--select", "2,1,1,1"]).mode, Mode::Preset(Rect::new(2, 1, 1, 1)));
}

/// What goes wrong ends the run, with what went wrong.
#[test]
fn what_goes_wrong_ends_the_run() {
    let shot = shot();
    let asked = args(&["--no-ui"]);
    let take = |rect, save, copy| Plan::Take { rect, save, copy };
    let run = Run::new(&shot, &asked, true, take(shot.bounds(), true, true));
    let why = || "no".to_string();
    let path = || UnixPath::from_text("/x.png");
    let failed = |event: Event| match run.next(event) {
        Action::End(Err(said)) => said == "no",
        _ => false,
    };
    assert!(matches!(run.start(), Action::Copy));
    assert!(failed(Event::Copied(Some(why()))));
    assert!(failed(Event::Placed(Err(why()))));
    assert!(failed(Event::Written(path(), Some(why()))));
    assert!(failed(Event::Answered(Some(why()))));

    let empty = Run::new(&shot, &asked, false, take(Rect::new(0, 0, 0, 1), true, true));
    match empty.start() {
        Action::End(Err(said)) => assert_eq!(said, "the selection is empty"),
        _ => panic!("went on"),
    }
}
