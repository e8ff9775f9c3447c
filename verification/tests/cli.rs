use wlrix_screenshot::cli::{
    exit_code, parse_args, parse_rect, plan_for, report, start_of, wants_cursor, Args, Command,
    Mode, Plan, Report, Start, EXIT_CANCELED, EXIT_FAILED, EXIT_USAGE,
};
use wlrix_screenshot::config::Config;
use wlrix_screenshot::geometry::Rect;
use wlrix_screenshot::path::UnixPath;
use wlrix_screenshot::portal::{Manifest, TARGET_AREA, TARGET_SCREEN};
use wlrix_screenshot::ui::Choice;

fn argv(args: &[&str]) -> Vec<String> {
    args.iter().map(|arg| arg.to_string()).collect()
}

fn run(args: &[&str]) -> Args {
    match parse_args(&argv(args)) {
        Ok(Command::Run(args)) => args,
        _ => panic!("not a run"),
    }
}

fn error(args: &[&str]) -> String {
    match parse_args(&argv(args)) {
        Err(why) => why,
        Ok(_) => panic!("accepted"),
    }
}

#[test]
fn no_arguments_ask_for_a_region() {
    let args = run(&[]);
    assert_eq!(args.mode, Mode::Region);
    assert!(args.interactive && !args.save && !args.copy && !args.portal);
    assert_eq!(args.output, None);
}

#[test]
fn each_option_does_what_it_says() {
    assert_eq!(run(&["--all"]).mode, Mode::All);
    assert_eq!(run(&["--select", "1,2,3,4"]).mode, Mode::Preset(Rect::new(1, 2, 3, 4)));
    let copied = run(&["--copy"]);
    assert!(copied.copy && !copied.interactive && !copied.save);
    let saved = run(&["--all", "--no-ui", "--output", "/tmp/shot.png"]);
    assert!(saved.save && !saved.interactive && !saved.copy);
    assert_eq!(saved.output, Some(UnixPath::from_text("/tmp/shot.png")));
    assert!(run(&["--portal"]).portal);
    assert!(matches!(parse_args(&argv(&["--version"])), Ok(Command::Version)));
    assert!(matches!(parse_args(&argv(&["-V", "--nonsense"])), Ok(Command::Version)));
    assert!(matches!(parse_args(&argv(&["--help"])), Ok(Command::Help)));
    assert!(matches!(parse_args(&argv(&["--all", "-h"])), Ok(Command::Help)));
}

/// With the overlay up, the buttons decide; `--output` still says where.
#[test]
fn the_buttons_decide_where_there_are_any() {
    let args = run(&["--output", "/x"]);
    assert!(args.interactive && !args.save && !args.copy);
    assert_eq!(args.output, Some(UnixPath::from_text("/x")));
    let both = run(&["--copy", "--no-ui"]);
    assert!(both.copy && both.save && !both.interactive);
}

#[test]
fn the_last_mode_wins() {
    assert_eq!(run(&["--all", "--select", "1,2,3,4"]).mode, Mode::Preset(Rect::new(1, 2, 3, 4)));
    assert_eq!(run(&["--select", "1,2,3,4", "--all"]).mode, Mode::All);
}

#[test]
fn bad_arguments_are_refused() {
    assert_eq!(error(&["--select"]), "--select needs X,Y,W,H");
    assert_eq!(error(&["--output"]), "--output needs a path");
    assert_eq!(error(&["--nope"]), "unknown option --nope");
    assert_eq!(error(&["file.png"]), "unknown option file.png");
    assert_eq!(error(&["--select", "--all"]), "\"--all\" is not X,Y,W,H");
}

#[test]
fn a_rectangle_is_read() {
    assert_eq!(parse_rect("0,0,400,120"), Ok(Rect::new(0, 0, 400, 120)));
    assert_eq!(parse_rect(" -5 ,+7, 1,2 "), Ok(Rect::new(-5, 7, 1, 2)));
    assert_eq!(
        parse_rect("-2147483648,2147483647,1,1"),
        Ok(Rect::new(i32::MIN, i32::MAX, 1, 1))
    );
}

/// A rectangle that has an area is read back from its own description.
#[test]
fn a_rectangle_is_read_back() {
    for rect in [Rect::new(0, 0, 1, 1), Rect::new(-10, 20, 300, 4000), Rect::new(9, -9, 10, 99)] {
        let text = format!("{},{},{},{}", rect.x, rect.y, rect.w, rect.h);
        assert_eq!(parse_rect(&text), Ok(rect));
    }
}

#[test]
fn a_rectangle_that_is_none_says_why() {
    let why = |text: &str| parse_rect(text).unwrap_err();
    assert_eq!(why("1,2,3"), "\"1,2,3\" is not X,Y,W,H");
    assert_eq!(why("1,2,3,4,5"), "\"1,2,3,4,5\" is not X,Y,W,H");
    assert_eq!(why(""), "\"\" is not X,Y,W,H");
    assert_eq!(why("a,b, c,d"), "\"c\" is not a number (in \"a,b, c,d\")");
    assert_eq!(why("a,b,3,d"), "\"d\" is not a number (in \"a,b,3,d\")");
    assert_eq!(why("a,b,0,4"), "\"a,b,0,4\" has no area");
    assert_eq!(why("1,2,3,-4"), "\"1,2,3,-4\" has no area");
    assert_eq!(why("a,b,3,4"), "\"a\" is not a number (in \"a,b,3,4\")");
    assert_eq!(why("1,\"b,3,4"), "\"\\\"b\" is not a number (in \"1,\\\"b,3,4\")");
}

#[test]
fn the_first_argument_decides_what_the_program_is() {
    assert!(matches!(start_of(&argv(&["--serve-clipboard"])), Start::Serve));
    assert!(matches!(start_of(&argv(&["--check-config"])), Start::CheckNeedsPath));
    match start_of(&argv(&["--check-config", "/x.toml"])) {
        Start::Check(file) => assert_eq!(file, "/x.toml"),
        _ => panic!("not a check"),
    }
    assert!(matches!(start_of(&argv(&["--all", "--check-config"])), Start::Ordinary));
    assert!(matches!(start_of(&argv(&[])), Start::Ordinary));
}

fn manifest(interactive: bool, target: u32) -> Manifest {
    Manifest {
        app_id: String::new(),
        interactive,
        target,
        cursor: false,
        path: "/run/x.png".to_string(),
    }
}

#[test]
fn the_portal_replaces_what_the_command_line_said() {
    let mut args = run(&["--portal", "--copy", "--select", "1,2,3,4"]);
    args.apply_request(&manifest(false, TARGET_SCREEN));
    assert_eq!(args.mode, Mode::All);
    assert!(!args.interactive && args.save && !args.copy && args.portal);
    assert_eq!(args.output, Some(UnixPath::from_text("/run/x.png")));

    args.apply_request(&manifest(false, TARGET_AREA));
    assert_eq!(args.mode, Mode::Region);
    assert!(args.interactive);

    args.apply_request(&manifest(false, 0));
    assert_eq!(args.mode, Mode::Region);
    assert!(!args.interactive);
    args.apply_request(&manifest(true, TARGET_SCREEN));
    assert!(args.interactive);
}

#[test]
fn a_run_is_planned() {
    let bounds = Rect::new(0, 0, 8, 4);
    let rect = Rect::new(1, 2, 3, 4);
    assert_eq!(Mode::Region.preset(bounds), None);
    assert_eq!(Mode::All.preset(bounds), Some(bounds));
    assert_eq!(Mode::Preset(rect).preset(bounds), Some(rect));
    assert_eq!(
        run(&["--no-ui"]).plan(bounds),
        Plan::Take { rect: bounds, save: true, copy: false }
    );
    assert_eq!(
        run(&["--copy", "--select", "1,2,3,4"]).plan(bounds),
        Plan::Take { rect, save: false, copy: true }
    );
    assert_eq!(plan_for(Choice::Save(rect)), Plan::Take { rect, save: true, copy: false });
    assert_eq!(plan_for(Choice::Copy(rect)), Plan::Take { rect, save: false, copy: true });
    assert_eq!(plan_for(Choice::Canceled), Plan::Cancel);
}

#[test]
fn a_run_is_reported() {
    assert_eq!(report(true, true), Ok(Report::Answer));
    assert_eq!(
        report(true, false),
        Err("the portal asked for a file and none was written".to_string())
    );
    assert_eq!(report(false, true), Ok(Report::Saved));
    assert_eq!(report(false, false), Ok(Report::Silent));
    assert_eq!(exit_code(&Ok(true)), 0);
    assert_eq!(exit_code(&Ok(false)), EXIT_CANCELED);
    assert_eq!(exit_code(&Err("x".to_string())), EXIT_FAILED);
    assert_eq!((EXIT_CANCELED, EXIT_USAGE, EXIT_FAILED), (1, 2, 3));
}

#[test]
fn the_pointer_is_drawn_if_anyone_asks_for_it() {
    let mut config = Config::default();
    let mut request = manifest(false, TARGET_SCREEN);
    assert!(!wants_cursor(&config, None));
    assert!(!wants_cursor(&config, Some(&request)));
    request.cursor = true;
    assert!(wants_cursor(&config, Some(&request)));
    config.capture.cursor = true;
    assert!(wants_cursor(&config, None));
}
