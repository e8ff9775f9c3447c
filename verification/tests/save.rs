use wlrix_screenshot::config::Save;
use wlrix_screenshot::path::UnixPath;
use wlrix_screenshot::save::{
    destination, expanded_name, format_name, sanitize, unique, DestinationError, Expansion,
    NameError,
};
use wlrix_screenshot::xdg::Env;

/// Expand a template as the C library does on the twenty-seventh of August 2026, for the
/// conversions used here.
fn on_a_day(template: &str) -> Expansion {
    let text = template.replace("%Y", "2026").replace("%m", "08").replace("%d", "27");
    Expansion::Written(text.replace("%x", "2026/08/27").into_bytes())
}

#[test]
fn a_template_expands_to_something_that_looks_like_a_date() {
    let name =
        format_name("Screenshot_%Y-%m-%d", on_a_day).expect("the default template must work");
    assert!(name.starts_with("Screenshot_20"), "{name}");
    // Exactly `Screenshot_` plus `YYYY-MM-DD`.
    assert_eq!(name.len(), "Screenshot_".len() + 10, "{name}");
}

#[test]
fn a_literal_template_comes_back_unchanged() {
    assert_eq!(format_name("shot", on_a_day).unwrap(), "shot");
}

/// The trap this exists for: `%x` is a locale's date, and several locales put slashes in
/// it. Without sanitizing, one name would silently become a path.
#[test]
fn separators_in_an_expansion_are_not_path_components() {
    assert_eq!(sanitize("2026/08/27"), "2026_08_27");
    assert_eq!(sanitize("a\0b"), "a_b");
}

#[test]
fn a_name_that_is_not_a_name_falls_back() {
    assert_eq!(sanitize(""), "Screenshot");
    assert_eq!(sanitize("   "), "Screenshot");
    assert_eq!(sanitize(".."), "Screenshot");
}

#[test]
fn a_template_with_a_nul_is_refused_rather_than_truncated() {
    assert!(format_name("shot\0extra", on_a_day).is_err());
}

/// Holding the key down takes several shots inside one second, and they must not be the
/// same file.
#[test]
fn a_second_shot_in_the_same_second_gets_its_own_name() {
    let dir = UnixPath::from_text("/tmp/wlrix-screenshot-test");

    let first = unique(&dir, "shot", |_: &UnixPath| false);
    assert_eq!(first, dir.join("shot.png"));

    let second = unique(&dir, "shot", |path: &UnixPath| *path == first);
    assert_eq!(second, dir.join("shot-2.png"));
}

/// A directory in which everything exists gets the last name there is, rather than no name.
#[test]
fn counting_stops_at_a_bound() {
    let dir = UnixPath::from_text("/d");
    assert_eq!(unique(&dir, "shot", |_: &UnixPath| true), dir.join("shot-1000.png"));
    let all_but_one = |path: &UnixPath| *path != dir.join("shot-999.png");
    assert_eq!(unique(&dir, "shot", all_but_one), dir.join("shot-999.png"));
}

#[test]
fn an_expansion_is_made_safe() {
    assert_eq!(format_name("%x", on_a_day).unwrap(), "2026_08_27");
    assert_eq!(sanitize(" a b "), "a b");
    assert_eq!(sanitize("/"), "_");
    assert_eq!(sanitize("."), "Screenshot");
    assert_eq!(sanitize("..."), "...");
    assert_eq!(sanitize(&sanitize(" x/\u{3000}y ")), sanitize(" x/\u{3000}y "));
}

#[test]
fn a_name_that_cannot_be_made_says_why() {
    assert_eq!(format_name("a\0", on_a_day), Err(NameError::Nul));
    assert_eq!(expanded_name(Expansion::NoClock), Err(NameError::NoClock));
    assert_eq!(expanded_name(Expansion::Written(Vec::new())), Err(NameError::Length));
    assert_eq!(NameError::Nul.message(), "the filename template contains a NUL byte");
    assert_eq!(
        NameError::NoClock.message(),
        "the system clock could not be read as a local time"
    );
    assert_eq!(
        NameError::Length.message(),
        "the filename template expanded to nothing, or to more than this program will use as a name"
    );
}

/// What is not UTF-8 in an expansion is replaced, and what is comes through.
#[test]
fn an_expansion_is_read_as_text() {
    let name = |bytes: &[u8]| expanded_name(Expansion::Written(bytes.to_vec())).unwrap();
    assert_eq!(name("画像".as_bytes()), "画像");
    assert_eq!(name(&[0x61, 0xff, 0x62]), "a\u{fffd}b");
}

fn at_home() -> Env {
    Env {
        home: Some(UnixPath::from_text("/home/tester")),
        config_home: None,
        runtime_dir: None,
        pictures_dir: None,
    }
}

#[test]
fn a_shot_goes_to_the_first_free_name_in_its_directory() {
    let config = Save { dir: " ~/shots ".to_string(), filename: "at %Y".to_string() };
    let made = |path: &UnixPath| {
        assert_eq!(*path, UnixPath::from_text("/home/tester/shots"));
        Ok(())
    };
    let taken = UnixPath::from_text("/home/tester/shots/at 2026.png");
    let path =
        destination(&config, &at_home(), None, made, on_a_day, |path: &UnixPath| *path == taken)
            .unwrap();
    assert_eq!(path, UnixPath::from_text("/home/tester/shots/at 2026-2.png"));

    let standard = Save::default();
    let path = destination(
        &standard,
        &at_home(),
        None,
        |_: &UnixPath| Ok(()),
        |_: &str| Expansion::Written(b"x".to_vec()),
        |_: &UnixPath| false,
    );
    assert_eq!(
        path.unwrap(),
        UnixPath::from_text("/home/tester/Pictures/Screenshots/x.png")
    );
}

#[test]
fn a_shot_without_a_place_says_why() {
    let nowhere = Env { home: None, config_home: None, runtime_dir: None, pictures_dir: None };
    let config = Save::default();
    let fine = |_: &UnixPath| Ok(());
    let free = |_: &UnixPath| false;
    let why = destination(&config, &nowhere, None, fine, on_a_day, free).unwrap_err();
    assert!(matches!(why, DestinationError::NoPlace));
    assert_eq!(why.message(), "no place to save: neither the config file nor $HOME says where");

    let broken = |_: &UnixPath| Err("could not create /x: no".to_string());
    let why = destination(&config, &at_home(), None, broken, on_a_day, free).unwrap_err();
    assert_eq!(why.message(), "could not create /x: no");

    let clockless = |_: &str| Expansion::NoClock;
    let why = destination(&config, &at_home(), None, fine, clockless, free).unwrap_err();
    assert!(matches!(why, DestinationError::Name(NameError::NoClock)));
    assert_eq!(why.message(), "the system clock could not be read as a local time");
}

/// Whatever a template expands to, the shot lands in its directory and nowhere else.
#[test]
fn a_shot_lands_in_its_directory() {
    let dir = UnixPath::from_text("/home/tester/shots");
    for name in ["../../etc/passwd", "/absolute", "a/b", "..", "画像/x", "\u{2f}\u{2f}"] {
        let path = unique(&dir, &sanitize(name), |_: &UnixPath| false);
        let text = String::from_utf8(path.bytes).unwrap();
        assert_eq!(std::path::Path::new(&text).parent(), Some(std::path::Path::new("/home/tester/shots")));
    }
}

/// Two shots of one name never share a file.
#[test]
fn two_shots_never_share_a_file() {
    let dir = UnixPath::from_text("/d");
    let mut taken: Vec<UnixPath> = Vec::new();
    for _ in 0..20 {
        let path = unique(&dir, "shot-2", |path: &UnixPath| taken.contains(path));
        assert!(!taken.contains(&path));
        taken.push(path);
    }
    assert_eq!(taken[19], dir.join("shot-2-20.png"));
}

/// An expansion that is text is read as that text, whatever letters it has.
#[test]
fn an_expansion_is_read_as_written() {
    for name in ["shot", "\u{e9}cran du 27 ao\u{fb}t", "\u{65e5}\u{672c}", "a.b"] {
        let expansion = Expansion::Written(name.as_bytes().to_vec());
        assert_eq!(expanded_name(expansion).unwrap(), name);
        assert_eq!(format_name(name, on_a_day).unwrap(), name);
    }
}
