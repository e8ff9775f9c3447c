use wlrix_screenshot::config::{
    Appearance, Attempt, Capture, Config, Save, DEFAULT_DIM, DEFAULT_FILENAME,
};
use wlrix_screenshot::path::UnixPath;
use wlrix_screenshot::xdg::Env;

fn with_cursor() -> Config {
    Config {
        save: Save { dir: "/d".to_string(), filename: "f".to_string() },
        capture: Capture { cursor: true },
        appearance: Appearance { palette: Some("gotham".to_string()), dim: 7 },
    }
}

fn is_default(config: &Config) -> bool {
    config.save.dir.is_empty()
        && config.save.filename == DEFAULT_FILENAME
        && !config.capture.cursor
        && config.appearance.palette.is_none()
        && config.appearance.dim == DEFAULT_DIM
}

#[test]
fn nothing_said_is_all_defaults() {
    assert!(is_default(&Config::default()));
    assert_eq!(Appearance::default().dim_amount(), 140);
    let (config, said) = Config::load(Vec::new());
    assert!(is_default(&config));
    assert!(said.is_empty());
}

#[test]
fn the_first_file_that_exists_counts() {
    let (config, said) = Config::load(vec![
        ("/a".to_string(), Attempt::Missing),
        ("/b".to_string(), Attempt::Parsed(with_cursor())),
        ("/c".to_string(), Attempt::Invalid("never seen".to_string())),
    ]);
    assert!(config.capture.cursor);
    assert_eq!(config.save.filename, "f");
    assert_eq!(config.appearance.dim_amount(), 7);
    assert!(said.is_empty());
}

#[test]
fn a_broken_file_costs_all_of_it() {
    let (config, said) = Config::load(vec![
        ("/a".to_string(), Attempt::Missing),
        ("/b".to_string(), Attempt::Invalid("no such key".to_string())),
        ("/c".to_string(), Attempt::Parsed(with_cursor())),
    ]);
    assert!(is_default(&config));
    assert_eq!(said, vec!["/b is not valid: no such key"]);
    let (config, said) = Config::load(vec![
        ("/a".to_string(), Attempt::Unreadable("denied".to_string())),
        ("/b".to_string(), Attempt::Parsed(with_cursor())),
    ]);
    assert!(is_default(&config));
    assert_eq!(said, vec!["could not read /a: denied"]);
    assert!(!Attempt::Missing.settles());
    assert!(Attempt::Unreadable(String::new()).settles());
    assert!(Attempt::Invalid(String::new()).settles());
    assert!(Attempt::Parsed(Config::default()).settles());
}

#[test]
fn the_directory_is_the_configured_one_or_the_pictures() {
    let env = Env {
        home: Some(UnixPath::from_text("/home/tester")),
        config_home: None,
        runtime_dir: None,
        pictures_dir: None,
    };
    let mut save = Save::default();
    assert_eq!(
        save.directory(&env, None),
        Some(UnixPath::from_text("/home/tester/Pictures/Screenshots"))
    );
    save.dir = "\t~/x ".to_string();
    assert_eq!(save.directory(&env, None), Some(UnixPath::from_text("/home/tester/x")));
    save.dir = "  ".to_string();
    let nowhere = Env { home: None, config_home: None, runtime_dir: None, pictures_dir: None };
    assert_eq!(save.directory(&nowhere, None), None);
}
