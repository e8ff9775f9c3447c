use wlrix_screenshot::path::UnixPath;
use wlrix_screenshot::xdg::{
    config_paths, expand_tilde, home as home_dir, parse_user_dirs, pictures_dir, runtime_dir,
    user_config_dir, user_dirs_file, Env,
};

fn path(text: &str) -> UnixPath {
    UnixPath::from_text(text)
}

fn home() -> UnixPath {
    path("/home/tester")
}

/// An environment with nothing but a home.
fn at_home() -> Env {
    Env { home: Some(home()), config_home: None, runtime_dir: None, pictures_dir: None }
}

/// An environment with nothing at all.
fn nowhere() -> Env {
    Env { home: None, config_home: None, runtime_dir: None, pictures_dir: None }
}

#[test]
fn home_relative_paths_are_expanded() {
    let text = "XDG_PICTURES_DIR=\"$HOME/Pictures\"\n";
    assert_eq!(
        parse_user_dirs(text, "XDG_PICTURES_DIR", &home()),
        Some(path("/home/tester/Pictures"))
    );
}

#[test]
fn absolute_paths_are_taken_as_they_are() {
    let text = "XDG_PICTURES_DIR=\"/srv/shared/shots\"\n";
    assert_eq!(
        parse_user_dirs(text, "XDG_PICTURES_DIR", &home()),
        Some(path("/srv/shared/shots"))
    );
}

#[test]
fn a_localized_directory_name_survives() {
    // With a Japanese locale, xdg-user-dirs writes exactly this.
    let text = "XDG_PICTURES_DIR=\"$HOME/画像\"\n";
    assert_eq!(
        parse_user_dirs(text, "XDG_PICTURES_DIR", &home()),
        Some(path("/home/tester/画像"))
    );
}

#[test]
fn other_keys_and_comments_are_ignored() {
    let text = "# Created by xdg-user-dirs-update\n\
                XDG_DOWNLOAD_DIR=\"$HOME/Downloads\"\n\
                XDG_PICTURES_DIR=\"$HOME/Pictures\"\n\
                XDG_MUSIC_DIR=\"$HOME/Music\"\n";
    assert_eq!(
        parse_user_dirs(text, "XDG_PICTURES_DIR", &home()),
        Some(path("/home/tester/Pictures"))
    );
}

#[test]
fn the_last_assignment_wins() {
    let text = "XDG_PICTURES_DIR=\"$HOME/first\"\nXDG_PICTURES_DIR=\"$HOME/second\"\n";
    assert_eq!(
        parse_user_dirs(text, "XDG_PICTURES_DIR", &home()),
        Some(path("/home/tester/second"))
    );
}

#[test]
fn a_value_we_cannot_read_is_no_answer_at_all() {
    // Anything needing real shell expansion is refused rather than guessed at, so the
    // caller falls back to ~/Pictures instead of saving somewhere wrong.
    for text in [
        "XDG_PICTURES_DIR=\"${HOME}/Pictures\"\n",
        "XDG_PICTURES_DIR=\"$OTHER/Pictures\"\n",
        "XDG_PICTURES_DIR=\"\"\n",
        "XDG_PICTURES_DIR=\"relative/path\"\n",
    ] {
        assert_eq!(parse_user_dirs(text, "XDG_PICTURES_DIR", &home()), None, "{text}");
    }
}

/// An unquoted value, spaces around the sign, a bare `$HOME` and lines that end in CR LF.
#[test]
fn odd_but_readable_lines_are_read() {
    let parse = |text: &str| parse_user_dirs(text, "XDG_PICTURES_DIR", &home());
    assert_eq!(parse("XDG_PICTURES_DIR=/srv/shots"), Some(path("/srv/shots")));
    assert_eq!(parse("  XDG_PICTURES_DIR = \"$HOME\"  "), Some(home()));
    assert_eq!(parse("XDG_PICTURES_DIR=\"$HOME/a\"\r\n"), Some(path("/home/tester/a")));
    assert_eq!(parse("#XDG_PICTURES_DIR=\"$HOME/a\"\n"), None);
    assert_eq!(parse("XDG_PICTURES_DIRS=\"$HOME/a\"\n"), None);
    assert_eq!(parse(""), None);
}

/// A value that cannot be read does not hide one that was read before it.
#[test]
fn an_unreadable_assignment_does_not_count() {
    let text = "XDG_PICTURES_DIR=\"$HOME/first\"\nXDG_PICTURES_DIR=\"relative\"\n";
    assert_eq!(
        parse_user_dirs(text, "XDG_PICTURES_DIR", &home()),
        Some(path("/home/tester/first"))
    );
}

#[test]
fn a_tilde_is_the_home_directory() {
    assert_eq!(expand_tilde("~/Pictures", &at_home()), path("/home/tester/Pictures"));
    assert_eq!(expand_tilde("~", &at_home()), home());
    assert_eq!(expand_tilde("~other/x", &at_home()), path("~other/x"));
    assert_eq!(expand_tilde("/srv/x", &at_home()), path("/srv/x"));
    assert_eq!(expand_tilde("~/x", &nowhere()), path("~/x"));
}

#[test]
fn settings_are_looked_for_most_specific_first() {
    assert_eq!(
        config_paths(&at_home()),
        vec![
            path("/home/tester/.config/wlrix/screenshot.toml"),
            path("/etc/wlrix/screenshot.toml"),
        ]
    );
    let mut env = at_home();
    env.config_home = Some(path("/cfg"));
    assert_eq!(config_paths(&env)[0], path("/cfg/wlrix/screenshot.toml"));
    assert_eq!(user_config_dir(&env), Some(path("/cfg")));
    env.config_home = Some(path(""));
    assert_eq!(user_config_dir(&env), Some(path("/home/tester/.config")));
    assert_eq!(config_paths(&nowhere()), vec![path("/etc/wlrix/screenshot.toml")]);
}

#[test]
fn an_unset_or_empty_home_is_no_home() {
    assert_eq!(home_dir(&at_home()), Some(home()));
    assert_eq!(home_dir(&nowhere()), None);
    let mut env = nowhere();
    env.home = Some(path(""));
    assert_eq!(home_dir(&env), None);
}

#[test]
fn only_an_absolute_runtime_directory_counts() {
    let mut env = at_home();
    assert_eq!(runtime_dir(&env), None);
    env.runtime_dir = Some(path("/run/user/1000"));
    assert_eq!(runtime_dir(&env), Some(path("/run/user/1000")));
    env.runtime_dir = Some(path("run"));
    assert_eq!(runtime_dir(&env), None);
}

#[test]
fn the_pictures_directory_has_three_sources() {
    let mut env = at_home();
    assert_eq!(user_dirs_file(&env), Some(path("/home/tester/.config/user-dirs.dirs")));
    let text = "XDG_PICTURES_DIR=\"$HOME/画像\"\n";
    assert_eq!(pictures_dir(&env, Some(text)), Some(path("/home/tester/画像")));
    assert_eq!(pictures_dir(&env, None), Some(path("/home/tester/Pictures")));
    env.pictures_dir = Some(path("/set"));
    assert_eq!(pictures_dir(&env, Some(text)), Some(path("/set")));
    assert_eq!(user_dirs_file(&env), None);
    assert_eq!(pictures_dir(&nowhere(), Some(text)), None);
}

/// Joining follows the rules of the file system's own paths.
#[test]
fn joining_agrees_with_the_standard_library() {
    for base in ["", "/", "/a", "/a/", "a", "a/b"] {
        for rest in ["", "x", "x/y", "/x", "画像"] {
            let joined = path(base).join(rest);
            let expected = std::path::Path::new(base).join(rest);
            assert_eq!(joined, path(expected.to_str().unwrap()), "{base} + {rest}");
        }
    }
}
