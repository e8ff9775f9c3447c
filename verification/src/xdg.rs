//! Finding where a screenshot goes, and the settings file that says so.
//!
//! `XDG_PICTURES_DIR` is not an environment variable in practice. `xdg-user-dirs` writes it
//! into `~/.config/user-dirs.dirs`, a file of shell assignments that a login script sources,
//! and a Wayland client spawned from a keybind never runs that script. So the file has to be
//! read directly. The environment is still checked first, since someone setting it by hand
//! means it.
//!
//! The environment and the file are read by the program around this; what they hold is handed
//! in as an [`Env`] and as text.

use crate::path;
use crate::path::UnixPath;
use crate::text;
use vstd::prelude::*;

verus! {

/// Where `xdg-user-dirs` records the user's directory choices.
pub const USER_DIRS: &'static str = "user-dirs.dirs";

/// The settings file, relative to a config directory.
pub const CONFIG_NAME: &'static str = "wlrix/screenshot.toml";

/// Consulted when the user has no config of their own, as every other component does.
pub const SYSTEM_CONFIG_DIR: &'static str = "/etc";

/// The key of the pictures directory in `user-dirs.dirs`.
pub const PICTURES_KEY: &'static str = "XDG_PICTURES_DIR";

/// The environment variables that matter here, as they are set; `None` for one that is not.
pub struct Env {
    /// `$HOME`
    pub home: Option<UnixPath>,
    /// `$XDG_CONFIG_HOME`
    pub config_home: Option<UnixPath>,
    /// `$XDG_RUNTIME_DIR`
    pub runtime_dir: Option<UnixPath>,
    /// `$XDG_PICTURES_DIR`
    pub pictures_dir: Option<UnixPath>,
}

/// The path that a variable names: one that is unset or empty names none.
pub open spec fn named(variable: Option<UnixPath>) -> Option<Seq<u8>> {
    match variable {
        Some(path) => if path@.len() > 0 {
            Some(path@)
        } else {
            None
        },
        None => None,
    }
}

impl Env {
    /// `$HOME`, unless it is unset or empty.
    pub open spec fn home_dir(self) -> Option<Seq<u8>> {
        named(self.home)
    }

    /// `$XDG_CONFIG_HOME`, or `~/.config`.
    pub open spec fn config_dir(self) -> Option<Seq<u8>> {
        match (named(self.config_home), self.home_dir()) {
            (Some(dir), _) => Some(dir),
            (None, Some(home)) => Some(path::joined(home, path::bytes_of(".config"@))),
            (None, None) => None,
        }
    }

    /// Where the settings file may be, most specific first.
    pub open spec fn config_files(self) -> Seq<Seq<u8>> {
        let name = path::bytes_of(CONFIG_NAME@);
        let system = path::joined(path::bytes_of(SYSTEM_CONFIG_DIR@), name);
        match self.config_dir() {
            Some(dir) => seq![path::joined(dir, name), system],
            None => seq![system],
        }
    }

    /// The file to look the pictures directory up in, where the environment does not name it.
    pub open spec fn user_dirs(self) -> Option<Seq<u8>> {
        match (named(self.pictures_dir), self.home_dir(), self.config_dir()) {
            (None, Some(_), Some(dir)) => Some(path::joined(dir, path::bytes_of(USER_DIRS@))),
            _ => None,
        }
    }

    /// The pictures directory, given what the file named by [`Env::user_dirs`] says.
    pub open spec fn pictures(self, user_dirs: Option<Seq<char>>) -> Option<Seq<u8>> {
        match (named(self.pictures_dir), self.home_dir()) {
            (Some(dir), _) => Some(dir),
            (None, None) => None,
            (None, Some(home)) => match recorded(user_dirs, PICTURES_KEY@, home) {
                Some(dir) => Some(dir),
                None => Some(path::joined(home, path::bytes_of("Pictures"@))),
            },
        }
    }

    /// A path from a config file, with a leading `~/`, or a `~` alone, standing for `$HOME`.
    pub open spec fn expanded(self, path: Seq<char>) -> Seq<u8> {
        match self.home_dir() {
            Some(home) => match text::after(path, "~/"@) {
                Some(rest) => path::joined(home, path::bytes_of(rest)),
                None => if path == "~"@ {
                    home
                } else {
                    path::bytes_of(path)
                },
            },
            None => path::bytes_of(path),
        }
    }
}

/// The text of a value without the double quotes around it, where it has both.
pub open spec fn unquoted(value: Seq<char>) -> Seq<char> {
    if value.len() >= 2 && value[0] == '"' && value.last() == '"' {
        value.subrange(1, value.len() - 1)
    } else {
        value
    }
}

/// The directory that a value names: one under `$HOME`, `$HOME` itself, or an absolute one.
/// Anything else would need a shell to read, and names nothing.
pub open spec fn value_dir(value: Seq<char>, home: Seq<u8>) -> Option<Seq<u8>> {
    match text::after(value, "$HOME/"@) {
        Some(rest) => Some(path::joined(home, path::bytes_of(rest))),
        None => if value == "$HOME"@ {
            Some(home)
        } else if value.len() > 0 && value[0] == '/' {
            Some(path::bytes_of(value))
        } else {
            None
        },
    }
}

/// The directory that one line of `user-dirs.dirs` assigns to `key`, if it does.
pub open spec fn assigned(line: Seq<char>, key: Seq<char>, home: Seq<u8>) -> Option<Seq<u8>> {
    match text::after(text::trim(line), key) {
        None => None,
        Some(rest) => match text::after(text::trim_start(rest), "="@) {
            None => None,
            Some(value) => value_dir(unquoted(text::trim(value)), home),
        },
    }
}

/// The directory that the last of `lines` to assign one to `key` assigns.
pub open spec fn last_assigned(
    lines: Seq<Seq<char>>,
    key: Seq<char>,
    home: Seq<u8>,
) -> Option<Seq<u8>>
    decreases lines.len(),
{
    if lines.len() == 0 {
        None
    } else {
        match assigned(lines.last(), key, home) {
            Some(dir) => Some(dir),
            None => last_assigned(lines.drop_last(), key, home),
        }
    }
}

/// The directory that a whole file, if there is one, assigns to `key`.
pub open spec fn recorded(text: Option<Seq<char>>, key: Seq<char>, home: Seq<u8>) -> Option<
    Seq<u8>,
> {
    match text {
        Some(text) => last_assigned(text::split(text, '\n'), key, home),
        None => None,
    }
}

/// A copy of the path that a variable names.
fn named_path(variable: &Option<UnixPath>) -> (r: Option<UnixPath>)
    ensures
        path::path_view(r) == named(*variable),
{
    match variable {
        Some(path) => if path.is_empty() {
            None
        } else {
            Some(path.copy())
        },
        None => None,
    }
}

/// `$HOME`, or `None` when even that is unset.
pub fn home(env: &Env) -> (r: Option<UnixPath>)
    ensures
        path::path_view(r) == env.home_dir(),
{
    named_path(&env.home)
}

/// `$XDG_CONFIG_HOME`, or `~/.config` where that is not set.
pub fn user_config_dir(env: &Env) -> (r: Option<UnixPath>)
    ensures
        path::path_view(r) == env.config_dir(),
{
    if let Some(dir) = named_path(&env.config_home) {
        return Some(dir);
    }
    match home(env) {
        Some(home) => Some(home.join(".config")),
        None => None,
    }
}

/// The views of a vector of paths.
pub open spec fn paths_view(paths: Seq<UnixPath>) -> Seq<Seq<u8>> {
    Seq::new(paths.len(), |i: int| paths[i]@)
}

/// Where to look for the settings file, most specific first.
pub fn config_paths(env: &Env) -> (r: Vec<UnixPath>)
    ensures
        paths_view(r@) == env.config_files(),
{
    let mut paths: Vec<UnixPath> = Vec::new();
    if let Some(dir) = user_config_dir(env) {
        paths.push(dir.join(CONFIG_NAME));
    }
    paths.push(UnixPath::from_text(SYSTEM_CONFIG_DIR).join(CONFIG_NAME));
    assert(paths_view(paths@) =~= env.config_files());
    paths
}

/// The per-user runtime directory, which only an absolute path can name.
///
/// Required rather than falling back to `/tmp`: it is owned by one user and cleaned up at
/// logout, where a predictable path in a world-writable directory is somewhere another user can
/// leave a symlink. Only the portal path needs this; an ordinary save goes to Pictures.
pub fn runtime_dir(env: &Env) -> (r: Option<UnixPath>)
    ensures
        r is Some <==> (env.runtime_dir matches Some(dir) && path::absolute(dir@)),
        r matches Some(dir) ==> (env.runtime_dir matches Some(set) && dir@ == set@),
{
    match &env.runtime_dir {
        Some(dir) => if dir.is_absolute() {
            Some(dir.copy())
        } else {
            None
        },
        None => None,
    }
}

/// The file that records the pictures directory, where it has to be read at all: the
/// environment does not name the directory, and there is a home that it can be relative to.
pub fn user_dirs_file(env: &Env) -> (r: Option<UnixPath>)
    ensures
        path::path_view(r) == env.user_dirs(),
{
    if named_path(&env.pictures_dir).is_some() || home(env).is_none() {
        return None;
    }
    match user_config_dir(env) {
        Some(dir) => Some(dir.join(USER_DIRS)),
        None => None,
    }
}

/// What a text that may not be there holds.
pub open spec fn text_view(text: Option<&str>) -> Option<Seq<char>> {
    match text {
        Some(text) => Some(text@),
        None => None,
    }
}

/// The user's pictures directory, given the text of [`user_dirs_file`] if that could be read.
///
/// `$XDG_PICTURES_DIR` wins if it is set, then `user-dirs.dirs`, then `~/Pictures`. The result
/// is not required to exist: a machine where nobody has taken a screenshot yet is the ordinary
/// case rather than an error.
pub fn pictures_dir(env: &Env, user_dirs: Option<&str>) -> (r: Option<UnixPath>)
    ensures
        path::path_view(r) == env.pictures(text_view(user_dirs)),
{
    if let Some(dir) = named_path(&env.pictures_dir) {
        return Some(dir);
    }
    let Some(home) = home(env) else {
        return None;
    };
    if let Some(text) = user_dirs {
        if let Some(dir) = parse_user_dirs(text, PICTURES_KEY, &home) {
            return Some(dir);
        }
    }
    Some(home.join("Pictures"))
}

/// Expand a leading `~/` against `$HOME`.
///
/// Config files are hand-edited, and a person writing a path in one writes `~/Pictures`. The
/// shell is not involved by the time this program reads it, so nothing else would. A bare `~` is
/// a home directory too, and `~other/` is a shell feature this does not pretend to have -- it is
/// taken literally, which is at least visible.
pub fn expand_tilde(path: &str, env: &Env) -> (r: UnixPath)
    ensures
        r@ == env.expanded(path@),
{
    let Some(home) = home(env) else {
        return UnixPath::from_text(path);
    };
    let chars = text::chars_of(path);
    if let Some(rest) = text::strip_prefix(&chars, "~/") {
        let rest = text::whole(&rest);
        return home.join(rest.as_str());
    }
    if text::same_text(path, "~") {
        return home;
    }
    UnixPath::from_text(path)
}

/// The directory that one line assigns to `key`, if it does.
fn line_dir(line: &Vec<char>, key: &str, home: &UnixPath) -> (r: Option<UnixPath>)
    ensures
        path::path_view(r) == assigned(line@, key@, home@),
{
    let line = text::trimmed(line);
    let Some(rest) = text::strip_prefix(&line, key) else {
        return None;
    };
    let rest = text::trimmed_start(&rest);
    let Some(value) = text::strip_prefix(&rest, "=") else {
        return None;
    };
    let value = text::trimmed(&value);
    // Unquote. `xdg-user-dirs` always quotes, but an unquoted value is still a value and is
    // cheap to accept.
    let n: usize = value.len();
    let value = if n >= 2 && value[0] == '"' && value[n - 1] == '"' {
        text::string_of(&value, 1, n - 1)
    } else {
        text::whole(&value)
    };
    let chars = text::chars_of(value.as_str());
    if let Some(rest) = text::strip_prefix(&chars, "$HOME/") {
        let rest = text::whole(&rest);
        return Some(home.join(rest.as_str()));
    }
    if text::same_text(value.as_str(), "$HOME") {
        return Some(home.copy());
    }
    if chars.len() > 0 && chars[0] == '/' {
        return Some(UnixPath::from_text(value.as_str()));
    }
    None
}

/// Pull one directory out of a `user-dirs.dirs` file.
///
/// The format is shell assignments, e.g. `XDG_PICTURES_DIR="$HOME/Pictures"`. Only the two forms
/// `xdg-user-dirs` actually writes are handled -- a `$HOME`-relative path and an absolute one --
/// rather than pretending to be a shell. A line that is neither is skipped, which falls back to
/// `~/Pictures` rather than pointing at somewhere wrong. The last assignment wins, as it would
/// if a shell sourced the file.
pub fn parse_user_dirs(text: &str, key: &str, home: &UnixPath) -> (r: Option<UnixPath>)
    ensures
        path::path_view(r) == last_assigned(text::split(text@, '\n'), key@, home@),
{
    let chars = text::chars_of(text);
    let lines = text::pieces(&chars, '\n');
    let ghost all = text::views(lines@);
    let mut n: usize = lines.len();
    assert(all.take(n as int) == all);
    while n > 0
        invariant
            n <= lines@.len(),
            all == text::views(lines@),
            all == text::split(text@, '\n'),
            last_assigned(all, key@, home@) == last_assigned(all.take(n as int), key@, home@),
        decreases n,
    {
        assert(all.take(n as int).last() == lines@[n - 1]@);
        assert(all.take(n as int).drop_last() == all.take(n - 1));
        if let Some(dir) = line_dir(&lines[n - 1], key, home) {
            return Some(dir);
        }
        n -= 1;
    }
    None
}

/// The last assignment wins: a line added to a file decides where it assigns a directory, and
/// changes nothing where it does not.
pub proof fn the_last_assignment_wins(
    text: Seq<char>,
    line: Seq<char>,
    key: Seq<char>,
    home: Seq<u8>,
)
    requires
        !line.contains('\n'),
    ensures
        recorded(Some(text.push('\n') + line), key, home) == (match assigned(line, key, home) {
            Some(dir) => Some(dir),
            None => recorded(Some(text), key, home),
        }),
{
    text::split_adds_a_piece(text, '\n', line);
    let lines = text::split(text, '\n');
    assert(lines.push(line).drop_last() == lines);
}

/// Other keys and comments are ignored: a file none of whose lines starts with the key records
/// nothing for it.
pub proof fn other_keys_and_comments_are_ignored(
    lines: Seq<Seq<char>>,
    key: Seq<char>,
    home: Seq<u8>,
)
    requires
        forall|i: int|
            0 <= i < lines.len() ==> !key.is_prefix_of(text::trim(#[trigger] lines[i])),
    ensures
        last_assigned(lines, key, home) is None,
    decreases lines.len(),
{
    if lines.len() > 0 {
        assert(lines.last() == lines[lines.len() - 1]);
        let before = lines.drop_last();
        assert forall|i: int| 0 <= i < before.len() implies !key.is_prefix_of(
            text::trim(#[trigger] before[i]),
        ) by {
            assert(before[i] == lines[i]);
        }
        other_keys_and_comments_are_ignored(before, key, home);
    }
}

/// The bytes of a text that starts with a slash start with a slash.
proof fn slash_is_a_separator(text: Seq<char>)
    requires
        text.len() > 0,
        text[0] == '/',
    ensures
        path::absolute(path::bytes_of(text)),
{
    assert(47u32 & 0x7f == 47u32) by (bit_vector);
}

/// A file never sends a shot somewhere relative: whatever it records under an absolute home is
/// absolute.
pub proof fn what_a_file_records_is_absolute(lines: Seq<Seq<char>>, key: Seq<char>, home: Seq<u8>)
    requires
        path::absolute(home),
    ensures
        last_assigned(lines, key, home) matches Some(dir) ==> path::absolute(dir),
    decreases lines.len(),
{
    if lines.len() > 0 {
        what_a_file_records_is_absolute(lines.drop_last(), key, home);
        if let Some(rest) = text::after(text::trim(lines.last()), key) {
            if let Some(value) = text::after(text::trim_start(rest), "="@) {
                let value = unquoted(text::trim(value));
                if value.len() > 0 && value[0] == '/' {
                    slash_is_a_separator(value);
                }
            }
        }
    }
}

/// A variable names its path if and only if it is set to something.
pub proof fn a_variable_names_what_it_is_set_to(variable: Option<UnixPath>)
    ensures
        variable is None ==> named(variable) is None,
        variable matches Some(own) ==> {
            &&& own.bytes@.len() == 0 ==> named(variable) is None
            &&& own.bytes@.len() > 0 ==> named(variable) == Some(own.bytes@)
        },
{
}

/// A path in a config file stands for itself, unless it is a tilde or starts with a tilde and a
/// slash: then, where there is a home, that is what the tilde stands for. A tilde and anything else
/// stands for itself.
pub proof fn a_tilde_stands_for_home(env: Env, text: Seq<char>)
    ensures
        text.len() == 0 || text[0] != '~' ==> env.expanded(text) == path::bytes_of(text),
        text.len() > 1 && text[0] == '~' && text[1] != '/' ==> env.expanded(text)
            == path::bytes_of(text),
        env.home is None || env.home->0.bytes@.len() == 0 ==> env.expanded(text) == path::bytes_of(
            text,
        ),
        env.home matches Some(home) ==> (home.bytes@.len() > 0 ==> {
            &&& text == seq!['~'] ==> env.expanded(text) == home.bytes@
            &&& text.len() > 1 && text[0] == '~' && text[1] == '/' ==> env.expanded(text)
                == path::joined(home.bytes@, path::bytes_of(text.skip(2)))
        }),
{
    reveal_strlit("~/");
    reveal_strlit("~");
    assert("~/"@ == seq!['~', '/']);
    assert("~"@ == seq!['~']);
    if "~/"@.is_prefix_of(text) {
        assert("~/"@ == text.subrange(0, 2));
        assert(text[0] == "~/"@[0] && text[1] == "~/"@[1]);
    }
    if text.len() > 1 && text[0] == '~' && text[1] == '/' {
        assert(text.subrange(0, 2) == "~/"@);
        assert("~/"@.is_prefix_of(text));
    }
}

/// What is expanded depends on nothing in the environment but the home.
pub proof fn only_home_matters_to_a_tilde(a: Env, b: Env, text: Seq<char>)
    requires
        a.home == b.home,
    ensures
        a.expanded(text) == b.expanded(text),
{
}

/// Where the config directory is, and the files in it: `$XDG_CONFIG_HOME` where that is set, and
/// `.config` under the home otherwise. The user's settings file comes before the system's, which is
/// always looked for; the file of the user's directories is looked for only where there is a home
/// and `$XDG_PICTURES_DIR` names no directory.
pub proof fn the_settings_are_in_the_config_directory(env: Env)
    ensures
        named(env.config_home) matches Some(dir) ==> env.config_dir() == Some(dir),
        named(env.config_home) is None ==> (named(env.home) matches Some(home) ==> env.config_dir()
            == Some(path::joined(home, path::bytes_of(".config"@)))),
        named(env.config_home) is None && named(env.home) is None ==> env.config_dir() is None,
        ({
            let system = path::joined(
                path::bytes_of("/etc"@),
                path::bytes_of("wlrix/screenshot.toml"@),
            );
            &&& env.config_dir() is None ==> env.config_files() == seq![system]
            &&& env.config_dir() matches Some(dir) ==> env.config_files() == seq![
                path::joined(dir, path::bytes_of("wlrix/screenshot.toml"@)),
                system,
            ]
        }),
        named(env.pictures_dir) is Some || named(env.home) is None ==> env.user_dirs() is None,
        named(env.pictures_dir) is None && named(env.home) is Some ==> (
        env.config_dir() matches Some(dir) && env.user_dirs() == Some(
            path::joined(dir, path::bytes_of("user-dirs.dirs"@)),
        )),
{
}

/// Where pictures go: `$XDG_PICTURES_DIR` where that is set, whatever else is; otherwise, where
/// there is a home, what the file of the user's directories records, and `Pictures` under the home
/// where it records nothing or is not there; and nowhere without a home.
pub proof fn where_pictures_go(env: Env, user_dirs: Option<Seq<char>>)
    ensures
        named(env.pictures_dir) matches Some(dir) ==> env.pictures(user_dirs) == Some(dir),
        named(env.pictures_dir) is None && named(env.home) is None ==> env.pictures(user_dirs)
            is None,
        named(env.pictures_dir) is None ==> (named(env.home) matches Some(home) ==> {
            let found = recorded(user_dirs, "XDG_PICTURES_DIR"@, home);
            &&& user_dirs is None || found is None ==> env.pictures(user_dirs) == Some(
                path::joined(home, path::bytes_of("Pictures"@)),
            )
            &&& user_dirs is Some && found is Some ==> env.pictures(user_dirs) == found
        }),
{
}

/// What a value names: a directory under the home, the home itself, or an absolute one; nothing
/// else names any.
pub proof fn what_a_value_names(value: Seq<char>, rest: Seq<char>, home: Seq<u8>)
    ensures
        value_dir(seq!['$', 'H', 'O', 'M', 'E', '/'] + rest, home) == Some(
            path::joined(home, path::bytes_of(rest)),
        ),
        value_dir(seq!['$', 'H', 'O', 'M', 'E'], home) == Some(home),
        value_dir(seq!['/'] + rest, home) == Some(path::bytes_of(seq!['/'] + rest)),
        value.len() == 0 || (value[0] != '/' && value[0] != '$') ==> value_dir(value, home) is None,
        value_dir(value, home) is Some && value.len() > 0 && value[0] == '$' ==> value == seq![
            '$',
            'H',
            'O',
            'M',
            'E',
        ] || (value.len() > 5 && value.take(6) == seq!['$', 'H', 'O', 'M', 'E', '/']),
{
    reveal_strlit("$HOME/");
    reveal_strlit("$HOME");
    let under = seq!['$', 'H', 'O', 'M', 'E', '/'];
    assert("$HOME/"@ == under);
    assert("$HOME"@ == seq!['$', 'H', 'O', 'M', 'E']);
    text::what_follows_a_prefix(value, under, rest);
    let absolute = seq!['/'] + rest;
    assert(absolute[0] == '/');
    if under.is_prefix_of(absolute) {
        assert(absolute.subrange(0, 6)[0] == under[0]);
    }
    if under.is_prefix_of(value) {
        assert(value.subrange(0, 6) == value.take(6));
        assert(value[0] == value.subrange(0, 6)[0]);
    }
    if under.is_prefix_of("$HOME"@) {
        assert("$HOME"@.len() == 5);
    }
}

/// How a line assigns a directory: the key, an equals sign and a value, with white space anywhere
/// around them, and the value in double quotes or not.
pub proof fn a_line_assigns_what_it_says(
    before: Seq<char>,
    key: Seq<char>,
    gap: Seq<char>,
    space: Seq<char>,
    value: Seq<char>,
    after: Seq<char>,
    home: Seq<u8>,
)
    requires
        forall|i: int| 0 <= i < before.len() ==> text::white_space(#[trigger] before[i]),
        forall|i: int| 0 <= i < gap.len() ==> text::white_space(#[trigger] gap[i]),
        forall|i: int| 0 <= i < space.len() ==> text::white_space(#[trigger] space[i]),
        forall|i: int| 0 <= i < after.len() ==> text::white_space(#[trigger] after[i]),
        key.len() > 0,
        !text::white_space(key[0]),
        value.len() > 0,
        !text::white_space(value[0]) && !text::white_space(value[value.len() - 1]),
    ensures
        ({
            let line = before + (key + (gap + (seq!['='] + (space + value)))) + after;
            &&& value.len() >= 2 && value[0] == '"' && value[value.len() - 1] == '"' ==> assigned(
                line,
                key,
                home,
            ) == value_dir(value.subrange(1, value.len() - 1), home)
            &&& value[0] != '"' || value[value.len() - 1] != '"' ==> assigned(line, key, home)
                == value_dir(value, home)
        }),
{
    reveal_strlit("=");
    assert("="@ == seq!['=']);
    let spaced = space + value;
    let equals = seq!['='] + spaced;
    let gapped = gap + equals;
    let core = key + gapped;
    let line = before + core + after;
    assert(core[0] == key[0]);
    assert(spaced[spaced.len() - 1] == value[value.len() - 1]);
    assert(equals[equals.len() - 1] == spaced[spaced.len() - 1]);
    assert(gapped[gapped.len() - 1] == equals[equals.len() - 1]);
    assert(core[core.len() - 1] == gapped[gapped.len() - 1]);
    text::trimming_cuts_the_white_space_around(before, core, after);
    text::what_follows_a_prefix(core, key, gapped);
    assert(equals[0] == '=');
    text::trimming_cuts_the_white_space_around(gap, equals, Seq::empty());
    text::what_follows_a_prefix(equals, seq!['='], spaced);
    text::trimming_cuts_the_white_space_around(space, value, Seq::empty());
    assert(space + value + Seq::<char>::empty() == spaced);
}

/// A line assigns nothing to a key that something other than white space and an equals sign
/// follows, such as a longer key.
pub proof fn a_longer_key_is_another_key(
    before: Seq<char>,
    key: Seq<char>,
    gap: Seq<char>,
    c: char,
    rest: Seq<char>,
    home: Seq<u8>,
)
    requires
        forall|i: int| 0 <= i < before.len() ==> text::white_space(#[trigger] before[i]),
        forall|i: int| 0 <= i < gap.len() ==> text::white_space(#[trigger] gap[i]),
        key.len() > 0,
        !text::white_space(key[0]),
        !text::white_space(c) && c != '=',
        rest.len() > 0 ==> !text::white_space(rest[rest.len() - 1]),
    ensures
        assigned(before + (key + (gap + (seq![c] + rest))), key, home) is None,
{
    reveal_strlit("=");
    assert("="@ == seq!['=']);
    let tail = seq![c] + rest;
    let gapped = gap + tail;
    let core = key + gapped;
    assert(core[0] == key[0]);
    assert(tail[0] == c);
    assert(tail[tail.len() - 1] == if rest.len() > 0 {
        rest[rest.len() - 1]
    } else {
        c
    });
    assert(gapped[gapped.len() - 1] == tail[tail.len() - 1]);
    assert(core[core.len() - 1] == gapped[gapped.len() - 1]);
    text::trimming_cuts_the_white_space_around(before, core, Seq::empty());
    assert(before + core + Seq::<char>::empty() == before + core);
    text::what_follows_a_prefix(core, key, gapped);
    text::trimming_cuts_the_white_space_around(gap, tail, Seq::empty());
    if seq!['='].is_prefix_of(tail) {
        assert(tail.subrange(0, 1)[0] == '=');
    }
}

/// A file of one line records what that line assigns, and a file that is not there records nothing.
pub proof fn one_line_records_what_it_assigns(line: Seq<char>, key: Seq<char>, home: Seq<u8>)
    requires
        !line.contains('\n'),
    ensures
        recorded(Some(line), key, home) == assigned(line, key, home),
        recorded(None, key, home) is None,
{
    text::split_without_a_separator(line, '\n');
    assert(seq![line].drop_last() == Seq::<Seq<char>>::empty());
    assert(last_assigned(Seq::<Seq<char>>::empty(), key, home) is None);
}

/// The views of paths are theirs one by one, and that of a text that may not be there is its own.
pub proof fn views_are_what_is_there(paths: Seq<UnixPath>, text: Option<&str>, i: int)
    ensures
        paths_view(paths).len() == paths.len(),
        0 <= i < paths.len() ==> paths_view(paths)[i] == paths[i].bytes@,
        text is None ==> text_view(text) is None,
        text matches Some(s) ==> text_view(text) == Some(s@),
{
}

} // verus!
