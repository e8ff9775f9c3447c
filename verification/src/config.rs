//! The settings, and the little of this program that is worth configuring.
//!
//! ```toml
//! # ~/.config/wlrix/screenshot.toml
//! [save]
//! dir = "~/Pictures/Screenshots"          # default: the XDG pictures dir + /Screenshots
//! filename = "Screenshot_%Y-%m-%d_%H-%M-%S"   # strftime, without the extension
//!
//! [capture]
//! cursor = false          # draw the pointer into the shot
//!
//! [appearance]
//! palette = "gotham"      # the color scheme; default is "classic"
//! dim = 0.55              # how far the unselected area is darkened, 0.0 to 1.0
//! ```
//!
//! Read from the user's config directory first, then `/etc/wlrix`; the first file found wins
//! outright rather than merging, so what a user sees in their own file is the whole of what they
//! get. Reading and parsing a file is left to the program around this; what came of it is
//! handed in as an [`Attempt`].

use crate::path;
use crate::path::UnixPath;
use crate::text;
use crate::xdg;
use crate::xdg::Env;
use vstd::prelude::*;

verus! {

/// The default filename template. `strftime`, so `%Y-%m-%d_%H-%M-%S` is what it looks like.
pub const DEFAULT_FILENAME: &'static str = "Screenshot_%Y-%m-%d_%H-%M-%S";

/// The subdirectory of the pictures directory a shot lands in, when nothing says otherwise.
pub const DEFAULT_SUBDIR: &'static str = "Screenshots";

/// How far the area outside the selection is darkened when nothing says otherwise: 0.55 of the
/// way to black.
///
/// Dark enough that the selection reads as the subject, light enough that what is outside it is
/// still recognizable -- which matters, because the whole point of adjusting a selection is
/// seeing what you are about to leave out.
pub const DEFAULT_DIM: u8 = 140;

/// All of the settings.
#[derive(Debug)]
pub struct Config {
    pub save: Save,
    pub capture: Capture,
    pub appearance: Appearance,
}

/// Where a saved shot goes and what it is called.
#[derive(Debug)]
pub struct Save {
    /// The directory, with a leading `~/` expanded. Empty means the XDG pictures directory
    /// plus `Screenshots`, worked out at save time rather than here.
    pub dir: String,
    /// The base name, as a `strftime` template and without an extension. The expansion has path
    /// separators replaced before it is used; see [`crate::save`].
    pub filename: String,
}

/// What goes into the picture.
#[derive(Debug)]
pub struct Capture {
    /// Draw the pointer into the shot.
    ///
    /// Off by default: the pointer is almost always somewhere incidental at the moment the key
    /// is pressed, and a shot of a menu is spoiled rather than explained by an arrow in the
    /// corner of it.
    pub cursor: bool,
}

/// How the overlay looks.
#[derive(Debug)]
pub struct Appearance {
    /// The id of a color scheme. Absent, empty or unrecognized means the default.
    pub palette: Option<String>,
    /// How far the area outside the selection is darkened, from 0 (not at all) to 255 (black).
    pub dim: u8,
}

impl Default for Save {
    fn default() -> (r: Save)
        ensures
            r.is_default(),
    {
        Save { dir: String::new(), filename: DEFAULT_FILENAME.to_string() }
    }
}

impl Default for Capture {
    fn default() -> (r: Capture)
        ensures
            !r.cursor,
    {
        Capture { cursor: false }
    }
}

impl Default for Appearance {
    fn default() -> (r: Appearance)
        ensures
            r.palette is None,
            r.dim == DEFAULT_DIM,
    {
        Appearance { palette: None, dim: DEFAULT_DIM }
    }
}

impl Default for Config {
    fn default() -> (r: Config)
        ensures
            r.is_default(),
    {
        Config {
            save: Save::default(),
            capture: Capture::default(),
            appearance: Appearance::default(),
        }
    }
}

impl Save {
    /// Whether nothing says where a shot goes or what it is called.
    pub open spec fn is_default(self) -> bool {
        self.dir@ == Seq::<char>::empty() && self.filename@ == DEFAULT_FILENAME@
    }

    /// The directory a shot goes to.
    pub open spec fn target(self, env: Env, user_dirs: Option<Seq<char>>) -> Option<Seq<u8>> {
        let dir = text::trim(self.dir@);
        if dir.len() > 0 {
            Some(env.expanded(dir))
        } else {
            match env.pictures(user_dirs) {
                Some(pictures) => Some(path::joined(pictures, path::bytes_of(DEFAULT_SUBDIR@))),
                None => None,
            }
        }
    }

    /// The configured directory, or the XDG pictures directory plus `Screenshots`.
    ///
    /// `user_dirs` is the text of the file that [`xdg::user_dirs_file`] names, if that could be
    /// read.
    pub fn directory(&self, env: &Env, user_dirs: Option<&str>) -> (r: Option<UnixPath>)
        ensures
            path::path_view(r) == self.target(*env, xdg::text_view(user_dirs)),
    {
        let chars = text::chars_of(self.dir.as_str());
        let dir = text::trimmed(&chars);
        if dir.len() > 0 {
            let dir = text::whole(&dir);
            return Some(xdg::expand_tilde(dir.as_str(), env));
        }
        match xdg::pictures_dir(env, user_dirs) {
            Some(pictures) => Some(pictures.join(DEFAULT_SUBDIR)),
            None => None,
        }
    }
}

impl Appearance {
    /// The dim as the 0-255 blend amount that painting takes.
    pub fn dim_amount(&self) -> (r: u8)
        ensures
            r == self.dim,
    {
        self.dim
    }
}

/// What came of reading one of the files that the settings may be in.
#[derive(Debug)]
pub enum Attempt {
    /// There is no such file, which is the ordinary case.
    Missing,
    /// It is there and could not be read, and this is why.
    Unreadable(String),
    /// It was read and is not valid, and this is why.
    Invalid(String),
    /// It was read, and this is what it says.
    Parsed(Config),
}

impl Attempt {
    /// Whether this file decides: it is there, whatever it turned out to say.
    pub open spec fn decides(self) -> bool {
        !(self is Missing)
    }

    /// Whether no file after this one is to be looked at.
    pub fn settles(&self) -> (r: bool)
        ensures
            r == self.decides(),
    {
        match self {
            Attempt::Missing => false,
            _ => true,
        }
    }

    /// What is worth saying about this attempt at the file shown as `file`.
    pub open spec fn note(self, file: Seq<char>) -> Option<Seq<char>> {
        match self {
            Attempt::Unreadable(why) => Some("could not read "@ + file + ": "@ + why@),
            Attempt::Invalid(why) => Some(file + " is not valid: "@ + why@),
            _ => None,
        }
    }
}

/// The attempt that decides: the first that found a file.
pub open spec fn deciding(attempts: Seq<(String, Attempt)>) -> Option<Attempt>
    decreases attempts.len(),
{
    if attempts.len() == 0 {
        None
    } else if attempts[0].1.decides() {
        Some(attempts[0].1)
    } else {
        deciding(attempts.drop_first())
    }
}

/// What is worth saying about the attempts, up to and including the one that decides.
pub open spec fn notes(attempts: Seq<(String, Attempt)>) -> Seq<Seq<char>>
    decreases attempts.len(),
{
    if attempts.len() == 0 {
        Seq::empty()
    } else {
        let first = match attempts[0].1.note(attempts[0].0@) {
            Some(note) => seq![note],
            None => Seq::empty(),
        };
        if attempts[0].1.decides() {
            first
        } else {
            first + notes(attempts.drop_first())
        }
    }
}

impl Config {
    /// Whether every setting is what it is when no file says anything.
    pub open spec fn is_default(self) -> bool {
        &&& self.save.is_default()
        &&& !self.capture.cursor
        &&& self.appearance.palette is None
        &&& self.appearance.dim == DEFAULT_DIM
    }

    /// The settings, given what came of reading each of [`xdg::config_paths`] in turn -- each
    /// with the path as it is shown to people -- and what is worth saying about that.
    ///
    /// The first file that exists is the one that counts. No file at all is not an error, and one
    /// that cannot be read or is not valid should not cost the user the screenshot they just asked
    /// for and cannot take again: it is reported, and the defaults stand in for all of it.
    pub fn load(attempts: Vec<(String, Attempt)>) -> (r: (Config, Vec<String>))
        ensures
            match deciding(attempts@) {
                Some(Attempt::Parsed(config)) => r.0 == config,
                _ => r.0.is_default(),
            },
            text::strings_view(r.1@) == notes(attempts@),
    {
        let mut rest = attempts;
        let mut said: Vec<String> = Vec::new();
        while rest.len() > 0
            invariant
                deciding(rest@) == deciding(attempts@),
                text::strings_view(said@) + notes(rest@) == notes(attempts@),
            decreases rest@.len(),
        {
            let ghost before = rest@;
            let ghost said_before = text::strings_view(said@);
            let (file, attempt) = rest.remove(0);
            assert(rest@ == before.drop_first());
            match attempt {
                Attempt::Parsed(config) => {
                    assert(said_before + Seq::<Seq<char>>::empty() == said_before);
                    return (config, said);
                },
                Attempt::Invalid(why) => {
                    let mut note = text::concat(file.as_str(), " is not valid: ");
                    note.append(why.as_str());
                    let ghost said_it = note@;
                    said.push(note);
                    assert(text::strings_view(said@) == said_before.push(said_it));
                    assert(said_before.push(said_it) == said_before + seq![said_it]);
                    return (Config::default(), said);
                },
                Attempt::Unreadable(why) => {
                    let mut note = text::concat("could not read ", file.as_str());
                    note.append(": ");
                    note.append(why.as_str());
                    let ghost said_it = note@;
                    said.push(note);
                    assert(text::strings_view(said@) == said_before.push(said_it));
                    assert(said_before.push(said_it) == said_before + seq![said_it]);
                    return (Config::default(), said);
                },
                Attempt::Missing => {
                    assert(Seq::<Seq<char>>::empty() + notes(rest@) == notes(rest@));
                },
            }
        }
        assert(text::strings_view(said@) + Seq::<Seq<char>>::empty() == text::strings_view(said@));
        (Config::default(), said)
    }
}

/// The first file found wins outright: whatever comes after it changes neither the settings nor
/// what is said about them.
pub proof fn the_first_file_found_wins(
    attempts: Seq<(String, Attempt)>,
    later: Seq<(String, Attempt)>,
)
    requires
        deciding(attempts) is Some,
    ensures
        deciding(attempts + later) == deciding(attempts),
        notes(attempts + later) == notes(attempts),
    decreases attempts.len(),
{
    if attempts.len() > 0 {
        assert((attempts + later)[0] == attempts[0]);
        if !attempts[0].1.decides() {
            assert((attempts + later).drop_first() == attempts.drop_first() + later);
            the_first_file_found_wins(attempts.drop_first(), later);
        }
    }
}

/// Where a shot goes. A configured directory that is not blank decides by itself: neither
/// `$XDG_PICTURES_DIR` nor the file of the user's directories matters. Without a tilde in front it
/// is taken as it is written, but for the white space around it; a tilde and a slash, or a tilde
/// alone, stand for the home.
pub proof fn a_configured_directory_decides(
    save: Save,
    env: Env,
    user_dirs: Option<Seq<char>>,
    before: Seq<char>,
    dir: Seq<char>,
    after: Seq<char>,
)
    requires
        save.dir@ == before + dir + after,
        forall|i: int| 0 <= i < before.len() ==> text::white_space(#[trigger] before[i]),
        forall|i: int| 0 <= i < after.len() ==> text::white_space(#[trigger] after[i]),
        dir.len() > 0,
        !text::white_space(dir[0]) && !text::white_space(dir[dir.len() - 1]),
    ensures
        save.target(env, user_dirs) is Some,
        dir[0] != '~' ==> save.target(env, user_dirs) == Some(path::bytes_of(dir)),
        dir.len() > 1 && dir[1] != '/' ==> save.target(env, user_dirs) == Some(path::bytes_of(dir)),
        env.home matches Some(home) ==> (home.bytes@.len() > 0 ==> {
            &&& dir == seq!['~'] ==> save.target(env, user_dirs) == Some(home.bytes@)
            &&& dir.len() > 1 && dir[0] == '~' && dir[1] == '/' ==> save.target(env, user_dirs)
                == Some(path::joined(home.bytes@, path::bytes_of(dir.skip(2))))
        }),
        env.home is None || env.home->0.bytes@.len() == 0 ==> save.target(env, user_dirs) == Some(
            path::bytes_of(dir),
        ),
{
    text::trimming_cuts_the_white_space_around(before, dir, after);
    xdg::a_tilde_stands_for_home(env, dir);
}

/// A blank directory is no directory: a shot then goes to `Screenshots` in the pictures directory,
/// and nowhere where there is none.
pub proof fn a_blank_directory_means_the_pictures(
    save: Save,
    env: Env,
    user_dirs: Option<Seq<char>>,
)
    requires
        forall|i: int| 0 <= i < save.dir@.len() ==> text::white_space(#[trigger] save.dir@[i]),
    ensures
        env.pictures(user_dirs) is None ==> save.target(env, user_dirs) is None,
        env.pictures(user_dirs) matches Some(pictures) ==> save.target(env, user_dirs) == Some(
            path::joined(pictures, path::bytes_of("Screenshots"@)),
        ),
{
    let none = Seq::<char>::empty();
    text::trimming_cuts_the_white_space_around(save.dir@, none, none);
    assert(save.dir@ + none + none == save.dir@);
}

/// The settings where no file says anything.
pub proof fn what_the_defaults_are(config: Config)
    requires
        config.is_default(),
    ensures
        config.save.dir@.len() == 0,
        config.save.filename@ == "Screenshot_%Y-%m-%d_%H-%M-%S"@,
        !config.capture.cursor,
        config.appearance.palette is None,
        config.appearance.dim == 140,
{
}

/// The attempt that decides is the first at a file that is there; each one before it found no file,
/// and what is said is about that one alone, and only if it could not be read or is not valid.
pub proof fn the_first_file_that_exists_decides(attempts: Seq<(String, Attempt)>, n: int)
    requires
        0 <= n < attempts.len(),
        forall|i: int| 0 <= i < n ==> (#[trigger] attempts[i]).1 is Missing,
        !(attempts[n].1 is Missing),
    ensures
        deciding(attempts) == Some(attempts[n].1),
        attempts[n].1 is Parsed ==> notes(attempts) == Seq::<Seq<char>>::empty(),
        attempts[n].1 matches Attempt::Unreadable(why) ==> notes(attempts) == seq![
            "could not read "@ + attempts[n].0@ + ": "@ + why@,
        ],
        attempts[n].1 matches Attempt::Invalid(why) ==> notes(attempts) == seq![
            attempts[n].0@ + " is not valid: "@ + why@,
        ],
    decreases n,
{
    if n > 0 {
        let rest = attempts.drop_first();
        assert(attempts[0].1 is Missing);
        assert(rest[n - 1] == attempts[n]);
        assert forall|i: int| 0 <= i < n - 1 implies (#[trigger] rest[i]).1 is Missing by {
            assert(rest[i] == attempts[i + 1]);
        }
        the_first_file_that_exists_decides(rest, n - 1);
        assert(Seq::<Seq<char>>::empty() + notes(rest) == notes(rest));
    }
}

/// Where no file exists, none decides and nothing is said.
pub proof fn no_file_is_not_worth_a_word(attempts: Seq<(String, Attempt)>)
    requires
        forall|i: int| 0 <= i < attempts.len() ==> (#[trigger] attempts[i]).1 is Missing,
    ensures
        deciding(attempts) is None,
        notes(attempts) == Seq::<Seq<char>>::empty(),
    decreases attempts.len(),
{
    if attempts.len() > 0 {
        let rest = attempts.drop_first();
        assert(attempts[0].1 is Missing);
        assert forall|i: int| 0 <= i < rest.len() implies (#[trigger] rest[i]).1 is Missing by {
            assert(rest[i] == attempts[i + 1]);
        }
        no_file_is_not_worth_a_word(rest);
    }
}

} // verus!
