//! The command line, and what it makes of a run.
//!
//! Normally reached by a key rather than by name: the compositor binds one key to a region, one
//! to the active window and one to the whole desktop, and `--select` is how it describes the
//! active window -- it knows which one it is and owns the frame geometry, which no client can
//! work out for itself.

use crate::clipboard;
use crate::config::Config;
use crate::geometry;
use crate::geometry::Rect;
use crate::path;
use crate::path::UnixPath;
use crate::portal;
use crate::portal::Manifest;
use crate::shot;
use crate::shot::{ByteOrder, Shot};
use crate::text;
use crate::ui::Choice;
use vstd::prelude::*;

verus! {

/// What the process tells whoever started it: the user said no.
///
/// A caller has to be able to tell "the user said no" from "this went wrong", because showing
/// an error for a canceled screenshot is a bug users notice.
pub const EXIT_CANCELED: u8 = 1;

/// The arguments make no sense.
pub const EXIT_USAGE: u8 = 2;

/// It went wrong.
pub const EXIT_FAILED: u8 = 3;

/// Which rectangle the overlay starts with.
#[derive(Debug, Clone, Copy, PartialEq, Eq, Structural)]
pub enum Mode {
    /// Nothing selected: the user drags one out.
    Region,
    /// The whole desktop.
    All,
    /// A rectangle somebody else worked out, in global desktop coordinates.
    Preset(Rect),
}

/// What the arguments ask for.
pub struct Args {
    pub mode: Mode,
    /// Whether to put the overlay up at all.
    pub interactive: bool,
    /// Save when finished, and where. `None` means the configured directory.
    pub save: bool,
    pub output: Option<UnixPath>,
    /// Copy when finished.
    pub copy: bool,
    /// Answer on stdout as the portal expects. See [`portal`].
    pub portal: bool,
}

/// What the arguments ask for, with the path by its bytes.
pub struct ArgsState {
    pub mode: Mode,
    pub interactive: bool,
    pub save: bool,
    pub output: Option<Seq<u8>>,
    pub copy: bool,
    pub portal: bool,
}

impl View for Args {
    type V = ArgsState;

    open spec fn view(&self) -> ArgsState {
        ArgsState {
            mode: self.mode,
            interactive: self.interactive,
            save: self.save,
            output: path::path_view(self.output),
            copy: self.copy,
            portal: self.portal,
        }
    }
}

impl ArgsState {
    /// What no arguments at all ask for.
    pub open spec fn initial() -> ArgsState {
        ArgsState {
            mode: Mode::Region,
            interactive: true,
            save: false,
            output: None,
            copy: false,
            portal: false,
        }
    }

    /// What is asked for once every argument has been read. With the overlay up, the buttons
    /// decide -- but a Save still has to land somewhere, and `--output` is what says where.
    pub open spec fn settled(self) -> ArgsState {
        if self.interactive {
            ArgsState { save: false, copy: false, ..self }
        } else {
            self
        }
    }
}

impl Default for Args {
    fn default() -> (r: Args)
        ensures
            r@ == ArgsState::initial(),
    {
        Args {
            mode: Mode::Region,
            interactive: true,
            save: false,
            output: None,
            copy: false,
            portal: false,
        }
    }
}

/// What a part of `X,Y,W,H` is as a number, or what is wrong with it.
pub open spec fn part_number(part: Seq<char>, text: Seq<char>) -> Result<i32, Seq<char>> {
    match text::number_i32(part) {
        Some(n) => Ok(n),
        None => Err(text::quoted(part) + " is not a number (in "@ + text::quoted(text) + ")"@),
    }
}

/// The rectangle that a text describes, or what is wrong with the text: four numbers, of which
/// the size is looked at first and has to be an area.
pub open spec fn rect_of(text: Seq<char>) -> Result<Rect, Seq<char>> {
    let parts = text::split(text, ',');
    if parts.len() != 4 {
        Err(text::quoted(text) + " is not X,Y,W,H"@)
    } else {
        match (
            part_number(text::trim(parts[2]), text),
            part_number(text::trim(parts[3]), text),
            part_number(text::trim(parts[0]), text),
            part_number(text::trim(parts[1]), text),
        ) {
            (Err(why), _, _, _) => Err(why),
            (_, Err(why), _, _) => Err(why),
            (Ok(w), Ok(h), x, y) => if w <= 0 || h <= 0 {
                Err(text::quoted(text) + " has no area"@)
            } else {
                match (x, y) {
                    (Err(why), _) => Err(why),
                    (_, Err(why)) => Err(why),
                    (Ok(x), Ok(y)) => Ok(Rect { x, y, w, h }),
                }
            },
        }
    }
}

/// A result whose error is a string, with the string by its view.
pub open spec fn result_view<T>(r: Result<T, String>) -> Result<T, Seq<char>> {
    match r {
        Ok(value) => Ok(value),
        Err(why) => Err(why@),
    }
}

/// One part of `X,Y,W,H`.
fn parse_part(part: &Vec<char>, whole: &str) -> (r: Result<i32, String>)
    ensures
        result_view(r) == part_number(text::trim(part@), whole@),
{
    let part = text::trimmed(part);
    if let Some(n) = text::parse_i32(&part) {
        return Ok(n);
    }
    let part = text::whole(&part);
    let mut why = text::quote(part.as_str());
    why.append(" is not a number (in ");
    why.append(text::quote(whole).as_str());
    why.append(")");
    Err(why)
}

/// `X,Y,W,H`, as the compositor writes it.
pub fn parse_rect(text: &str) -> (r: Result<Rect, String>)
    ensures
        result_view(r) == rect_of(text@),
{
    let chars = text::chars_of(text);
    let parts = text::pieces(&chars, ',');
    let ghost views = text::split(text@, ',');
    assert(text::views(parts@).len() == parts@.len());
    if parts.len() != 4 {
        let mut why = text::quote(text);
        why.append(" is not X,Y,W,H");
        return Err(why);
    }
    assert(forall|i: int| 0 <= i < 4 ==> parts@[i]@ == #[trigger] views[i]);
    let w: i32 = match parse_part(&parts[2], text) {
        Ok(w) => w,
        Err(why) => return Err(why),
    };
    let h: i32 = match parse_part(&parts[3], text) {
        Ok(h) => h,
        Err(why) => return Err(why),
    };
    if w <= 0 || h <= 0 {
        let mut why = text::quote(text);
        why.append(" has no area");
        return Err(why);
    }
    let x: i32 = match parse_part(&parts[0], text) {
        Ok(x) => x,
        Err(why) => return Err(why),
    };
    let y: i32 = match parse_part(&parts[1], text) {
        Ok(y) => y,
        Err(why) => return Err(why),
    };
    Ok(Rect::new(x, y, w, h))
}

/// What a command line asks for.
pub enum Command {
    /// A screenshot.
    Run(Args),
    /// The version, and nothing else.
    Version,
    /// The help text, and nothing else.
    Help,
}

/// What a command line asks for, with the arguments by their view.
pub enum CommandState {
    Run(ArgsState),
    Version,
    Help,
}

impl View for Command {
    type V = CommandState;

    open spec fn view(&self) -> CommandState {
        match *self {
            Command::Run(args) => CommandState::Run(args@),
            Command::Version => CommandState::Version,
            Command::Help => CommandState::Help,
        }
    }
}

/// What the arguments `argv` ask for, after those before them have asked for `args`.
pub open spec fn parsed(argv: Seq<Seq<char>>, args: ArgsState) -> Result<CommandState, Seq<char>>
    decreases argv.len(),
{
    if argv.len() == 0 {
        Ok(CommandState::Run(args.settled()))
    } else {
        let arg = argv[0];
        let rest = argv.drop_first();
        if arg == "--all"@ {
            parsed(rest, ArgsState { mode: Mode::All, ..args })
        } else if arg == "--select"@ {
            if rest.len() == 0 {
                Err("--select needs X,Y,W,H"@)
            } else {
                match rect_of(rest[0]) {
                    Err(why) => Err(why),
                    Ok(rect) => parsed(
                        rest.drop_first(),
                        ArgsState { mode: Mode::Preset(rect), ..args },
                    ),
                }
            }
        } else if arg == "--output"@ {
            if rest.len() == 0 {
                Err("--output needs a path"@)
            } else {
                parsed(
                    rest.drop_first(),
                    ArgsState { output: Some(path::bytes_of(rest[0])), save: true, ..args },
                )
            }
        } else if arg == "--copy"@ {
            parsed(rest, ArgsState { copy: true, interactive: false, ..args })
        } else if arg == "--no-ui"@ {
            parsed(rest, ArgsState { interactive: false, save: true, ..args })
        } else if arg == "--portal"@ {
            parsed(rest, ArgsState { portal: true, ..args })
        } else if arg == "--version"@ || arg == "-V"@ {
            Ok(CommandState::Version)
        } else if arg == "--help"@ || arg == "-h"@ {
            Ok(CommandState::Help)
        } else {
            Err("unknown option "@ + arg)
        }
    }
}

/// A command, or what is wrong with the arguments, by their views.
pub open spec fn command_view(r: Result<Command, String>) -> Result<CommandState, Seq<char>> {
    match r {
        Ok(command) => Ok(command@),
        Err(why) => Err(why@),
    }
}

/// Work out what the arguments after the program's own name ask for.
pub fn parse_args(argv: &Vec<String>) -> (r: Result<Command, String>)
    ensures
        command_view(r) == parsed(text::strings_view(argv@), ArgsState::initial()),
{
    let ghost all = text::strings_view(argv@);
    let ghost wanted = parsed(all, ArgsState::initial());
    let mut args = Args::default();
    let mut i: usize = 0;
    assert(all.skip(0) == all);
    while i < argv.len()
        invariant
            i <= argv@.len(),
            all == text::strings_view(argv@),
            wanted == parsed(all, ArgsState::initial()),
            wanted == parsed(all.skip(i as int), args@),
        decreases argv@.len() - i,
    {
        let arg = argv[i].as_str();
        let ghost here = all.skip(i as int);
        assert(here[0] == arg@);
        assert(here.drop_first() == all.skip(i + 1));
        assert(i + 1 < all.len() ==> here.drop_first().drop_first() == all.skip(i + 2));
        assert(i + 1 < all.len() ==> here.drop_first()[0] == argv@[i + 1]@);
        if text::same_text(arg, "--all") {
            args.mode = Mode::All;
        } else if text::same_text(arg, "--select") {
            if i + 1 >= argv.len() {
                return Err("--select needs X,Y,W,H".to_string());
            }
            match parse_rect(argv[i + 1].as_str()) {
                Ok(rect) => {
                    args.mode = Mode::Preset(rect);
                },
                Err(why) => {
                    return Err(why);
                },
            }
            i += 1;
        } else if text::same_text(arg, "--output") {
            if i + 1 >= argv.len() {
                return Err("--output needs a path".to_string());
            }
            args.output = Some(UnixPath::from_text(argv[i + 1].as_str()));
            args.save = true;
            i += 1;
        } else if text::same_text(arg, "--copy") {
            args.copy = true;
            args.interactive = false;
        } else if text::same_text(arg, "--no-ui") {
            args.interactive = false;
            args.save = true;
        } else if text::same_text(arg, "--portal") {
            args.portal = true;
        } else if text::same_text(arg, "--version") || text::same_text(arg, "-V") {
            return Ok(Command::Version);
        } else if text::same_text(arg, "--help") || text::same_text(arg, "-h") {
            return Ok(Command::Help);
        } else {
            return Err(text::concat("unknown option ", arg));
        }
        i += 1;
    }
    if args.interactive {
        args.save = false;
        args.copy = false;
    }
    Ok(Command::Run(args))
}

/// What the program is started as.
#[derive(Debug)]
pub enum Start {
    /// The clipboard owner. This reads an image on stdin and never touches a font, a config
    /// file or an overlay.
    Serve,
    /// To say whether this file would be accepted as the settings.
    Check(String),
    /// To say that of a file it was not told.
    CheckNeedsPath,
    /// What [`parse_args`] makes of the arguments.
    Ordinary,
}

/// What the arguments after the program's own name start it as, which the first one decides.
pub fn start_of(argv: &Vec<String>) -> (r: Start)
    ensures
        argv@.len() > 0 && argv@[0]@ == clipboard::SERVE_ARG@ ==> r is Serve,
        argv@.len() > 0 && argv@[0]@ != clipboard::SERVE_ARG@ && argv@[0]@ == "--check-config"@
            ==> (if argv@.len() > 1 {
            r matches Start::Check(file) && file@ == argv@[1]@
        } else {
            r is CheckNeedsPath
        }),
        argv@.len() == 0 || argv@[0]@ != clipboard::SERVE_ARG@ && argv@[0]@ != "--check-config"@
            ==> r is Ordinary,
{
    if argv.len() == 0 {
        return Start::Ordinary;
    }
    if text::same_text(argv[0].as_str(), clipboard::SERVE_ARG) {
        return Start::Serve;
    }
    if text::same_text(argv[0].as_str(), "--check-config") {
        if argv.len() > 1 {
            return Start::Check(argv[1].clone());
        }
        return Start::CheckNeedsPath;
    }
    Start::Ordinary
}

impl ArgsState {
    /// What is asked for once the portal has made its request. That replaces whatever the
    /// command line said, apart from `--portal` itself.
    ///
    /// An area, and anything unrecognized, is for the user to draw. An unknown target is a newer
    /// frontend asking for something this program did not advertise; letting the user draw a
    /// rectangle is the answer closest to every target there is.
    pub open spec fn requested(self, request: Manifest) -> ArgsState {
        ArgsState {
            mode: if request.target == portal::TARGET_SCREEN {
                Mode::All
            } else {
                Mode::Region
            },
            interactive: request.interactive || request.target == portal::TARGET_AREA,
            save: true,
            output: Some(path::bytes_of(request.path@)),
            copy: false,
            portal: self.portal,
        }
    }
}

impl Args {
    /// Let the portal's request replace what the command line said.
    pub fn apply_request(&mut self, request: &Manifest)
        ensures
            final(self)@ == old(self)@.requested(*request),
    {
        self.mode = if request.target == portal::TARGET_SCREEN {
            Mode::All
        } else {
            Mode::Region
        };
        self.interactive = request.interactive || request.target == portal::TARGET_AREA;
        self.output = Some(UnixPath::from_text(request.path.as_str()));
        self.save = true;
        self.copy = false;
    }

    /// What a run without an overlay takes: nothing narrowed the shot, so it is the preset, or
    /// everything.
    pub fn plan(&self, bounds: Rect) -> (r: Plan)
        ensures
            r == (Plan::Take {
                rect: match self.mode {
                    Mode::Preset(rect) => rect,
                    _ => bounds,
                },
                save: self.save,
                copy: self.copy,
            }),
    {
        let rect = match self.mode.preset(bounds) {
            Some(rect) => rect,
            None => bounds,
        };
        Plan::Take { rect, save: self.save, copy: self.copy }
    }
}

impl Mode {
    /// The rectangle the overlay starts with, on a desktop of these bounds.
    pub fn preset(self, bounds: Rect) -> (r: Option<Rect>)
        ensures
            r == (match self {
                Mode::Region => None,
                Mode::All => Some(bounds),
                Mode::Preset(rect) => Some(rect),
            }),
    {
        match self {
            Mode::Region => None,
            Mode::All => Some(bounds),
            Mode::Preset(rect) => Some(rect),
        }
    }
}

/// What is done with the frozen desktop.
#[derive(Debug, Clone, Copy, PartialEq, Eq, Structural)]
pub enum Plan {
    /// This part of it is taken, and then saved, or copied, or both.
    Take { rect: Rect, save: bool, copy: bool },
    /// Nothing: the user said no.
    Cancel,
}

/// What is done once the user has settled on something: with the overlay up, the buttons decide.
pub fn plan_for(choice: Choice) -> (r: Plan)
    ensures
        r == (match choice {
            Choice::Save(rect) => Plan::Take { rect, save: true, copy: false },
            Choice::Copy(rect) => Plan::Take { rect, save: false, copy: true },
            Choice::Canceled => Plan::Cancel,
        }),
{
    match choice {
        Choice::Save(rect) => Plan::Take { rect, save: true, copy: false },
        Choice::Copy(rect) => Plan::Take { rect, save: false, copy: true },
        Choice::Canceled => Plan::Cancel,
    }
}

/// What is done with a desktop of these bounds: what the user answered to the overlay, or, where
/// there was none, what the arguments ask for.
pub open spec fn planned(args: ArgsState, bounds: Rect, answer: Option<Choice>) -> Plan {
    match answer {
        Some(Choice::Save(rect)) => Plan::Take { rect, save: true, copy: false },
        Some(Choice::Copy(rect)) => Plan::Take { rect, save: false, copy: true },
        Some(Choice::Canceled) => Plan::Cancel,
        None => Plan::Take {
            rect: match args.mode {
                Mode::Preset(rect) => rect,
                _ => bounds,
            },
            save: args.save,
            copy: args.copy,
        },
    }
}

/// Work out what is done with a desktop of these bounds. `answer` is what the user answered to
/// the overlay, where there was one.
pub fn plan_of(args: &Args, bounds: Rect, answer: Option<Choice>) -> (r: Plan)
    ensures
        r == planned(args@, bounds, answer),
{
    match answer {
        Some(choice) => plan_for(choice),
        None => args.plan(bounds),
    }
}

/// Whether `r` is the picture of `rect`, encoded: its pixels read in the machine's byte order.
pub open spec fn pictured(shot: Shot, rect: Rect, r: Result<Vec<u8>, String>) -> bool {
    let width = geometry::max(0, rect.w as int) as u32;
    let height = geometry::max(0, rect.h as int) as u32;
    exists|order: ByteOrder|
        order.is_native() && shot::png_is(
            r,
            shot::png_outcome(
                width,
                height,
                shot::png_encoding(width, height, #[trigger] shot.cropped(order, rect)),
            ),
        )
}

/// A rectangle that can be cropped gives an image whose bytes can be counted.
proof fn a_crop_can_be_encoded(rect: Rect)
    requires
        shot::croppable(rect),
    ensures
        shot::encodable(geometry::max(0, rect.w as int), geometry::max(0, rect.h as int)),
{
    let (w, h) = (geometry::max(0, rect.w as int), geometry::max(0, rect.h as int));
    if w == 0 || h == 0 {
        assert(w * h == 0) by (nonlinear_arith)
            requires
                w == 0 || h == 0,
        ;
    } else {
        assert(w * 3 <= w * h * 3) by (nonlinear_arith)
            requires
                1 <= w,
                1 <= h,
        ;
    }
}

/// The picture that a plan takes, as the bytes of a PNG file, or why it could not be encoded: for
/// want of a pixel, and for nothing else. There is none where the user said no.
pub fn picture(shot: &Shot, plan: Plan) -> (r: Option<Result<Vec<u8>, String>>)
    requires
        plan matches Plan::Take { rect, .. } ==> shot::croppable(rect),
    ensures
        r is None <==> plan is Cancel,
        r matches Some(png) ==> (plan matches Plan::Take { rect, .. } && pictured(
            *shot,
            rect,
            png,
        )),
        r matches Some(Ok(file)) ==> (plan matches Plan::Take { rect, .. } && !rect.empty()
            && shot::starts_as_rgb_png(file@, rect.w as u32, rect.h as u32)),
        plan matches Plan::Take { rect, .. } && !rect.empty() ==> (r matches Some(Ok(_))),
{
    match plan {
        Plan::Take { rect, .. } => {
            proof {
                a_crop_can_be_encoded(rect);
            }
            let image = shot.crop(rect);
            Some(image.encode_png())
        },
        Plan::Cancel => None,
    }
}

/// Whether the pointer is drawn into the shot: if the settings or the portal ask for it.
pub fn wants_cursor(config: &Config, request: Option<&Manifest>) -> (r: bool)
    ensures
        r == (config.capture.cursor || (request matches Some(request) && request.cursor)),
{
    match request {
        Some(request) => config.capture.cursor || request.cursor,
        None => config.capture.cursor,
    }
}

/// What a run that took a screenshot says at its end.
#[derive(Debug, Clone, Copy, PartialEq, Eq, Structural)]
pub enum Report {
    /// The portal is answered with where the file is.
    Answer,
    /// The user is told where the file is.
    Saved,
    /// Nothing.
    Silent,
}

/// What a run says at its end, given whether the portal asked for it and whether a file was
/// written.
///
/// A portal request that produced no file is a failure and not a cancel: the portal always names
/// a path and always asks for it to be written.
pub fn report(requested: bool, written: bool) -> (r: Result<Report, String>)
    ensures
        match r {
            Ok(report) => !(requested && !written) && report == (if requested {
                Report::Answer
            } else if written {
                Report::Saved
            } else {
                Report::Silent
            }),
            Err(why) => requested && !written && why@
                == "the portal asked for a file and none was written"@,
        },
{
    if requested {
        if written {
            Ok(Report::Answer)
        } else {
            Err("the portal asked for a file and none was written".to_string())
        }
    } else if written {
        Ok(Report::Saved)
    } else {
        Ok(Report::Silent)
    }
}

/// What the process tells whoever started it, of a run that took a shot, was canceled, or failed.
pub fn exit_code(result: &Result<bool, String>) -> (r: u8)
    ensures
        r == (match *result {
            Ok(taken) => if taken {
                0
            } else {
                EXIT_CANCELED
            },
            Err(_) => EXIT_FAILED,
        }),
{
    match result {
        Ok(taken) => {
            if *taken {
                0
            } else {
                EXIT_CANCELED
            }
        },
        Err(_) => EXIT_FAILED,
    }
}

/// Taken, canceled, failed and misused can be told apart by the exit code.
pub proof fn exit_codes_are_distinct()
    ensures
        0 != EXIT_CANCELED && 0 != EXIT_USAGE && 0 != EXIT_FAILED,
        EXIT_CANCELED != EXIT_USAGE && EXIT_CANCELED != EXIT_FAILED && EXIT_USAGE != EXIT_FAILED,
{
}

/// With the overlay up, the buttons decide: whatever the arguments were, a run with an overlay
/// neither saves nor copies by itself; and a run without one does at least one of the two.
pub proof fn the_buttons_decide_where_there_are_any(argv: Seq<Seq<char>>, args: ArgsState)
    requires
        args.interactive || args.save || args.copy,
    ensures
        parsed(argv, args) matches Ok(CommandState::Run(asked)) ==> if asked.interactive {
            !asked.save && !asked.copy
        } else {
            asked.save || asked.copy
        },
    decreases argv.len(),
{
    if argv.len() > 0 {
        let arg = argv[0];
        let rest = argv.drop_first();
        if arg == "--all"@ {
            the_buttons_decide_where_there_are_any(rest, ArgsState { mode: Mode::All, ..args });
        } else if arg == "--select"@ {
            if rest.len() > 0 {
                if let Ok(rect) = rect_of(rest[0]) {
                    the_buttons_decide_where_there_are_any(
                        rest.drop_first(),
                        ArgsState { mode: Mode::Preset(rect), ..args },
                    );
                }
            }
        } else if arg == "--output"@ {
            if rest.len() > 0 {
                the_buttons_decide_where_there_are_any(
                    rest.drop_first(),
                    ArgsState { output: Some(path::bytes_of(rest[0])), save: true, ..args },
                );
            }
        } else if arg == "--copy"@ {
            the_buttons_decide_where_there_are_any(
                rest,
                ArgsState { copy: true, interactive: false, ..args },
            );
        } else if arg == "--no-ui"@ {
            the_buttons_decide_where_there_are_any(
                rest,
                ArgsState { interactive: false, save: true, ..args },
            );
        } else if arg == "--portal"@ {
            the_buttons_decide_where_there_are_any(rest, ArgsState { portal: true, ..args });
        }
    }
}

/// A rectangle that a command line may describe has an area.
pub proof fn a_described_rectangle_has_an_area(text: Seq<char>)
    ensures
        rect_of(text) matches Ok(rect) ==> !rect.empty(),
{
}

/// How a rectangle is described on the command line.
pub open spec fn described(rect: Rect) -> Seq<char> {
    text::signed_decimal(rect.x as int) + ","@ + text::signed_decimal(rect.y as int) + ","@
        + text::signed_decimal(rect.w as int) + ","@ + text::signed_decimal(rect.h as int)
}

/// A rectangle that has an area is read back from its own description.
pub proof fn a_rectangle_is_read_back(rect: Rect)
    requires
        !rect.empty(),
    ensures
        rect_of(described(rect)) == Ok::<Rect, Seq<char>>(rect),
{
    let (x, y) = (text::signed_decimal(rect.x as int), text::signed_decimal(rect.y as int));
    let (w, h) = (text::signed_decimal(rect.w as int), text::signed_decimal(rect.h as int));
    reveal_strlit(",");
    assert(","@ == seq![',']);
    text::a_number_is_read_back(rect.x as int);
    text::a_number_is_read_back(rect.y as int);
    text::a_number_is_read_back(rect.w as int);
    text::a_number_is_read_back(rect.h as int);
    text::split_without_a_separator(x, ',');
    text::split_adds_a_piece(x, ',', y);
    text::split_adds_a_piece(x.push(',') + y, ',', w);
    text::split_adds_a_piece((x.push(',') + y).push(',') + w, ',', h);
    assert(described(rect) == ((x.push(',') + y).push(',') + w).push(',') + h);
    assert(text::split(described(rect), ',') == seq![x, y, w, h]);
}

/// Whether an option takes the argument after it.
pub open spec fn takes_argument(option: Seq<char>) -> bool {
    option == "--select"@ || option == "--output"@
}

/// Whether the argument at `i` is an option, rather than what the option before it takes.
pub open spec fn is_option(argv: Seq<Seq<char>>, i: int) -> bool
    decreases i,
{
    if i <= 0 {
        i == 0
    } else {
        !(is_option(argv, i - 1) && takes_argument(argv[i - 1]))
    }
}

/// Whether this option is given.
pub open spec fn given(argv: Seq<Seq<char>>, option: Seq<char>) -> bool {
    exists|i: int| 0 <= i < argv.len() && is_option(argv, i) && #[trigger] argv[i] == option
}

/// No two options are spelled alike.
proof fn options_are_distinct(o: Seq<char>)
    ensures
        "--all"@ != "--select"@ && "--all"@ != "--output"@ && "--all"@ != "--copy"@ && "--all"@
            != "--no-ui"@ && "--all"@ != "--portal"@,
        "--select"@ != "--output"@ && "--select"@ != "--copy"@ && "--select"@ != "--no-ui"@
            && "--select"@ != "--portal"@,
        "--output"@ != "--copy"@ && "--output"@ != "--no-ui"@ && "--output"@ != "--portal"@,
        "--copy"@ != "--no-ui"@ && "--copy"@ != "--portal"@,
        "--no-ui"@ != "--portal"@,
        o == "--version"@ || o == "-V"@ || o == "--help"@ || o == "-h"@ ==> o != "--all"@ && o
            != "--select"@ && o != "--output"@ && o != "--copy"@ && o != "--no-ui"@ && o
            != "--portal"@,
        "--version"@ != "--help"@ && "--version"@ != "-h"@ && "-V"@ != "--help"@ && "-V"@ != "-h"@,
{
    reveal_strlit("--all");
    reveal_strlit("--select");
    reveal_strlit("--output");
    reveal_strlit("--copy");
    reveal_strlit("--no-ui");
    reveal_strlit("--portal");
    reveal_strlit("--version");
    reveal_strlit("-V");
    reveal_strlit("--help");
    reveal_strlit("-h");
    assert("--select"@[2] == 's' && "--output"@[2] == 'o' && "--portal"@[2] == 'p');
    assert("--copy"@[2] == 'c' && "--help"@[2] == 'h');
    assert("-V"@[1] == 'V' && "-h"@[1] == 'h');
    assert("--all"@.len() == 5 && "--select"@.len() == 8 && "--output"@.len() == 8
        && "--copy"@.len() == 6 && "--no-ui"@.len() == 7 && "--portal"@.len() == 8
        && "--version"@.len() == 9 && "-V"@.len() == 2 && "--help"@.len() == 6 && "-h"@.len() == 2);
}

/// How many arguments the first option is, with what it takes.
pub open spec fn first_width(argv: Seq<Seq<char>>) -> int {
    if takes_argument(argv[0]) {
        2
    } else {
        1
    }
}

/// After the first option, and what it takes, the rest are options and arguments as before.
proof fn options_after_the_first(argv: Seq<Seq<char>>, i: int)
    requires
        0 <= i,
        i + first_width(argv) <= argv.len(),
    ensures
        is_option(argv, i + first_width(argv)) == is_option(argv.skip(first_width(argv)), i),
        takes_argument(argv[0]) ==> !is_option(argv, 1),
    decreases i,
{
    reveal_with_fuel(is_option, 3);
    if i > 0 {
        options_after_the_first(argv, i - 1);
        assert(argv.skip(first_width(argv))[i - 1] == argv[i - 1 + first_width(argv)]);
    }
}

/// An option is given if it is the first, or if it is given after that.
proof fn given_first_or_later(argv: Seq<Seq<char>>, option: Seq<char>)
    requires
        0 < argv.len(),
        first_width(argv) <= argv.len(),
    ensures
        given(argv, option) <==> argv[0] == option || given(
            argv.skip(first_width(argv)),
            option,
        ),
{
    let n = first_width(argv);
    let rest = argv.skip(n);
    assert(is_option(argv, 0));
    if given(argv, option) {
        let i = choose|i: int|
            0 <= i < argv.len() && is_option(argv, i) && #[trigger] argv[i] == option;
        if i >= n {
            options_after_the_first(argv, i - n);
            assert(rest[i - n] == option);
        } else if i > 0 {
            options_after_the_first(argv, 0);
        }
    }
    if given(rest, option) {
        let i = choose|i: int|
            0 <= i < rest.len() && is_option(rest, i) && #[trigger] rest[i] == option;
        options_after_the_first(argv, i);
        assert(argv[i + n] == option);
    }
    if argv[0] == option {
        assert(given(argv, option));
    }
}

/// What the flags come to, after those before them have asked for `args`.
proof fn flags_after(argv: Seq<Seq<char>>, args: ArgsState)
    ensures
        parsed(argv, args) matches Ok(CommandState::Run(asked)) ==> {
            let (copy, no_ui) = (given(argv, "--copy"@), given(argv, "--no-ui"@));
            let interactive = args.interactive && !copy && !no_ui;
            &&& asked.interactive == interactive
            &&& asked.copy == (!interactive && (args.copy || copy))
            &&& asked.save == (!interactive && (args.save || no_ui || given(argv, "--output"@)))
            &&& asked.portal == (args.portal || given(argv, "--portal"@))
        },
    decreases argv.len(),
{
    if argv.len() == 0 {
        assert(!given(argv, "--copy"@) && !given(argv, "--no-ui"@) && !given(argv, "--output"@)
            && !given(argv, "--portal"@));
    } else if parsed(argv, args) matches Ok(CommandState::Run(_)) {
        let arg = argv[0];
        options_are_distinct(arg);
        let rest = argv.drop_first();
        let n = first_width(argv);
        assert(n == 2 ==> rest.len() > 0);
        assert(argv.skip(n) == if n == 2 { rest.drop_first() } else { rest });
        given_first_or_later(argv, "--copy"@);
        given_first_or_later(argv, "--no-ui"@);
        given_first_or_later(argv, "--output"@);
        given_first_or_later(argv, "--portal"@);
        if arg == "--all"@ {
            flags_after(rest, ArgsState { mode: Mode::All, ..args });
        } else if arg == "--select"@ {
            if let Ok(rect) = rect_of(rest[0]) {
                flags_after(rest.drop_first(), ArgsState { mode: Mode::Preset(rect), ..args });
            }
        } else if arg == "--output"@ {
            flags_after(
                rest.drop_first(),
                ArgsState { output: Some(path::bytes_of(rest[0])), save: true, ..args },
            );
        } else if arg == "--copy"@ {
            flags_after(rest, ArgsState { copy: true, interactive: false, ..args });
        } else if arg == "--no-ui"@ {
            flags_after(rest, ArgsState { interactive: false, save: true, ..args });
        } else if arg == "--portal"@ {
            flags_after(rest, ArgsState { portal: true, ..args });
        }
    }
}

/// Each flag is what it is because its own option is given, wherever that stands: `--copy` copies,
/// `--no-ui` saves, and both do without the overlay, which otherwise decides; `--output` saves too
/// where there is no overlay; `--portal` answers the portal.
pub proof fn a_flag_is_set_by_its_own_option(argv: Seq<Seq<char>>)
    ensures
        parsed(argv, ArgsState::initial()) matches Ok(CommandState::Run(asked)) ==> {
            &&& asked.interactive <==> !given(argv, "--copy"@) && !given(argv, "--no-ui"@)
            &&& asked.copy <==> given(argv, "--copy"@)
            &&& asked.save <==> !asked.interactive && (given(argv, "--no-ui"@) || given(
                argv,
                "--output"@,
            ))
            &&& asked.portal <==> given(argv, "--portal"@)
        },
{
    flags_after(argv, ArgsState::initial());
}

/// Whether the option at `i` says which rectangle is taken.
pub open spec fn sets_mode(argv: Seq<Seq<char>>, i: int) -> bool {
    is_option(argv, i) && (argv[i] == "--all"@ || argv[i] == "--select"@)
}

/// Whether the option at `i` says which file is written.
pub open spec fn sets_output(argv: Seq<Seq<char>>, i: int) -> bool {
    is_option(argv, i) && argv[i] == "--output"@
}

/// The last option that says which rectangle is taken decides that, after those before them have
/// asked for `args`; and likewise for the file.
proof fn the_last_decides_after(argv: Seq<Seq<char>>, args: ArgsState, i: int)
    requires
        0 <= i <= argv.len(),
    ensures
        parsed(argv, args) matches Ok(CommandState::Run(asked)) ==> {
            &&& (forall|j: int| 0 <= j < argv.len() ==> !#[trigger] sets_mode(argv, j))
                ==> asked.mode == args.mode
            &&& i < argv.len() && sets_mode(argv, i) && (forall|j: int|
                i < j < argv.len() ==> !#[trigger] sets_mode(argv, j)) ==> {
                &&& argv[i] == "--all"@ ==> asked.mode is All
                &&& argv[i] == "--select"@ ==> i + 1 < argv.len() && (rect_of(
                    argv[i + 1],
                ) matches Ok(rect) && asked.mode == Mode::Preset(rect))
            }
            &&& (forall|j: int| 0 <= j < argv.len() ==> !#[trigger] sets_output(argv, j))
                ==> asked.output == args.output
            &&& i < argv.len() && sets_output(argv, i) && (forall|j: int|
                i < j < argv.len() ==> !#[trigger] sets_output(argv, j)) ==> i + 1 < argv.len()
                && asked.output == Some(path::bytes_of(argv[i + 1]))
        },
    decreases argv.len(),
{
    if argv.len() > 0 {
        if parsed(argv, args) matches Ok(CommandState::Run(_)) {
            let arg = argv[0];
            options_are_distinct(arg);
            let n = first_width(argv);
            let rest = argv.skip(n);
            assert(n == 2 ==> argv.drop_first().len() > 0);
            assert(rest == if n == 2 {
                argv.drop_first().drop_first()
            } else {
                argv.drop_first()
            });
            assert(argv.drop_first().len() > 0 ==> argv.drop_first()[0] == argv[1]);
            let next = if arg == "--all"@ {
                ArgsState { mode: Mode::All, ..args }
            } else if arg == "--select"@ {
                ArgsState { mode: Mode::Preset(rect_of(argv[1])->Ok_0), ..args }
            } else if arg == "--output"@ {
                ArgsState { output: Some(path::bytes_of(argv[1])), save: true, ..args }
            } else if arg == "--copy"@ {
                ArgsState { copy: true, interactive: false, ..args }
            } else if arg == "--no-ui"@ {
                ArgsState { interactive: false, save: true, ..args }
            } else {
                ArgsState { portal: true, ..args }
            };
            assert(parsed(argv, args) == parsed(rest, next));
            assert forall|j: int| 0 <= j < rest.len() implies {
                &&& #[trigger] sets_mode(rest, j) == sets_mode(argv, j + n)
                &&& sets_output(rest, j) == sets_output(argv, j + n)
                &&& rest[j] == argv[j + n]
            } by {
                options_after_the_first(argv, j);
            }
            assert forall|j: int| 0 <= j < rest.len() implies #[trigger] sets_output(rest, j)
                == sets_output(argv, j + n) by {
                options_after_the_first(argv, j);
            }
            if n == 2 {
                options_after_the_first(argv, 0);
            }
            assert(is_option(argv, 0));
            assert forall|j: int| n <= j < argv.len() implies #[trigger] sets_mode(argv, j)
                == sets_mode(rest, j - n) by {
                options_after_the_first(argv, j - n);
            }
            assert forall|j: int| n <= j < argv.len() implies #[trigger] sets_output(argv, j)
                == sets_output(rest, j - n) by {
                options_after_the_first(argv, j - n);
            }
            let k = if i >= n { i - n } else { 0 };
            the_last_decides_after(rest, next, k);
            if i >= n && i < argv.len() {
                assert(rest[k] == argv[i]);
                assert(sets_mode(argv, i) == sets_mode(rest, k));
                assert(sets_output(argv, i) == sets_output(rest, k));
            }
            if i >= n && i + 1 < argv.len() {
                assert(rest[k + 1] == argv[i + 1]);
            }
            if i < argv.len() && (forall|j: int|
                i < j < argv.len() ==> !#[trigger] sets_mode(argv, j)) {
                assert forall|j: int| i - n < j && 0 <= j < rest.len() implies !#[trigger] sets_mode(
                    rest,
                    j,
                ) by {
                    assert(sets_mode(argv, j + n) == sets_mode(rest, j));
                }
            }
            if i < argv.len() && (forall|j: int|
                i < j < argv.len() ==> !#[trigger] sets_output(argv, j)) {
                assert forall|j: int|
                    i - n < j && 0 <= j < rest.len() implies !#[trigger] sets_output(rest, j) by {
                    assert(sets_output(argv, j + n) == sets_output(rest, j));
                }
            }
            if forall|j: int| 0 <= j < argv.len() ==> !#[trigger] sets_mode(argv, j) {
                assert(!sets_mode(argv, 0));
                assert forall|j: int| 0 <= j < rest.len() implies !#[trigger] sets_mode(rest, j) by {
                    assert(sets_mode(argv, j + n) == sets_mode(rest, j));
                }
            }
            if forall|j: int| 0 <= j < argv.len() ==> !#[trigger] sets_output(argv, j) {
                assert(!sets_output(argv, 0));
                assert forall|j: int| 0 <= j < rest.len() implies !#[trigger] sets_output(
                    rest,
                    j,
                ) by {
                    assert(sets_output(argv, j + n) == sets_output(rest, j));
                }
            }
        }
    }
}

/// What is taken is what the last `--all` or `--select` says, wherever the other options stand: the
/// whole desktop, or the rectangle that its argument describes; without either it is for the user
/// to draw. Likewise a file is the one that the last `--output` names.
pub proof fn the_last_rectangle_and_the_last_file_count(argv: Seq<Seq<char>>, i: int)
    requires
        0 <= i < argv.len() || argv.len() == 0 == i,
    ensures
        parsed(argv, ArgsState::initial()) matches Ok(CommandState::Run(asked)) ==> {
            &&& !given(argv, "--all"@) && !given(argv, "--select"@) ==> asked.mode is Region
            &&& i < argv.len() && is_option(argv, i) && argv[i] == "--all"@ && (forall|j: int|
                i < j < argv.len() && is_option(argv, j) ==> #[trigger] argv[j] != "--select"@)
                ==> asked.mode is All
            &&& i < argv.len() && is_option(argv, i) && argv[i] == "--select"@ && (forall|j: int|
                i < j < argv.len() && is_option(argv, j) ==> #[trigger] argv[j] != "--all"@
                    && argv[j] != "--select"@) ==> i + 1 < argv.len() && (rect_of(
                argv[i + 1],
            ) matches Ok(rect) && asked.mode == Mode::Preset(rect))
            &&& !given(argv, "--output"@) ==> asked.output is None
            &&& i < argv.len() && is_option(argv, i) && argv[i] == "--output"@ && (forall|j: int|
                i < j < argv.len() && is_option(argv, j) ==> #[trigger] argv[j] != "--output"@)
                ==> i + 1 < argv.len() && asked.output == Some(path::bytes_of(argv[i + 1]))
        },
{
    let args = ArgsState::initial();
    the_last_decides_after(argv, args, i);
    if parsed(argv, args) matches Ok(CommandState::Run(_)) {
        if !given(argv, "--all"@) && !given(argv, "--select"@) {
            assert forall|j: int| 0 <= j < argv.len() implies !#[trigger] sets_mode(argv, j) by {
                assert(argv[j] == argv[j]);
            }
        }
        if !given(argv, "--output"@) {
            assert forall|j: int| 0 <= j < argv.len() implies !#[trigger] sets_output(argv, j) by {
                assert(argv[j] == argv[j]);
            }
        }
        if i < argv.len() && is_option(argv, i) && argv[i] == "--all"@ && (forall|j: int|
            i < j < argv.len() && is_option(argv, j) ==> #[trigger] argv[j] != "--select"@) {
            let last = last_of_all(argv, i);
            the_last_decides_after(argv, args, last);
        }
    }
}

/// Where only `--all` is left after an `--all`, there is a last one.
proof fn last_of_all(argv: Seq<Seq<char>>, i: int) -> (last: int)
    requires
        0 <= i < argv.len(),
        is_option(argv, i) && argv[i] == "--all"@,
        forall|j: int|
            i < j < argv.len() && is_option(argv, j) ==> #[trigger] argv[j] != "--select"@,
    ensures
        i <= last < argv.len(),
        is_option(argv, last) && argv[last] == "--all"@,
        forall|j: int| last < j < argv.len() ==> !#[trigger] sets_mode(argv, j),
    decreases argv.len() - i,
{
    if exists|j: int| i < j < argv.len() && #[trigger] sets_mode(argv, j) {
        let j = choose|j: int| i < j < argv.len() && #[trigger] sets_mode(argv, j);
        assert(argv[j] != "--select"@);
        last_of_all(argv, j)
    } else {
        i
    }
}

/// Whether reading the arguments ends at `i`: with the version or the help text, or because the
/// option is unknown, or has no argument, or one that describes no rectangle.
pub open spec fn ends_at(argv: Seq<Seq<char>>, i: int) -> bool {
    let option = argv[i];
    &&& is_option(argv, i)
    &&& if option == "--select"@ {
        i + 1 >= argv.len() || rect_of(argv[i + 1]) is Err
    } else if option == "--output"@ {
        i + 1 >= argv.len()
    } else {
        option != "--all"@ && option != "--copy"@ && option != "--no-ui"@ && option != "--portal"@
    }
}

/// What the arguments come to is decided by the first of them that ends the reading; where none
/// does, they ask for a run.
pub proof fn the_first_that_ends_the_reading_decides(
    argv: Seq<Seq<char>>,
    args: ArgsState,
    i: int,
)
    requires
        0 <= i <= argv.len(),
        forall|j: int| 0 <= j < i ==> !#[trigger] ends_at(argv, j),
        i < argv.len() ==> ends_at(argv, i),
    ensures
        i == argv.len() ==> (parsed(argv, args) matches Ok(CommandState::Run(_))),
        i < argv.len() && (argv[i] == "--version"@ || argv[i] == "-V"@) ==> (parsed(
            argv,
            args,
        ) matches Ok(CommandState::Version)),
        i < argv.len() && (argv[i] == "--help"@ || argv[i] == "-h"@) ==> (parsed(
            argv,
            args,
        ) matches Ok(CommandState::Help)),
        i < argv.len() && argv[i] == "--select"@ && i + 1 == argv.len() ==> parsed(argv, args)
            == Err::<CommandState, Seq<char>>("--select needs X,Y,W,H"@),
        i < argv.len() && argv[i] == "--select"@ && i + 1 < argv.len() ==> (rect_of(
            argv[i + 1],
        ) matches Err(why) && parsed(argv, args) == Err::<CommandState, Seq<char>>(why)),
        i < argv.len() && argv[i] == "--output"@ ==> parsed(argv, args) == Err::<
            CommandState,
            Seq<char>,
        >("--output needs a path"@),
        i < argv.len() && argv[i] != "--version"@ && argv[i] != "-V"@ && argv[i] != "--help"@
            && argv[i] != "-h"@ && argv[i] != "--select"@ && argv[i] != "--output"@ ==> parsed(
            argv,
            args,
        ) == Err::<CommandState, Seq<char>>("unknown option "@ + argv[i]),
    decreases argv.len(),
{
    if argv.len() > 0 {
        let arg = argv[0];
        options_are_distinct(arg);
        assert(is_option(argv, 0));
        if i > 0 {
            assert(!ends_at(argv, 0));
            let n = first_width(argv);
            assert(n <= argv.len());
            let rest = argv.skip(n);
            assert(rest == if n == 2 {
                argv.drop_first().drop_first()
            } else {
                argv.drop_first()
            });
            assert(argv.drop_first().len() > 0 ==> argv.drop_first()[0] == argv[1]);
            if n == 2 {
                options_after_the_first(argv, 0);
                assert(!ends_at(argv, 1));
            }
            assert(i >= n);
            assert forall|j: int| 0 <= j < rest.len() implies #[trigger] ends_at(rest, j)
                == ends_at(argv, j + n) by {
                options_after_the_first(argv, j);
                assert(rest[j] == argv[j + n]);
                if j + 1 < rest.len() {
                    assert(rest[j + 1] == argv[j + 1 + n]);
                }
            }
            let next = if arg == "--all"@ {
                ArgsState { mode: Mode::All, ..args }
            } else if arg == "--select"@ {
                ArgsState { mode: Mode::Preset(rect_of(argv[1])->Ok_0), ..args }
            } else if arg == "--output"@ {
                ArgsState { output: Some(path::bytes_of(argv[1])), save: true, ..args }
            } else if arg == "--copy"@ {
                ArgsState { copy: true, interactive: false, ..args }
            } else if arg == "--no-ui"@ {
                ArgsState { interactive: false, save: true, ..args }
            } else {
                ArgsState { portal: true, ..args }
            };
            assert(parsed(argv, args) == parsed(rest, next));
            if i < argv.len() {
                assert(ends_at(rest, i - n) == ends_at(argv, i));
                assert(rest[i - n] == argv[i]);
            }
            assert forall|j: int| 0 <= j < i - n implies !#[trigger] ends_at(rest, j) by {
                assert(!ends_at(argv, j + n));
            }
            if i + 1 < argv.len() {
                assert(rest[i - n + 1] == argv[i + 1]);
            }
            the_first_that_ends_the_reading_decides(rest, next, i - n);
        } else {
            assert(argv.drop_first().len() > 0 ==> argv.drop_first()[0] == argv[1]);
        }
    }
}

/// How a text describes a rectangle: four numbers with a comma between each two and any white space
/// around them, of which the last two, the width and the height, are more than nothing. What is
/// wrong with a text is looked for in the size first.
pub proof fn a_rectangle_is_four_numbers(
    x: Seq<char>,
    y: Seq<char>,
    w: Seq<char>,
    h: Seq<char>,
    text: Seq<char>,
)
    requires
        !x.contains(',') && !y.contains(',') && !w.contains(',') && !h.contains(','),
        text == x.push(',') + y.push(',') + w.push(',') + h,
    ensures
        ({
            let number = |s: Seq<char>| text::number_i32(text::trim(s));
            let wrong = |s: Seq<char>|
                Err::<Rect, Seq<char>>(
                    text::quoted(text::trim(s)) + " is not a number (in "@ + text::quoted(text)
                        + ")"@,
                );
            match (number(x), number(y), number(w), number(h)) {
                (_, _, None, _) => rect_of(text) == wrong(w),
                (_, _, Some(_), None) => rect_of(text) == wrong(h),
                (x_read, y_read, Some(w), Some(h)) => if w <= 0 || h <= 0 {
                    rect_of(text) == Err::<Rect, Seq<char>>(text::quoted(text) + " has no area"@)
                } else {
                    match (x_read, y_read) {
                        (None, _) => rect_of(text) == wrong(x),
                        (Some(_), None) => rect_of(text) == wrong(y),
                        (Some(x), Some(y)) => rect_of(text) == Ok::<Rect, Seq<char>>(
                            Rect { x, y, w, h },
                        ),
                    }
                },
            }
        }),
{
    text::split_without_a_separator(x, ',');
    text::split_adds_a_piece(x, ',', y);
    text::split_adds_a_piece(x.push(',') + y, ',', w);
    text::split_adds_a_piece((x.push(',') + y).push(',') + w, ',', h);
    assert(text == ((x.push(',') + y).push(',') + w).push(',') + h);
    assert(text::split(text, ',') == seq![x, y, w, h]);
}

/// A text that is not four pieces with a comma between each two describes no rectangle.
pub proof fn a_rectangle_has_three_commas(text: Seq<char>)
    ensures
        text::split(text, ',').len() != 4 ==> rect_of(text) == Err::<Rect, Seq<char>>(
            text::quoted(text) + " is not X,Y,W,H"@,
        ),
{
}

/// What the portal asks for: the whole desktop where its target is the screen, and otherwise an
/// area; with the overlay where it asks for that or for an area; saved, and not copied, to the file
/// that it names. Nothing of the command line is left but that the portal asks.
pub proof fn what_the_portal_asks_for(args: ArgsState, request: Manifest)
    ensures
        ({
            let asked = args.requested(request);
            &&& asked.mode is All <==> request.target == 1
            &&& asked.mode is Region <==> request.target != 1
            &&& asked.interactive <==> request.interactive || request.target == 4
            &&& asked.save && !asked.copy
            &&& asked.output == Some(path::bytes_of(request.path@))
            &&& asked.portal == args.portal
        }),
{
}

/// What is done with the desktop: what the user answered to the overlay, about the rectangle in the
/// answer; and where there was no overlay, what the arguments say, about the rectangle that they
/// describe or else the whole desktop.
pub proof fn an_answer_decides_over_the_arguments(args: ArgsState, bounds: Rect, rect: Rect)
    ensures
        planned(args, bounds, Some(Choice::Save(rect))) == (Plan::Take {
            rect,
            save: true,
            copy: false,
        }),
        planned(args, bounds, Some(Choice::Copy(rect))) == (Plan::Take {
            rect,
            save: false,
            copy: true,
        }),
        planned(args, bounds, Some(Choice::Canceled)) is Cancel,
        planned(args, bounds, None) matches Plan::Take { rect: taken, save, copy } && {
            &&& args.mode == Mode::Preset(rect) ==> taken == rect
            &&& args.mode is All || args.mode is Region ==> taken == bounds
            &&& save == args.save && copy == args.copy
        },
{
}

/// A picture is the encoding of the rectangle's own pixels, at the rectangle's own size.
pub proof fn a_picture_is_of_its_rectangle(shot: Shot, rect: Rect, r: Result<Vec<u8>, String>)
    requires
        pictured(shot, rect, r),
        rect.w > 0,
        rect.h > 0,
    ensures
        exists|order: ByteOrder|
            order.is_native() && shot::png_is(
                r,
                shot::png_outcome(
                    rect.w as u32,
                    rect.h as u32,
                    shot::png_encoding(
                        rect.w as u32,
                        rect.h as u32,
                        #[trigger] shot::rgb_rows(shot.regions@, order, rect),
                    ),
                ),
            ),
{
    let order = choose|order: ByteOrder|
        order.is_native() && shot::png_is(
            r,
            shot::png_outcome(
                rect.w as u32,
                rect.h as u32,
                shot::png_encoding(
                    rect.w as u32,
                    rect.h as u32,
                    #[trigger] shot.cropped(order, rect),
                ),
            ),
        );
    assert(shot::rgb_rows(shot.regions@, order, rect) == shot.cropped(order, rect));
}

/// The view of what is asked for holds all of it.
pub proof fn the_view_of_the_arguments_is_all_of_them(
    args: Args,
    command: Result<Command, String>,
)
    ensures
        args@.mode == args.mode && args@.interactive == args.interactive,
        args@.save == args.save && args@.copy == args.copy && args@.portal == args.portal,
        args.output is None ==> args@.output is None,
        args.output matches Some(path) ==> args@.output == Some(path.bytes@),
        command matches Err(why) ==> command_view(command) == Err::<CommandState, Seq<char>>(why@),
        command matches Ok(Command::Run(asked)) ==> command_view(command) == Ok::<
            CommandState,
            Seq<char>,
        >(CommandState::Run(asked@)),
        command matches Ok(Command::Version) ==> command_view(command) == Ok::<
            CommandState,
            Seq<char>,
        >(CommandState::Version),
        command matches Ok(Command::Help) ==> command_view(command) == Ok::<
            CommandState,
            Seq<char>,
        >(CommandState::Help),
{
}

/// A result by its view is the same result, with the text of what went wrong.
pub proof fn the_view_of_a_result_is_its_own(r: Result<Rect, String>)
    ensures
        r matches Ok(value) ==> result_view(r) == Ok::<Rect, Seq<char>>(value),
        r matches Err(why) ==> result_view(r) == Err::<Rect, Seq<char>>(why@),
{
}

} // verus!
