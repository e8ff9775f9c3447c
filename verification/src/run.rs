//! The end of a run: what becomes of the picture once the user, or the command line, has settled
//! on a part of the frozen desktop.
//!
//! Copying, writing and answering are for the program around the library. [`Run`] says which of
//! them comes next, and is told how each of them went.

use crate::cli;
use crate::cli::{Args, ArgsState, Mode, Plan, Report};
use crate::geometry::Rect;
use crate::path;
use crate::path::UnixPath;
use crate::portal::Manifest;
use crate::shot;
use crate::shot::Shot;
use crate::text;
use crate::ui::Choice;
use vstd::prelude::*;

verus! {

/// What is done next.
#[derive(Debug)]
pub enum Action {
    /// Put the picture on the clipboard.
    Copy,
    /// Find a place for the file in the configured directory.
    Place,
    /// Write the picture to this file.
    Write(UnixPath),
    /// Answer the portal with where the file is.
    Answer(UnixPath),
    /// Tell the user where the file is.
    Tell(UnixPath),
    /// Nothing more: the run took a shot, was canceled, or failed.
    End(Result<bool, String>),
}

/// What is done next, with paths and texts by their views.
pub enum ActionState {
    Copy,
    Place,
    Write(Seq<u8>),
    Answer(Seq<u8>),
    Tell(Seq<u8>),
    End(Result<bool, Seq<char>>),
}

impl View for Action {
    type V = ActionState;

    open spec fn view(&self) -> ActionState {
        match *self {
            Action::Copy => ActionState::Copy,
            Action::Place => ActionState::Place,
            Action::Write(path) => ActionState::Write(path@),
            Action::Answer(path) => ActionState::Answer(path@),
            Action::Tell(path) => ActionState::Tell(path@),
            Action::End(result) => ActionState::End(cli::result_view(result)),
        }
    }
}

/// How an action went. Where one can fail, what went wrong.
#[derive(Debug)]
pub enum Event {
    Copied(Option<String>),
    Placed(Result<UnixPath, String>),
    Written(UnixPath, Option<String>),
    Answered(Option<String>),
    Told,
}

/// How an action went, with paths and texts by their views.
pub enum EventState {
    Copied(Option<Seq<char>>),
    Placed(Result<Seq<u8>, Seq<char>>),
    Written(Seq<u8>, Option<Seq<char>>),
    Answered(Option<Seq<char>>),
    Told,
}

/// What went wrong, if anything, by its view.
pub open spec fn failure_view(failure: Option<String>) -> Option<Seq<char>> {
    match failure {
        Some(why) => Some(why@),
        None => None,
    }
}

impl View for Event {
    type V = EventState;

    open spec fn view(&self) -> EventState {
        match *self {
            Event::Copied(failure) => EventState::Copied(failure_view(failure)),
            Event::Placed(Ok(path)) => EventState::Placed(Ok(path@)),
            Event::Placed(Err(why)) => EventState::Placed(Err(why@)),
            Event::Written(path, failure) => EventState::Written(path@, failure_view(failure)),
            Event::Answered(failure) => EventState::Answered(failure_view(failure)),
            Event::Told => EventState::Told,
        }
    }
}

/// What is to be done with the picture.
pub struct Run {
    /// The bytes of the file, or why they could not be had. None where the user said no.
    pub picture: Option<Result<Vec<u8>, String>>,
    pub save: bool,
    pub copy: bool,
    /// Where a save goes. None for the configured directory.
    pub output: Option<UnixPath>,
    /// Whether the portal asked for it.
    pub requested: bool,
}

/// What is to be done with the picture, with the path, the bytes and the text by their views.
pub struct RunState {
    pub picture: Option<Result<Seq<u8>, Seq<char>>>,
    pub save: bool,
    pub copy: bool,
    pub output: Option<Seq<u8>>,
    pub requested: bool,
}

/// A picture, or why there is none, by its view.
pub open spec fn picture_view(picture: Option<Result<Vec<u8>, String>>) -> Option<
    Result<Seq<u8>, Seq<char>>,
> {
    match picture {
        Some(Ok(file)) => Some(Ok(file@)),
        Some(Err(why)) => Some(Err(why@)),
        None => None,
    }
}

impl View for Run {
    type V = RunState;

    open spec fn view(&self) -> RunState {
        RunState {
            picture: picture_view(self.picture),
            save: self.save,
            copy: self.copy,
            output: path::path_view(self.output),
            requested: self.requested,
        }
    }
}

impl RunState {
    /// What is to be done with the picture of a plan.
    pub open spec fn of(
        args: ArgsState,
        requested: bool,
        plan: Plan,
        picture: Option<Result<Seq<u8>, Seq<char>>>,
    ) -> RunState {
        RunState {
            picture,
            save: plan matches Plan::Take { save, .. } && save,
            copy: plan matches Plan::Take { copy, .. } && copy,
            output: args.output,
            requested,
        }
    }

    /// What comes first: the copy, if one is asked for, and the file after it. Without a picture
    /// nothing is done at all.
    pub open spec fn start(self) -> ActionState {
        match self.picture {
            None => ActionState::End(Ok(false)),
            Some(Err(why)) => ActionState::End(Err(why)),
            Some(Ok(_)) => if self.copy {
                ActionState::Copy
            } else {
                self.after_copying()
            },
        }
    }

    /// What comes once the copy is out of the way. A portal request that produced no file is a
    /// failure and not a cancel: the portal always names a path and always asks for it to be
    /// written.
    pub open spec fn after_copying(self) -> ActionState {
        if self.save {
            match self.output {
                Some(path) => ActionState::Write(path),
                None => ActionState::Place,
            }
        } else if self.requested {
            ActionState::End(Err("the portal asked for a file and none was written"@))
        } else {
            ActionState::End(Ok(true))
        }
    }

    /// What comes after an action went like this. What goes wrong ends the run.
    pub open spec fn next(self, event: EventState) -> ActionState {
        match event {
            EventState::Copied(None) => self.after_copying(),
            EventState::Copied(Some(why)) => ActionState::End(Err(why)),
            EventState::Placed(Ok(path)) => ActionState::Write(path),
            EventState::Placed(Err(why)) => ActionState::End(Err(why)),
            EventState::Written(path, None) => if self.requested {
                ActionState::Answer(path)
            } else {
                ActionState::Tell(path)
            },
            EventState::Written(_, Some(why)) => ActionState::End(Err(why)),
            EventState::Answered(None) => ActionState::End(Ok(true)),
            EventState::Answered(Some(why)) => ActionState::End(Err(why)),
            EventState::Told => ActionState::End(Ok(true)),
        }
    }
}

impl Run {
    /// Take the picture that a plan asks for, and say what is to be done with it. `requested` says
    /// whether the portal asked for it.
    pub fn new(shot: &Shot, args: &Args, requested: bool, plan: Plan) -> (r: Run)
        requires
            plan matches Plan::Take { rect, .. } ==> shot::croppable(rect),
        ensures
            r@ == RunState::of(args@, requested, plan, r@.picture),
            r.picture is None <==> plan is Cancel,
            r.picture matches Some(png) ==> (plan matches Plan::Take { rect, .. }
                && cli::pictured(*shot, rect, png) && (png is Ok <==> !rect.empty())),
    {
        let picture = cli::picture(shot, plan);
        let (save, copy) = match plan {
            Plan::Take { save, copy, .. } => (save, copy),
            Plan::Cancel => (false, false),
        };
        let output = match &args.output {
            Some(path) => Some(path.copy()),
            None => None,
        };
        Run { picture, save, copy, output, requested }
    }

    /// What comes first.
    pub fn start(&self) -> (r: Action)
        ensures
            r@ == self@.start(),
    {
        match &self.picture {
            None => Action::End(Ok(false)),
            Some(Err(why)) => Action::End(Err(why.clone())),
            Some(Ok(_)) => if self.copy {
                Action::Copy
            } else {
                self.after_copying()
            },
        }
    }

    /// What comes once the copy is out of the way.
    fn after_copying(&self) -> (r: Action)
        ensures
            r@ == self@.after_copying(),
    {
        if self.save {
            return match &self.output {
                Some(path) => Action::Write(path.copy()),
                None => Action::Place,
            };
        }
        match cli::report(self.requested, false) {
            Ok(_) => Action::End(Ok(true)),
            Err(why) => Action::End(Err(why)),
        }
    }

    /// What comes after an action went like this.
    pub fn next(&self, event: Event) -> (r: Action)
        ensures
            r@ == self@.next(event@),
    {
        match event {
            Event::Copied(None) => self.after_copying(),
            Event::Copied(Some(why)) => Action::End(Err(why)),
            Event::Placed(Ok(path)) => Action::Write(path),
            Event::Placed(Err(why)) => Action::End(Err(why)),
            Event::Written(path, None) => match cli::report(self.requested, true) {
                Ok(Report::Answer) => Action::Answer(path),
                _ => Action::Tell(path),
            },
            Event::Written(_, Some(why)) => Action::End(Err(why)),
            Event::Answered(None) => Action::End(Ok(true)),
            Event::Answered(Some(why)) => Action::End(Err(why)),
            Event::Told => Action::End(Ok(true)),
        }
    }
}

/// Whether an event says how an action went. Nothing follows the end.
pub open spec fn answers(action: ActionState, event: EventState) -> bool {
    match action {
        ActionState::Copy => event is Copied,
        ActionState::Place => event is Placed,
        ActionState::Write(path) => event matches EventState::Written(file, _) && file == path,
        ActionState::Answer(_) => event is Answered,
        ActionState::Tell(_) => event is Told,
        ActionState::End(_) => false,
    }
}

/// Whether a whole run did these actions, which went like these events.
pub open spec fn is_story(
    run: RunState,
    actions: Seq<ActionState>,
    events: Seq<EventState>,
) -> bool {
    &&& actions.len() == events.len() + 1
    &&& actions[0] == run.start()
    &&& actions.last() is End
    &&& forall|i: int|
        #![trigger events[i]]
        0 <= i < events.len() ==> answers(actions[i], events[i]) && actions[i + 1] == run.next(
            events[i],
        )
}

/// Whether the picture was put on the clipboard.
pub open spec fn copied(events: Seq<EventState>) -> bool {
    exists|i: int| 0 <= i < events.len() && #[trigger] events[i] == EventState::Copied(None)
}

/// Whether the picture was written to this file.
pub open spec fn written(events: Seq<EventState>, file: Seq<u8>) -> bool {
    exists|i: int| 0 <= i < events.len() && #[trigger] events[i] == EventState::Written(file, None)
}

/// Whether the portal was answered with this file, and took the answer.
pub open spec fn answered(
    actions: Seq<ActionState>,
    events: Seq<EventState>,
    file: Seq<u8>,
) -> bool {
    exists|i: int|
        0 <= i < events.len() && #[trigger] events[i] == EventState::Answered(None) && actions[i]
            == ActionState::Answer(file)
}

/// A run goes on until its end, and no further.
proof fn a_story_goes_on(
    run: RunState,
    actions: Seq<ActionState>,
    events: Seq<EventState>,
    k: int,
)
    requires
        is_story(run, actions, events),
        0 <= k < actions.len(),
    ensures
        actions[k] is End <==> k == events.len(),
        !(actions[k] is End) ==> answers(actions[k], events[k]) && actions[k + 1] == run.next(
            events[k],
        ),
{
    if k < events.len() {
        assert(answers(actions[k], events[k]));
    }
}

/// From the file on, a run that ends well has done what it was to do.
proof fn the_file_is_dealt_with(
    run: RunState,
    actions: Seq<ActionState>,
    events: Seq<EventState>,
    k: int,
)
    requires
        is_story(run, actions, events),
        0 <= k < actions.len(),
        actions[k] == run.after_copying(),
        actions.last() == ActionState::End(Ok::<bool, Seq<char>>(true)),
    ensures
        run.requested ==> run.save,
        run.save ==> exists|file: Seq<u8>| #[trigger]
            written(events, file) && (run.output matches Some(path) ==> file == path) && (
            run.requested ==> answered(actions, events, file)),
{
    a_story_goes_on(run, actions, events, k);
    if run.save {
        let w = if run.output is None {
            k + 1
        } else {
            k
        };
        a_story_goes_on(run, actions, events, k + 1);
        assert(actions[w] is Write);
        let file = actions[w]->Write_0;
        a_story_goes_on(run, actions, events, w);
        a_story_goes_on(run, actions, events, w + 1);
        assert(events[w] == EventState::Written(file, None));
        assert(written(events, file));
        if run.requested {
            a_story_goes_on(run, actions, events, w + 2);
            assert(events[w + 1] == EventState::Answered(None));
            assert(answered(actions, events, file));
        }
    }
}

/// A run that took a shot had a picture, and did all that it was to do with it: a copy, if one was
/// asked for, is on the clipboard; a save is in the file that was asked for, if one was; and the
/// portal, if it asked, has been answered with that file, which there always is then.
pub proof fn a_run_that_took_a_shot_did_all_it_was_to_do(
    run: RunState,
    actions: Seq<ActionState>,
    events: Seq<EventState>,
)
    requires
        is_story(run, actions, events),
        actions.last() == ActionState::End(Ok::<bool, Seq<char>>(true)),
    ensures
        run.picture matches Some(Ok(_)),
        run.copy ==> copied(events),
        run.requested ==> run.save,
        run.save ==> exists|file: Seq<u8>| #[trigger]
            written(events, file) && (run.output matches Some(path) ==> file == path) && (
            run.requested ==> answered(actions, events, file)),
{
    a_story_goes_on(run, actions, events, 0);
    if run.copy {
        a_story_goes_on(run, actions, events, 1);
        assert(events[0] == EventState::Copied(None));
        the_file_is_dealt_with(run, actions, events, 1);
    } else {
        the_file_is_dealt_with(run, actions, events, 0);
    }
}

/// However a run ends, it does nothing that it was not to do: it copies only if a copy was asked
/// for, writes only if a save was, and to no file but the one that was asked for, and answers only
/// a portal that asked, with a file that it wrote.
pub proof fn a_run_does_nothing_else(
    run: RunState,
    actions: Seq<ActionState>,
    events: Seq<EventState>,
    file: Seq<u8>,
)
    requires
        is_story(run, actions, events),
    ensures
        copied(events) ==> run.copy,
        written(events, file) ==> run.save && (run.output matches Some(path) ==> file == path),
        answered(actions, events, file) ==> run.requested && written(events, file),
{
    assert forall|i: int| 0 <= i < events.len() implies {
        &&& #[trigger] actions[i] is Copy ==> run.copy
        &&& actions[i] is Place ==> run.save && run.output is None
        &&& actions[i] matches ActionState::Write(path) ==> run.save && (run.output matches Some(
            output,
        ) ==> path == output)
        &&& actions[i] matches ActionState::Answer(path) ==> run.requested && written(events, path)
    } by {
        a_story_goes_on(run, actions, events, i);
        if i > 0 {
            a_story_goes_on(run, actions, events, i - 1);
            let before = events[i - 1];
            if before is Placed && i > 1 {
                a_story_goes_on(run, actions, events, i - 2);
            }
        }
    }
    if copied(events) {
        let i = choose|i: int|
            0 <= i < events.len() && #[trigger] events[i] == EventState::Copied(None);
        assert(answers(actions[i], events[i]));
    }
    if written(events, file) {
        let i = choose|i: int|
            0 <= i < events.len() && #[trigger] events[i] == EventState::Written(file, None);
        assert(answers(actions[i], events[i]));
    }
    if answered(actions, events, file) {
        let i = choose|i: int|
            0 <= i < events.len() && #[trigger] events[i] == EventState::Answered(None)
                && actions[i] == ActionState::Answer(file);
        assert(actions[i] is Answer);
    }
}

/// A run is canceled if and only if the overlay was shown and the user said no to it. Nothing is
/// copied, written or answered then: the run does nothing but end.
pub proof fn only_the_user_cancels_a_run(
    args: ArgsState,
    requested: bool,
    bounds: Rect,
    answer: Option<Choice>,
    picture: Option<Result<Seq<u8>, Seq<char>>>,
    actions: Seq<ActionState>,
    events: Seq<EventState>,
)
    requires
        picture is None <==> cli::planned(args, bounds, answer) is Cancel,
        is_story(
            RunState::of(args, requested, cli::planned(args, bounds, answer), picture),
            actions,
            events,
        ),
    ensures
        actions.last() == ActionState::End(Ok::<bool, Seq<char>>(false)) <==> answer == Some(
            Choice::Canceled,
        ),
        answer == Some(Choice::Canceled) ==> actions.len() == 1,
{
    let run = RunState::of(args, requested, cli::planned(args, bounds, answer), picture);
    a_story_goes_on(run, actions, events, 0);
    if events.len() > 0 {
        a_story_goes_on(run, actions, events, events.len() - 1);
    }
}

/// A portal that asks for a picture gets it or a failure. If the run took a shot, the picture is
/// in the file that the portal named, and the portal has been answered with that file. A user who
/// copies instead of saving makes the run fail.
pub proof fn the_portal_gets_its_file(
    args: ArgsState,
    request: Manifest,
    bounds: Rect,
    answer: Option<Choice>,
    picture: Option<Result<Seq<u8>, Seq<char>>>,
    actions: Seq<ActionState>,
    events: Seq<EventState>,
)
    requires
        picture is None <==> cli::planned(args.requested(request), bounds, answer) is Cancel,
        is_story(
            RunState::of(
                args.requested(request),
                true,
                cli::planned(args.requested(request), bounds, answer),
                picture,
            ),
            actions,
            events,
        ),
    ensures
        actions.last() == ActionState::End(Ok::<bool, Seq<char>>(true)) ==> {
            &&& written(events, path::bytes_of(request.path@))
            &&& answered(actions, events, path::bytes_of(request.path@))
        },
        answer matches Some(Choice::Copy(_)) ==> (actions.last() matches ActionState::End(Err(_))),
{
    let run = RunState::of(
        args.requested(request),
        true,
        cli::planned(args.requested(request), bounds, answer),
        picture,
    );
    if actions.last() == ActionState::End(Ok::<bool, Seq<char>>(true)) {
        a_run_that_took_a_shot_did_all_it_was_to_do(run, actions, events);
    }
    only_the_user_cancels_a_run(
        args.requested(request),
        true,
        bounds,
        answer,
        picture,
        actions,
        events,
    );
    let end = actions.last()->End_0;
    match end {
        Ok(taken) => {
            assert(taken || actions.last() == ActionState::End(Ok::<bool, Seq<char>>(false)));
            assert(!taken || actions.last() == ActionState::End(Ok::<bool, Seq<char>>(true)));
        },
        Err(_) => {},
    }
}

/// Without an overlay the arguments decide: the picture is of the rectangle that they describe,
/// and otherwise of the whole desktop; nobody cancels; and a run that took a shot copied it if and
/// only if they ask for a copy, and wrote it if and only if they ask for a save.
pub proof fn without_an_overlay_the_arguments_decide(
    args: ArgsState,
    requested: bool,
    bounds: Rect,
    picture: Option<Result<Seq<u8>, Seq<char>>>,
    actions: Seq<ActionState>,
    events: Seq<EventState>,
)
    requires
        picture is Some,
        is_story(
            RunState::of(args, requested, cli::planned(args, bounds, None), picture),
            actions,
            events,
        ),
    ensures
        cli::planned(args, bounds, None) matches Plan::Take { rect, .. } && rect == (
        if let Mode::Preset(preset) = args.mode {
            preset
        } else {
            bounds
        }),
        actions.last() != ActionState::End(Ok::<bool, Seq<char>>(false)),
        actions.last() == ActionState::End(Ok::<bool, Seq<char>>(true)) ==> {
            &&& copied(events) <==> args.copy
            &&& (exists|file: Seq<u8>| #[trigger] written(events, file)) <==> args.save
        },
{
    let run = RunState::of(args, requested, cli::planned(args, bounds, None), picture);
    only_the_user_cancels_a_run(args, requested, bounds, None, picture, actions, events);
    if actions.last() == ActionState::End(Ok::<bool, Seq<char>>(true)) {
        a_run_that_took_a_shot_did_all_it_was_to_do(run, actions, events);
    }
    assert forall|file: Seq<u8>| #[trigger] written(events, file) implies args.save by {
        a_run_does_nothing_else(run, actions, events, file);
    }
    a_run_does_nothing_else(run, actions, events, Seq::empty());
}

/// What goes wrong ends a run, with what went wrong, and so does a picture that could not be had.
pub proof fn what_goes_wrong_ends_a_run(run: RunState, why: Seq<char>, file: Seq<u8>)
    ensures
        run.picture == Some(Err::<Seq<u8>, Seq<char>>(why)) ==> run.start() == ActionState::End(
            Err::<bool, Seq<char>>(why),
        ),
        run.next(EventState::Copied(Some(why))) == ActionState::End(Err::<bool, Seq<char>>(why)),
        run.next(EventState::Placed(Err(why))) == ActionState::End(Err::<bool, Seq<char>>(why)),
        run.next(EventState::Written(file, Some(why))) == ActionState::End(
            Err::<bool, Seq<char>>(why),
        ),
        run.next(EventState::Answered(Some(why))) == ActionState::End(Err::<bool, Seq<char>>(why)),
{
}

/// Where everything goes well, a run that has a picture goes like this: the copy, if one is asked
/// for; then, if a save is, a place where no file is named, the file, and a word about it, which is
/// the answer to the portal where that asked and is for the user otherwise. It ends as taken; but
/// the portal always gets a file or a failure.
pub proof fn a_run_in_which_all_goes_well(run: RunState, placed: Seq<u8>)
    requires
        run.picture matches Some(Ok(_)),
    ensures
        run.copy ==> run.start() is Copy,
        ({
            let then = if run.copy {
                run.next(EventState::Copied(None))
            } else {
                run.start()
            };
            &&& run.save && run.output is Some ==> then == ActionState::Write(run.output->0)
            &&& run.save && run.output is None ==> then is Place
            &&& !run.save && !run.requested ==> then == ActionState::End(Ok::<bool, Seq<char>>(true))
            &&& !run.save && run.requested ==> then == ActionState::End(
                Err::<bool, Seq<char>>("the portal asked for a file and none was written"@),
            )
        }),
        run.next(EventState::Placed(Ok(placed))) == ActionState::Write(placed),
        run.requested ==> run.next(EventState::Written(placed, None)) == ActionState::Answer(
            placed,
        ),
        !run.requested ==> run.next(EventState::Written(placed, None)) == ActionState::Tell(placed),
        run.next(EventState::Answered(None)) == ActionState::End(Ok::<bool, Seq<char>>(true)),
        run.next(EventState::Told) == ActionState::End(Ok::<bool, Seq<char>>(true)),
{
}

/// A run is about the picture of its plan, saved and copied as the plan says, to the file that the
/// arguments name.
pub proof fn a_run_is_about_its_plan(
    args: ArgsState,
    requested: bool,
    rect: Rect,
    save: bool,
    copy: bool,
    picture: Option<Result<Seq<u8>, Seq<char>>>,
)
    ensures
        RunState::of(args, requested, Plan::Take { rect, save, copy }, picture) == (RunState {
            picture,
            save,
            copy,
            output: args.output,
            requested,
        }),
{
}

/// The view of an action, of an event and of a run holds all of it.
pub proof fn views_hold_all_of_a_run(action: Action, event: Event, run: Run)
    ensures
        action is Copy <==> action@ is Copy,
        action is Place <==> action@ is Place,
        action matches Action::Write(path) ==> action@ == ActionState::Write(path.bytes@),
        action matches Action::Answer(path) ==> action@ == ActionState::Answer(path.bytes@),
        action matches Action::Tell(path) ==> action@ == ActionState::Tell(path.bytes@),
        action matches Action::End(Ok(taken)) ==> action@ == ActionState::End(
            Ok::<bool, Seq<char>>(taken),
        ),
        action matches Action::End(Err(why)) ==> action@ == ActionState::End(
            Err::<bool, Seq<char>>(why@),
        ),
        event matches Event::Copied(failure) ==> event@ == EventState::Copied(
            text::optional_view(failure),
        ),
        event matches Event::Placed(Ok(path)) ==> event@ == EventState::Placed(Ok(path.bytes@)),
        event matches Event::Placed(Err(why)) ==> event@ == EventState::Placed(Err(why@)),
        event matches Event::Written(path, failure) ==> event@ == EventState::Written(
            path.bytes@,
            text::optional_view(failure),
        ),
        event matches Event::Answered(failure) ==> event@ == EventState::Answered(
            text::optional_view(failure),
        ),
        event is Told <==> event@ is Told,
        run@.save == run.save && run@.copy == run.copy && run@.requested == run.requested,
        run@.output == path::path_view(run.output),
        run.picture is None ==> run@.picture is None,
        run.picture matches Some(Ok(file)) ==> run@.picture == Some(
            Ok::<Seq<u8>, Seq<char>>(file@),
        ),
        run.picture matches Some(Err(why)) ==> run@.picture == Some(
            Err::<Seq<u8>, Seq<char>>(why@),
        ),
{
}

} // verus!
