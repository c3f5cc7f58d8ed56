//! A session of the picker on a terminal: which step comes next, whatever
//! the terminal and the programs that are run report.
//!
//! The session performs nothing itself. Its driver asks for the pending
//! step, performs it, and reports how it went.

use crate::picker::{
    command_of, cursor_after, failure_words, first_cursor, invocation, invocation_for, reply_to,
    Action, App, AppView, Input, Invocation, InvocationView, Reply,
};
use crate::text::views;
use vstd::pervasive::unreached;
use vstd::prelude::*;

verus! {

/// The part of a session that failed.
#[derive(Clone, Copy, Debug, PartialEq, Eq, Structural)]
pub enum Failure {
    /// The terminal could not be taken.
    Setup,
    /// Drawing or reading an input failed.
    Loop,
    /// The program of this action could not be run, or failed.
    Action(Action),
    /// The terminal could not be given back.
    Restore,
}

/// Where a session stands.
#[derive(Clone, Copy, Debug, PartialEq, Eq, Structural)]
pub enum Stage {
    Entering,
    Drawing,
    Reading,
    Running(Action),
    Leaving,
    Closed,
}

/// What the driver reports of the step it performed.
#[derive(Clone, Copy, Debug, PartialEq, Eq, Structural)]
pub enum Event {
    /// The step was performed.
    Done,
    /// The step failed.
    Failed,
    /// The input that was read.
    Input(Input),
}

/// What the driver is to do next.
#[derive(Debug, PartialEq, Eq)]
pub enum Step {
    /// Take the terminal: raw mode, alternate screen.
    Enter,
    /// Draw the list.
    Draw,
    /// Wait for one input and report it.
    Read,
    /// Run a program and wait for it.
    Run(Invocation),
    /// Give the terminal back, as far as it was taken.
    Leave,
    /// Return: the session is over.
    Finish(Result<(), Failure>),
}

/// A step as the contracts see it.
pub enum StepView {
    Enter,
    Draw,
    Read,
    Run(InvocationView),
    Leave,
    Finish(Result<(), Failure>),
}

impl View for Step {
    type V = StepView;

    open spec fn view(&self) -> StepView {
        match self {
            Step::Enter => StepView::Enter,
            Step::Draw => StepView::Draw,
            Step::Read => StepView::Read,
            Step::Run(inv) => StepView::Run(inv@),
            Step::Leave => StepView::Leave,
            Step::Finish(result) => StepView::Finish(*result),
        }
    }
}

/// A session as the contracts see it.
pub struct SessionView {
    pub app: AppView,
    pub stage: Stage,
    /// The first failure, once there is one.
    pub failure: Option<Failure>,
}

impl SessionView {
    /// A session over `items` that has not begun.
    pub open spec fn fresh(items: Seq<Seq<char>>) -> SessionView {
        SessionView {
            app: AppView { items, cursor: first_cursor(items.len()) },
            stage: Stage::Entering,
            failure: None,
        }
    }

    pub open spec fn wf(self) -> bool {
        &&& self.app.wf()
        &&& self.stage is Running ==> self.app.cursor is Some
        &&& self.failure is Some ==> self.stage is Leaving || self.stage is Closed
    }

    /// The session in `stage`, after a failure if `failed`. The first failure
    /// is the one that is kept.
    pub open spec fn moved(self, stage: Stage, failed: Option<Failure>) -> SessionView {
        SessionView {
            app: self.app,
            stage,
            failure: if self.failure is Some {
                self.failure
            } else {
                failed
            },
        }
    }

    /// The session after the driver has reported `event` of the pending step.
    /// Of every step but reading, any report other than `Done` counts as a
    /// failure. After a failure the terminal is given back, also where it
    /// could not be taken, or not wholly.
    pub open spec fn after(self, event: Event) -> SessionView {
        match self.stage {
            Stage::Entering => match event {
                Event::Done => self.moved(Stage::Drawing, None),
                _ => self.moved(Stage::Leaving, Some(Failure::Setup)),
            },
            Stage::Drawing => match event {
                Event::Done => self.moved(Stage::Reading, None),
                _ => self.moved(Stage::Leaving, Some(Failure::Loop)),
            },
            Stage::Reading => match event {
                Event::Input(input) => {
                    let command = command_of(input);
                    let app = AppView {
                        items: self.app.items,
                        cursor: cursor_after(self.app.cursor, self.app.items.len(), command),
                    };
                    let stage = match reply_to(self.app.cursor, command) {
                        Reply::Stay => Stage::Drawing,
                        Reply::Quit => Stage::Leaving,
                        Reply::Run(action) => Stage::Running(action),
                    };
                    SessionView { app, stage, failure: self.failure }
                },
                Event::Done => self.moved(Stage::Drawing, None),
                Event::Failed => self.moved(Stage::Leaving, Some(Failure::Loop)),
            },
            Stage::Running(action) => match event {
                Event::Done => self.moved(Stage::Leaving, None),
                _ => self.moved(Stage::Leaving, Some(Failure::Action(action))),
            },
            Stage::Leaving => match event {
                Event::Done => self.moved(Stage::Closed, None),
                _ => self.moved(Stage::Closed, Some(Failure::Restore)),
            },
            Stage::Closed => self,
        }
    }

    /// The step that is pending.
    pub open spec fn step(self) -> StepView {
        match self.stage {
            Stage::Entering => StepView::Enter,
            Stage::Drawing => StepView::Draw,
            Stage::Reading => StepView::Read,
            Stage::Running(action) => StepView::Run(
                invocation_for(action, self.app.current().unwrap()),
            ),
            Stage::Leaving => StepView::Leave,
            Stage::Closed => StepView::Finish(
                match self.failure {
                    Some(failure) => Err(failure),
                    None => Ok(()),
                },
            ),
        }
    }

    /// The session after `events`, reported one after the other.
    pub open spec fn run(self, events: Seq<Event>) -> SessionView
        decreases events.len(),
    {
        if events.len() == 0 {
            self
        } else {
            self.after(events[0]).run(events.drop_first())
        }
    }

    /// How often the terminal is taken while `events` are reported: the
    /// number of reports that are of a step `Enter`.
    pub open spec fn enters(self, events: Seq<Event>) -> nat
        decreases events.len(),
    {
        if events.len() == 0 {
            0
        } else {
            let here: nat = if self.step() is Enter {
                1
            } else {
                0
            };
            here + self.after(events[0]).enters(events.drop_first())
        }
    }

    /// How often the terminal is given back while `events` are reported: the
    /// number of reports that are of a step `Leave`.
    pub open spec fn leaves(self, events: Seq<Event>) -> nat
        decreases events.len(),
    {
        if events.len() == 0 {
            0
        } else {
            let here: nat = if self.step() is Leave {
                1
            } else {
                0
            };
            here + self.after(events[0]).leaves(events.drop_first())
        }
    }
}

/// A session of the picker.
pub struct Session {
    app: App,
    stage: Stage,
    failure: Option<Failure>,
}

impl View for Session {
    type V = SessionView;

    closed spec fn view(&self) -> SessionView {
        SessionView { app: self.app@, stage: self.stage, failure: self.failure }
    }
}

/// The words that say which part failed, and of an action which one.
pub open spec fn context_of(failure: Failure) -> Seq<char> {
    match failure {
        Failure::Setup => "setup failed"@,
        Failure::Loop => "app loop failed"@,
        Failure::Action(action) => failure_words(action),
        Failure::Restore => "restore terminal failed"@,
    }
}

impl Failure {
    /// The words that say which part failed.
    pub fn context(&self) -> (words: &'static str)
        ensures
            words@ == context_of(*self),
    {
        match self {
            Failure::Setup => "setup failed",
            Failure::Loop => "app loop failed",
            Failure::Action(action) => action.context(),
            Failure::Restore => "restore terminal failed",
        }
    }
}

impl Session {
    #[verifier::type_invariant]
    pub open spec fn inv(self) -> bool {
        self@.wf()
    }

    /// A session over `items`. Its first step is to take the terminal.
    pub fn new(items: Vec<String>) -> (session: Session)
        ensures
            session@ == SessionView::fresh(views(items@)),
    {
        let app = App::new(items);
        Session { app, stage: Stage::Entering, failure: None }
    }

    /// The picker, for drawing.
    pub fn app(&self) -> (app: &App)
        ensures
            app@ == self@.app,
    {
        &self.app
    }

    /// The step that the driver is to perform now.
    pub fn pending(&self) -> (step: Step)
        ensures
            step@ == self@.step(),
            self@.wf(),
    {
        proof {
            use_type_invariant(self);
        }
        match self.stage {
            Stage::Entering => Step::Enter,
            Stage::Drawing => Step::Draw,
            Stage::Reading => Step::Read,
            Stage::Running(action) => match self.app.current() {
                Some(url) => Step::Run(invocation(action, url)),
                None => unreached(),
            },
            Stage::Leaving => Step::Leave,
            Stage::Closed => Step::Finish(
                match self.failure {
                    Some(failure) => Err(failure),
                    None => Ok(()),
                },
            ),
        }
    }

    /// Takes the driver's report of the pending step.
    pub fn report(&mut self, event: Event)
        ensures
            final(self)@ == old(self)@.after(event),
    {
        proof {
            use_type_invariant(&*self);
        }
        match self.stage {
            Stage::Entering => match event {
                Event::Done => {
                    self.stage = Stage::Drawing;
                },
                _ => {
                    self.stage = Stage::Leaving;
                    self.failure = Some(Failure::Setup);
                },
            },
            Stage::Drawing => match event {
                Event::Done => {
                    self.stage = Stage::Reading;
                },
                _ => {
                    self.stage = Stage::Leaving;
                    self.failure = Some(Failure::Loop);
                },
            },
            Stage::Reading => match event {
                Event::Input(input) => {
                    let reply = self.app.on_input(input);
                    self.stage =
                    match reply {
                        Reply::Stay => Stage::Drawing,
                        Reply::Quit => Stage::Leaving,
                        Reply::Run(action) => Stage::Running(action),
                    };
                },
                Event::Done => {
                    self.stage = Stage::Drawing;
                },
                Event::Failed => {
                    self.stage = Stage::Leaving;
                    self.failure = Some(Failure::Loop);
                },
            },
            Stage::Running(action) => {
                self.stage = Stage::Leaving;
                match event {
                    Event::Done => {},
                    _ => {
                        self.failure = Some(Failure::Action(action));
                    },
                }
            },
            Stage::Leaving => {
                self.stage = Stage::Closed;
                match event {
                    Event::Done => {},
                    _ => {
                        if self.failure.is_none() {
                            self.failure = Some(Failure::Restore);
                        }
                    },
                }
            },
            Stage::Closed => {},
        }
    }
}

/// Whatever is reported, a session stays well formed.
pub proof fn lemma_after_keeps_wf(v: SessionView, event: Event)
    requires
        v.wf(),
    ensures
        v.after(event).wf(),
{
}

/// Where running the program of an action fails, the next step gives the
/// terminal back, and the step after it, however that went, returns the
/// failure of that action.
pub proof fn lemma_failed_action_gives_terminal_back(
    v: SessionView,
    action: Action,
    report: Event,
    then: Event,
)
    requires
        v.wf(),
        v.stage == Stage::Running(action),
        report != Event::Done,
    ensures
        v.after(report).step() == StepView::Leave,
        v.after(report).after(then).step() == StepView::Finish(Err(Failure::Action(action))),
{
}

/// Once a session has taken its first report, it gives the terminal back
/// exactly on closing; it never takes it again, and once closed it stays as
/// it is.
pub proof fn lemma_gives_back_on_closing(v: SessionView, events: Seq<Event>)
    requires
        v.wf(),
        !(v.stage is Entering),
    ensures
        v.enters(events) == 0,
        v.leaves(events) == if !(v.stage is Closed) && v.run(events).stage is Closed {
            1nat
        } else {
            0nat
        },
        v.stage is Closed ==> v.run(events) == v,
    decreases events.len(),
{
    if events.len() > 0 {
        let next = v.after(events[0]);
        lemma_after_keeps_wf(v, events[0]);
        lemma_gives_back_on_closing(next, events.drop_first());
    }
}

/// In a whole session the terminal is taken exactly once and given back
/// exactly once, whatever fails: `Enter` is the step of the first report and
/// of no other, and `Leave` has been performed once where the session is
/// over, and not at all before that.
pub proof fn lemma_terminal_taken_and_given_back_once(
    items: Seq<Seq<char>>,
    events: Seq<Event>,
)
    requires
        events.len() > 0,
    ensures
        SessionView::fresh(items).enters(events) == 1,
        SessionView::fresh(items).leaves(events) == if SessionView::fresh(items).run(
            events,
        ).stage is Closed {
            1nat
        } else {
            0nat
        },
{
    let v = SessionView::fresh(items);
    let next = v.after(events[0]);
    lemma_after_keeps_wf(v, events[0]);
    lemma_gives_back_on_closing(next, events.drop_first());
}

/// Whatever is reported, and however often, a session stays well formed.
pub proof fn lemma_run_keeps_wf(v: SessionView, events: Seq<Event>)
    requires
        v.wf(),
    ensures
        v.run(events).wf(),
    decreases events.len(),
{
    if events.len() > 0 {
        lemma_after_keeps_wf(v, events[0]);
        lemma_run_keeps_wf(v.after(events[0]), events.drop_first());
    }
}

/// Reports may be taken in two parts.
pub proof fn lemma_run_in_parts(v: SessionView, first: Seq<Event>, rest: Seq<Event>)
    ensures
        v.run(first + rest) == v.run(first).run(rest),
        v.leaves(first + rest) == v.leaves(first) + v.run(first).leaves(rest),
        v.enters(first + rest) == v.enters(first) + v.run(first).enters(rest),
    decreases first.len(),
{
    if first.len() > 0 {
        assert((first + rest).drop_first() =~= first.drop_first() + rest);
        lemma_run_in_parts(v.after(first[0]), first.drop_first(), rest);
    }
}

/// A failure, once there is one, is the failure that the session ends with.
pub proof fn lemma_first_failure_is_kept(v: SessionView, events: Seq<Event>)
    requires
        v.wf(),
        v.failure is Some,
    ensures
        v.run(events).failure == v.failure,
    decreases events.len(),
{
    if events.len() > 0 {
        lemma_after_keeps_wf(v, events[0]);
        lemma_first_failure_is_kept(v.after(events[0]), events.drop_first());
    }
}

/// Where an action fails, the session gives the terminal back exactly once
/// before it returns, and what it returns is the failure of that action: of a
/// session that ran `before`, then had the failure of the program reported,
/// and is over after `rest`.
pub proof fn lemma_failed_action_is_returned_after_one_leave(
    items: Seq<Seq<char>>,
    before: Seq<Event>,
    action: Action,
    report: Event,
    rest: Seq<Event>,
)
    requires
        SessionView::fresh(items).run(before).stage == Stage::Running(action),
        report != Event::Done,
        SessionView::fresh(items).run(before + seq![report] + rest).stage is Closed,
    ensures
        SessionView::fresh(items).leaves(before + seq![report] + rest) == 1,
        SessionView::fresh(items).leaves(before + seq![report]) == 0,
        SessionView::fresh(items).run(before + seq![report] + rest).step() == StepView::Finish(
            Err(Failure::Action(action)),
        ),
{
    let fresh = SessionView::fresh(items);
    let running = fresh.run(before);
    let failed = running.after(report);
    let tail = seq![report] + rest;
    assert(before + seq![report] + rest =~= before + tail);
    lemma_run_in_parts(fresh, before, tail);
    lemma_run_in_parts(fresh, before, seq![report]);
    lemma_run_keeps_wf(fresh, before);
    lemma_terminal_taken_and_given_back_once(items, before);
    lemma_gives_back_on_closing(running, tail);
    lemma_gives_back_on_closing(running, seq![report]);
    assert(seq![report].drop_first() =~= Seq::<Event>::empty());
    assert(failed.run(Seq::empty()) == failed);
    assert(tail.drop_first() =~= rest);
    lemma_after_keeps_wf(running, report);
    lemma_first_failure_is_kept(failed, rest);
    lemma_run_keeps_wf(failed, rest);
}

} // verus!
