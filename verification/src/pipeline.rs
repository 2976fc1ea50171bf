//! A file-to-file run as a protocol between the filter and whoever owns the
//! files.
//!
//! The pipeline never touches a file. It names the next thing to do (open
//! the input, create the output, read a line, write a line, flush) and is
//! told how that went. The order of the steps, what is written, and which
//! error a failure becomes are decided here.

use crate::config::FilterConfig;
use crate::config::Rules;
use crate::filter::FilterReport;
use crate::filter::LineFilter;
use crate::model::kept_lines;
use crate::model::lemma_kept_lines_grow;
use crate::model::released_by;
use crate::model::tally;
use crate::model::Tally;
use vstd::prelude::*;

verus! {

/// Why a run was given up.
#[derive(Clone, Copy, Debug, PartialEq, Eq)]
pub enum FilterError {
    /// The input path does not exist.
    NotFound,
    /// Any other failure to open, read, write or flush.
    IoError,
}

/// Where a run stands: the action whose outcome it is waiting for, or how
/// it ended.
#[derive(Clone, Copy, Debug, PartialEq, Eq)]
pub enum Phase {
    /// Waiting for the input to be opened.
    OpeningInput,
    /// Waiting for the output to be created.
    CreatingOutput,
    /// Waiting for the next line of the input.
    Reading,
    /// Waiting for a released line to be written.
    Writing,
    /// Waiting for the output to be flushed.
    Flushing,
    /// The run is complete.
    Finished,
    /// The run was given up.
    Aborted(FilterError),
}

/// What the caller is asked to do next.
#[derive(Debug, PartialEq, Eq)]
pub enum Action {
    /// Open the input for reading.
    OpenInput,
    /// Create the output, or truncate it if it exists.
    CreateOutput,
    /// Read the next line of the input.
    ReadLine,
    /// Write this line to the output, as it is.
    WriteLine(String),
    /// Flush the output.
    Flush,
    /// Nothing more: the run is complete, with these counts.
    Finish(FilterReport),
    /// Nothing more: the run was given up for this reason.
    Abort(FilterError),
}

/// How the action that was asked for went.
#[derive(Debug, PartialEq, Eq)]
pub enum Event {
    /// The input was opened, the output created, a line written, or the
    /// output flushed.
    Done,
    /// A line was read. It carries its line ending if it had one.
    Line(String),
    /// There was no line left to read.
    EndOfInput,
    /// The action failed because the path does not exist.
    Missing,
    /// The action failed for any other reason.
    Failed,
}

/// An [`Action`] as a mathematical value.
pub enum ActionView {
    OpenInput,
    CreateOutput,
    ReadLine,
    WriteLine(Seq<char>),
    Flush,
    Finish(Tally),
    Abort(FilterError),
}

/// An [`Event`] as a mathematical value.
pub enum EventView {
    Done,
    Line(Seq<char>),
    EndOfInput,
    Missing,
    Failed,
}

impl View for Action {
    type V = ActionView;

    open spec fn view(&self) -> ActionView {
        match self {
            Action::OpenInput => ActionView::OpenInput,
            Action::CreateOutput => ActionView::CreateOutput,
            Action::ReadLine => ActionView::ReadLine,
            Action::WriteLine(line) => ActionView::WriteLine(line@),
            Action::Flush => ActionView::Flush,
            Action::Finish(report) => ActionView::Finish(report@),
            Action::Abort(error) => ActionView::Abort(*error),
        }
    }
}

impl View for Event {
    type V = EventView;

    open spec fn view(&self) -> EventView {
        match self {
            Event::Done => EventView::Done,
            Event::Line(line) => EventView::Line(line@),
            Event::EndOfInput => EventView::EndOfInput,
            Event::Missing => EventView::Missing,
            Event::Failed => EventView::Failed,
        }
    }
}

/// A run as a mathematical value: its phase and the lines read so far.
pub struct RunState {
    pub phase: Phase,
    pub seen: Seq<Seq<char>>,
}

/// The state of a run that has just been started: the input is being
/// opened and nothing has been read.
pub open spec fn start_state() -> RunState {
    RunState { phase: Phase::OpeningInput, seen: Seq::empty() }
}

/// The run is given up: it stays where it is and answers with the error.
pub open spec fn give_up(state: RunState, error: FilterError) -> (RunState, ActionView) {
    (RunState { phase: Phase::Aborted(error), seen: state.seen }, ActionView::Abort(error))
}

/// One step of the protocol: the state after `event`, and the next action.
///
/// The input is opened before the output is created, so a missing input
/// leaves no output behind. Only a missing input is `NotFound`; every other
/// failure, and every event that does not answer the pending action, is
/// `IoError`. A failure ends the run at once: what was written stays
/// written. At the end of the input the window is not written out.
pub open spec fn step(rules: Rules, state: RunState, event: EventView) -> (RunState, ActionView) {
    match state.phase {
        Phase::OpeningInput => match event {
            EventView::Done => (
                RunState { phase: Phase::CreatingOutput, seen: state.seen },
                ActionView::CreateOutput,
            ),
            EventView::Missing => give_up(state, FilterError::NotFound),
            _ => give_up(state, FilterError::IoError),
        },
        Phase::CreatingOutput => match event {
            EventView::Done => (
                RunState { phase: Phase::Reading, seen: state.seen },
                ActionView::ReadLine,
            ),
            _ => give_up(state, FilterError::IoError),
        },
        Phase::Reading => match event {
            EventView::Line(line) => match released_by(rules, state.seen, line) {
                Some(out) => (
                    RunState { phase: Phase::Writing, seen: state.seen.push(line) },
                    ActionView::WriteLine(out),
                ),
                None => (
                    RunState { phase: Phase::Reading, seen: state.seen.push(line) },
                    ActionView::ReadLine,
                ),
            },
            EventView::EndOfInput => (
                RunState { phase: Phase::Flushing, seen: state.seen },
                ActionView::Flush,
            ),
            _ => give_up(state, FilterError::IoError),
        },
        Phase::Writing => match event {
            EventView::Done => (
                RunState { phase: Phase::Reading, seen: state.seen },
                ActionView::ReadLine,
            ),
            _ => give_up(state, FilterError::IoError),
        },
        Phase::Flushing => match event {
            EventView::Done => (
                RunState { phase: Phase::Finished, seen: state.seen },
                ActionView::Finish(tally(rules, state.seen)),
            ),
            _ => give_up(state, FilterError::IoError),
        },
        Phase::Finished => (state, ActionView::Finish(tally(rules, state.seen))),
        Phase::Aborted(error) => (state, ActionView::Abort(error)),
    }
}

/// The state of a run that was started and then told `events`, one after
/// the other.
pub open spec fn state_after(rules: Rules, events: Seq<EventView>) -> RunState
    decreases events.len(),
{
    if events.len() == 0 {
        start_state()
    } else {
        step(rules, state_after(rules, events.drop_last()), events.last()).0
    }
}

/// The actions that `events` were answered with, one for each event. The
/// action that opens the input comes before all of them and is not among
/// them.
pub open spec fn answers(rules: Rules, events: Seq<EventView>) -> Seq<ActionView>
    decreases events.len(),
{
    if events.len() == 0 {
        Seq::empty()
    } else {
        answers(rules, events.drop_last()).push(
            step(rules, state_after(rules, events.drop_last()), events.last()).1,
        )
    }
}

/// The lines that `actions` ask to write, in order.
pub open spec fn written(actions: Seq<ActionView>) -> Seq<Seq<char>>
    decreases actions.len(),
{
    if actions.len() == 0 {
        Seq::empty()
    } else {
        let earlier = written(actions.drop_last());
        match actions.last() {
            ActionView::WriteLine(line) => earlier.push(line),
            _ => earlier,
        }
    }
}

/// The events of a run in which nothing fails, up to the point where
/// `lines` have been read and every released line has been written.
pub open spec fn clean_reading(rules: Rules, lines: Seq<Seq<char>>) -> Seq<EventView>
    decreases lines.len(),
{
    if lines.len() == 0 {
        seq![EventView::Done, EventView::Done]
    } else {
        let read = clean_reading(rules, lines.drop_last()).push(EventView::Line(lines.last()));
        if released_by(rules, lines.drop_last(), lines.last()) is Some {
            read.push(EventView::Done)
        } else {
            read
        }
    }
}

/// The events of a whole run over an input of `lines` in which nothing
/// fails.
pub open spec fn clean_run(rules: Rules, lines: Seq<Seq<char>>) -> Seq<EventView> {
    clean_reading(rules, lines).push(EventView::EndOfInput).push(EventView::Done)
}

/// One more event adds one step to the state and one action to the answers.
pub proof fn lemma_one_more_event(rules: Rules, events: Seq<EventView>, event: EventView)
    ensures
        state_after(rules, events.push(event)) == step(rules, state_after(rules, events), event).0,
        answers(rules, events.push(event)) == answers(rules, events).push(
            step(rules, state_after(rules, events), event).1,
        ),
        answers(rules, events).len() == events.len(),
    decreases events.len(),
{
    assert(events.push(event).drop_last() =~= events);
    if events.len() > 0 {
        lemma_one_more_event(rules, events.drop_last(), events.last());
        assert(events.drop_last().push(events.last()) =~= events);
    }
}

/// One more action adds its line, if it is a write, to what is written.
pub proof fn lemma_one_more_action(actions: Seq<ActionView>, action: ActionView)
    ensures
        written(actions.push(action)) == (match action {
            ActionView::WriteLine(line) => written(actions).push(line),
            _ => written(actions),
        }),
{
    assert(actions.push(action).drop_last() =~= actions);
}

/// When the input does not exist the run ends with `NotFound`, and the
/// output is never created: whatever is told to the run afterwards, every
/// answer is `Abort(NotFound)`.
pub proof fn lemma_missing_input_creates_nothing(rules: Rules, events: Seq<EventView>)
    requires
        events.len() > 0,
        events[0] is Missing,
    ensures
        state_after(rules, events) == (RunState {
            phase: Phase::Aborted(FilterError::NotFound),
            seen: Seq::empty(),
        }),
        answers(rules, events).len() == events.len(),
        forall|i: int|
            0 <= i < events.len() ==> #[trigger] answers(rules, events)[i] == ActionView::Abort(
                FilterError::NotFound,
            ),
    decreases events.len(),
{
    let earlier = events.drop_last();
    assert(earlier.push(events.last()) =~= events);
    lemma_one_more_event(rules, earlier, events.last());
    if earlier.len() > 0 {
        lemma_missing_input_creates_nothing(rules, earlier);
    }
}

/// A run that was given up stays given up: whatever it is told afterwards,
/// it answers with the same error and asks for nothing more.
pub proof fn lemma_failure_is_final(rules: Rules, state: RunState, event: EventView)
    requires
        state.phase is Aborted,
    ensures
        step(rules, state, event) == (state, ActionView::Abort(state.phase->Aborted_0)),
{
}

/// The output is created only in answer to the input having been opened.
pub proof fn lemma_output_follows_input(rules: Rules, state: RunState, event: EventView)
    ensures
        step(rules, state, event).1 is CreateOutput <==> state.phase is OpeningInput
            && event is Done,
{
}

/// A line is written only in answer to a line read, and it is the line
/// that the filter releases; what has been read grows only by lines read.
pub proof fn lemma_writes_are_releases(rules: Rules, state: RunState, event: EventView)
    ensures
        step(rules, state, event).1 matches ActionView::WriteLine(out) ==> state.phase is Reading
            && (event matches EventView::Line(line) && released_by(rules, state.seen, line)
            == Some(out)),
        step(rules, state, event).0.seen == (if state.phase is Reading {
            match event {
                EventView::Line(line) => state.seen.push(line),
                _ => state.seen,
            }
        } else {
            state.seen
        }),
{
}

/// While nothing fails, reading `lines` leaves the run waiting for the next
/// line, with `lines` read and exactly the kept lines written.
pub proof fn lemma_clean_reading(rules: Rules, lines: Seq<Seq<char>>)
    ensures
        state_after(rules, clean_reading(rules, lines)) == (RunState {
            phase: Phase::Reading,
            seen: lines,
        }),
        written(answers(rules, clean_reading(rules, lines))) == kept_lines(rules, lines),
    decreases lines.len(),
{
    if lines.len() == 0 {
        let none = Seq::<EventView>::empty();
        let opened = none.push(EventView::Done);
        let created = opened.push(EventView::Done);
        assert(created =~= clean_reading(rules, lines));
        lemma_one_more_event(rules, none, EventView::Done);
        lemma_one_more_event(rules, opened, EventView::Done);
        lemma_one_more_action(Seq::empty(), ActionView::CreateOutput);
        lemma_one_more_action(Seq::empty().push(ActionView::CreateOutput), ActionView::ReadLine);
        assert(kept_lines(rules, lines) =~= Seq::<Seq<char>>::empty());
        assert(lines =~= Seq::<Seq<char>>::empty());
        assert(state_after(rules, none) == start_state());
        assert(state_after(rules, opened).phase == Phase::CreatingOutput);
        assert(state_after(rules, created).phase == Phase::Reading);
    } else {
        let shorter = lines.drop_last();
        let line = lines.last();
        assert(shorter.push(line) =~= lines);
        lemma_clean_reading(rules, shorter);
        lemma_kept_lines_grow(rules, shorter, line);
        let before = clean_reading(rules, shorter);
        let read = before.push(EventView::Line(line));
        lemma_one_more_event(rules, before, EventView::Line(line));
        lemma_one_more_action(
            answers(rules, before),
            step(rules, state_after(rules, before), EventView::Line(line)).1,
        );
        if released_by(rules, shorter, line) is Some {
            lemma_one_more_event(rules, read, EventView::Done);
            lemma_one_more_action(answers(rules, read), ActionView::ReadLine);
        }
    }
}

/// A run in which nothing fails reads the whole input, writes exactly the
/// kept lines in their order, and finishes with the counts of the input.
/// The lines left in the window are not written.
pub proof fn lemma_clean_run(rules: Rules, lines: Seq<Seq<char>>)
    ensures
        state_after(rules, clean_run(rules, lines)) == (RunState {
            phase: Phase::Finished,
            seen: lines,
        }),
        written(answers(rules, clean_run(rules, lines))) == kept_lines(rules, lines),
        answers(rules, clean_run(rules, lines)).last() == ActionView::Finish(tally(rules, lines)),
{
    let read = clean_reading(rules, lines);
    let ended = read.push(EventView::EndOfInput);
    lemma_clean_reading(rules, lines);
    lemma_one_more_event(rules, read, EventView::EndOfInput);
    lemma_one_more_action(answers(rules, read), ActionView::Flush);
    lemma_one_more_event(rules, ended, EventView::Done);
    lemma_one_more_action(answers(rules, ended), ActionView::Finish(tally(rules, lines)));
}

/// A run in progress.
pub struct Pipeline {
    phase: Phase,
    filter: LineFilter,
}

impl View for Pipeline {
    type V = RunState;

    closed spec fn view(&self) -> RunState {
        RunState { phase: self.phase, seen: self.filter@ }
    }
}

impl Pipeline {
    /// The rules that the run was started with.
    pub closed spec fn rules(&self) -> Rules {
        self.filter.rules()
    }

    /// The filter inside agrees with the lines read so far.
    pub closed spec fn wf(&self) -> bool {
        self.filter.wf()
    }

    /// Starts a run. The first action is always to open the input.
    pub fn begin(config: FilterConfig) -> (started: (Pipeline, Action))
        ensures
            started.0.wf(),
            started.0.rules() == config@,
            started.0@ == start_state(),
            started.1@ == ActionView::OpenInput,
    {
        (Pipeline { phase: Phase::OpeningInput, filter: LineFilter::new(config) }, Action::OpenInput)
    }

    /// Where the run stands.
    pub fn phase(&self) -> (phase: Phase)
        ensures
            phase == self@.phase,
    {
        self.phase
    }

    /// The number of lines read so far.
    pub fn lines_read(&self) -> (n: usize)
        requires
            self.wf(),
        ensures
            n == self@.seen.len(),
    {
        self.filter.lines_read()
    }

    /// The counts so far.
    pub fn report(&self) -> (report: FilterReport)
        requires
            self.wf(),
        ensures
            report@ == tally(self.rules(), self@.seen),
    {
        self.filter.report()
    }

    /// Takes the outcome of the last action and names the next one, as
    /// [`step`] says. A line can be taken as long as the count of lines
    /// fits in `usize`.
    pub fn on_event(&mut self, event: Event) -> (action: Action)
        requires
            old(self).wf(),
            old(self)@.phase is Reading && event is Line ==> old(self)@.seen.len() < usize::MAX,
        ensures
            final(self).wf(),
            final(self).rules() == old(self).rules(),
            (final(self)@, action@) == step(old(self).rules(), old(self)@, event@),
    {
        match self.phase {
            Phase::OpeningInput => match event {
                Event::Done => {
                    self.phase = Phase::CreatingOutput;
                    Action::CreateOutput
                },
                Event::Missing => self.abort(FilterError::NotFound),
                _ => self.abort(FilterError::IoError),
            },
            Phase::CreatingOutput => match event {
                Event::Done => {
                    self.phase = Phase::Reading;
                    Action::ReadLine
                },
                _ => self.abort(FilterError::IoError),
            },
            Phase::Reading => match event {
                Event::Line(line) => match self.filter.push_line(line) {
                    Some(out) => {
                        self.phase = Phase::Writing;
                        Action::WriteLine(out)
                    },
                    None => Action::ReadLine,
                },
                Event::EndOfInput => {
                    self.phase = Phase::Flushing;
                    Action::Flush
                },
                _ => self.abort(FilterError::IoError),
            },
            Phase::Writing => match event {
                Event::Done => {
                    self.phase = Phase::Reading;
                    Action::ReadLine
                },
                _ => self.abort(FilterError::IoError),
            },
            Phase::Flushing => match event {
                Event::Done => {
                    self.phase = Phase::Finished;
                    Action::Finish(self.filter.report())
                },
                _ => self.abort(FilterError::IoError),
            },
            Phase::Finished => Action::Finish(self.filter.report()),
            Phase::Aborted(error) => Action::Abort(error),
        }
    }

    /// Gives the run up with `error`.
    fn abort(&mut self, error: FilterError) -> (action: Action)
        requires
            old(self).wf(),
        ensures
            final(self).wf(),
            final(self).rules() == old(self).rules(),
            (final(self)@, action@) == give_up(old(self)@, error),
    {
        self.phase = Phase::Aborted(error);
        Action::Abort(error)
    }
}

} // verus!
