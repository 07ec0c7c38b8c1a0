//! The command channel: a state machine that takes what each read of the
//! input gave and says what to do with it. The loop that reads, emits and
//! exits is the host's; every decision is made here.
use vstd::prelude::*;
use crate::command::{Command, ConfigPayload, DecodeError, ShowPayload, decode_command, decode_line};

verus! {

/// What one read of the input stream gave.
#[derive(Debug, Clone, PartialEq, Eq)]
pub enum ReadOutcome {
    /// One line, without its terminator.
    Line(String),
    /// The read failed; the text describes the failure.
    Failed(String),
    /// The stream has ended.
    End,
}

/// An event for the presentation host.
#[derive(Debug, Clone, PartialEq, Eq)]
pub enum Event {
    ShowOverlay(ShowPayload),
    HideOverlay,
    ConfigOverlay(ConfigPayload),
}

/// What the reader does after one read.
#[derive(Debug, Clone, PartialEq, Eq)]
pub enum Action {
    /// Emit the event to the presentation host.
    Emit(Event),
    /// Log that the line is not a command, and read on.
    RejectLine(DecodeError),
    /// Log that the read failed, and read on.
    ReportReadFailure(String),
    /// End the process at once with this status.
    Exit(i32),
    /// Stop reading; the reader's thread ends.
    Stop,
}

/// The name under which the presentation host receives an event.
pub open spec fn event_name_of(e: Event) -> Seq<char> {
    match e {
        Event::ShowOverlay(_) => "show-overlay"@,
        Event::HideOverlay => "hide-overlay"@,
        Event::ConfigOverlay(_) => "config-overlay"@,
    }
}

impl Event {
    /// The name under which the presentation host receives this event.
    pub fn name(&self) -> (r: &'static str)
        ensures
            r@ == event_name_of(*self),
    {
        match self {
            Event::ShowOverlay(_) => "show-overlay",
            Event::HideOverlay => "hide-overlay",
            Event::ConfigOverlay(_) => "config-overlay",
        }
    }
}

/// What a decoded command asks of the reader.
pub open spec fn action_of(c: Command) -> Action {
    match c {
        Command::Show { payload } => Action::Emit(Event::ShowOverlay(payload)),
        Command::Hide => Action::Emit(Event::HideOverlay),
        Command::Config { payload } => Action::Emit(Event::ConfigOverlay(payload)),
        Command::Shutdown => Action::Exit(0),
    }
}

/// Turns a command into what the reader does with it.
pub fn dispatch(c: Command) -> (r: Action)
    ensures
        r == action_of(c),
{
    match c {
        Command::Show { payload } => Action::Emit(Event::ShowOverlay(payload)),
        Command::Hide => Action::Emit(Event::HideOverlay),
        Command::Config { payload } => Action::Emit(Event::ConfigOverlay(payload)),
        Command::Shutdown => Action::Exit(0),
    }
}

/// One step of the reader: from whether it still reads and what a read
/// gave, to whether it reads on and what it does now.
pub open spec fn step_spec(open: bool, input: ReadOutcome) -> (bool, Action) {
    if !open {
        (false, Action::Stop)
    } else {
        match input {
            ReadOutcome::Line(line) => match decode_line(line@) {
                Ok(Command::Shutdown) => (false, Action::Exit(0)),
                Ok(c) => (true, action_of(c)),
                Err(e) => (true, Action::RejectLine(e)),
            },
            ReadOutcome::Failed(why) => (true, Action::ReportReadFailure(why)),
            ReadOutcome::End => (false, Action::Stop),
        }
    }
}

/// What the reader does over a run of reads, one action for each.
pub open spec fn run_spec(open: bool, inputs: Seq<ReadOutcome>) -> Seq<Action>
    decreases inputs.len(),
{
    if inputs.len() == 0 {
        Seq::empty()
    } else {
        let (next, a) = step_spec(open, inputs[0]);
        seq![a] + run_spec(next, inputs.drop_first())
    }
}

/// The events among a run of actions, in their order.
pub open spec fn events_of(actions: Seq<Action>) -> Seq<Event>
    decreases actions.len(),
{
    if actions.len() == 0 {
        Seq::empty()
    } else {
        let rest = events_of(actions.drop_first());
        match actions[0] {
            Action::Emit(e) => seq![e] + rest,
            _ => rest,
        }
    }
}

/// The reader of the command channel.
pub struct Channel {
    open: bool,
}

impl Channel {
    /// Whether the reader still reads.
    pub closed spec fn is_open(&self) -> bool {
        self.open
    }

    /// A reader that has read nothing yet.
    pub fn new() -> (r: Channel)
        ensures
            r.is_open(),
    {
        Channel { open: true }
    }

    /// Whether the reader still reads.
    pub fn reads_on(&self) -> (r: bool)
        ensures
            r == self.is_open(),
    {
        self.open
    }

    /// Takes what one read gave and says what to do with it.
    pub fn step(&mut self, input: ReadOutcome) -> (r: Action)
        ensures
            (final(self).is_open(), r) == step_spec(old(self).is_open(), input),
    {
        if !self.open {
            return Action::Stop;
        }
        match input {
            ReadOutcome::Line(line) => match decode_command(line.as_str()) {
                Ok(c) => {
                    if let Command::Shutdown = c {
                        self.open = false;
                    }
                    dispatch(c)
                },
                Err(e) => Action::RejectLine(e),
            },
            ReadOutcome::Failed(why) => Action::ReportReadFailure(why),
            ReadOutcome::End => {
                self.open = false;
                Action::Stop
            },
        }
    }
}

/// The event that a line emits, where the line holds a command other than
/// `SHUTDOWN`.
pub open spec fn event_of_line(line: String) -> Event {
    action_of(decode_line(line@)->Ok_0)->Emit_0
}

/// Whether a line holds a command that is forwarded as an event.
pub open spec fn is_event_line(line: String) -> bool {
    &&& decode_line(line@) is Ok
    &&& !(decode_line(line@)->Ok_0 is Shutdown)
}

/// A reader that has stopped does nothing more, whatever it is given.
pub proof fn lemma_closed_reader_is_inert(inputs: Seq<ReadOutcome>)
    ensures
        run_spec(false, inputs) == Seq::new(inputs.len(), |i: int| Action::Stop),
        events_of(run_spec(false, inputs)) == Seq::<Event>::empty(),
    decreases inputs.len(),
{
    if inputs.len() > 0 {
        lemma_closed_reader_is_inert(inputs.drop_first());
        let actions = run_spec(false, inputs);
        assert(actions.drop_first() =~= run_spec(false, inputs.drop_first()));
        assert(actions =~= Seq::new(inputs.len(), |i: int| Action::Stop));
        assert(events_of(actions) == events_of(actions.drop_first()));
    }
}

/// A `SHOW` line is forwarded with the very payload that was decoded from it.
pub proof fn lemma_show_keeps_payload(line: String, payload: ShowPayload)
    requires
        decode_line(line@) == Ok::<Command, DecodeError>(Command::Show { payload }),
    ensures
        step_spec(true, ReadOutcome::Line(line)) == (true, Action::Emit(Event::ShowOverlay(payload))),
{
}

/// A `SHUTDOWN` line ends the process with status 0, and nothing read after
/// it is acted on.
pub proof fn lemma_shutdown_ends_reading(line: String, rest: Seq<ReadOutcome>)
    requires
        decode_line(line@) == Ok::<Command, DecodeError>(Command::Shutdown),
    ensures
        run_spec(true, seq![ReadOutcome::Line(line)] + rest) == seq![Action::Exit(0)] + Seq::new(
            rest.len(),
            |i: int| Action::Stop,
        ),
        events_of(run_spec(true, seq![ReadOutcome::Line(line)] + rest)) == Seq::<Event>::empty(),
{
    let inputs = seq![ReadOutcome::Line(line)] + rest;
    assert(inputs.drop_first() =~= rest);
    lemma_closed_reader_is_inert(rest);
    let actions = run_spec(true, inputs);
    assert(actions.drop_first() =~= run_spec(false, rest));
}

/// A line that is not a command, followed by one that is, emits exactly the
/// event of the second.
pub proof fn lemma_bad_line_emits_nothing(bad: String, good: String)
    requires
        decode_line(bad@) is Err,
        is_event_line(good),
    ensures
        events_of(run_spec(true, seq![ReadOutcome::Line(bad), ReadOutcome::Line(good)]))
            == seq![event_of_line(good)],
{
    let inputs = seq![ReadOutcome::Line(bad), ReadOutcome::Line(good)];
    let tail = seq![ReadOutcome::Line(good)];
    assert(inputs.drop_first() =~= tail);
    assert(tail.drop_first() =~= Seq::<ReadOutcome>::empty());
    let c = decode_line(good@)->Ok_0;
    assert(action_of(c) == Action::Emit(event_of_line(good)));
    assert(step_spec(true, tail[0]) == (true, Action::Emit(event_of_line(good))));
    let last = run_spec(true, tail);
    assert(run_spec(true, tail.drop_first()) =~= Seq::<Action>::empty());
    assert(last =~= seq![Action::Emit(event_of_line(good))]);
    assert(last.drop_first() =~= Seq::<Action>::empty());
    assert(events_of(last.drop_first()) =~= Seq::<Event>::empty());
    assert(events_of(last) =~= seq![event_of_line(good)] + Seq::<Event>::empty());
    let actions = run_spec(true, inputs);
    assert(actions =~= seq![Action::RejectLine(decode_line(bad@)->Err_0)] + last);
    assert(actions.drop_first() =~= last);
}

/// Lines that hold commands other than `SHUTDOWN` give their events in the
/// order the lines were read.
pub proof fn lemma_events_keep_line_order(lines: Seq<String>)
    requires
        forall|i: int| 0 <= i < lines.len() ==> is_event_line(#[trigger] lines[i]),
    ensures
        events_of(run_spec(true, lines.map_values(|l: String| ReadOutcome::Line(l))))
            == lines.map_values(|l: String| event_of_line(l)),
    decreases lines.len(),
{
    let inputs = lines.map_values(|l: String| ReadOutcome::Line(l));
    if lines.len() == 0 {
        assert(lines.map_values(|l: String| event_of_line(l)) =~= Seq::<Event>::empty());
    } else {
        let rest = lines.drop_first();
        assert(is_event_line(lines[0]));
        assert(inputs.drop_first() =~= rest.map_values(|l: String| ReadOutcome::Line(l)));
        lemma_events_keep_line_order(rest);
        let actions = run_spec(true, inputs);
        assert(actions.drop_first() =~= run_spec(true, inputs.drop_first()));
        assert(lines.map_values(|l: String| event_of_line(l)) =~= seq![event_of_line(lines[0])]
            + rest.map_values(|l: String| event_of_line(l)));
    }
}

} // verus!
