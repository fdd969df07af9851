//! The interactive session as a state machine.
//!
//! A session prompts, reads one line, hands the trimmed line to the command
//! handler and then either prompts again or ends. The machine owns the
//! decisions; its driver does the input and output and reports each step
//! back.

use vstd::prelude::*;
use vstd::string::*;
use crate::contract::Plugin;
use crate::text::{all_space, is_trim, law_trim_removes_padding, same_text, trim, trimmed};

verus! {

/// The command that ends a session.
pub const SENTINEL: &'static str = "exit";

/// The line that asks for the next command.
pub const PROMPT: &'static str = "Enter command:";

/// The command that ends a session, as characters.
pub open spec fn sentinel() -> Seq<char> {
    "exit"@
}

/// Where a session stands, and so what its driver has to do next.
#[derive(Clone, Copy, PartialEq, Eq, Debug, Structural)]
pub enum Phase {
    /// The prompt is to be written.
    Prompting,
    /// One line is to be read.
    Reading,
    /// The pending command is to be handled.
    Dispatching,
    /// The session is over: the handler is to be released.
    Terminated,
}

/// The state of a session: its phase, and with it the command that waits
/// for the handler while there is one.
pub enum State {
    /// The prompt is to be written.
    Prompting,
    /// One line is to be read.
    Reading,
    /// The command is to be handled.
    Dispatching(Seq<char>),
    /// The session is over.
    Terminated,
}

/// What a driver reports to the session.
pub enum Event {
    /// The prompt was written.
    Prompted,
    /// A line was read; it is given as read, line end included.
    Line(Seq<char>),
    /// Nothing is left to read.
    EndOfInput,
    /// The handler has returned.
    Handled,
}

/// The state that follows `state` on `event`. An event that does not answer
/// what the state asks for changes nothing.
pub open spec fn after(state: State, event: Event) -> State {
    match (state, event) {
        (State::Prompting, Event::Prompted) => State::Reading,
        (State::Reading, Event::Line(raw)) => State::Dispatching(trimmed(raw)),
        (State::Reading, Event::EndOfInput) => State::Terminated,
        (State::Dispatching(command), Event::Handled) => if command == sentinel() {
            State::Terminated
        } else {
            State::Prompting
        },
        _ => state,
    }
}

/// The phase of `state`.
pub open spec fn phase_of(state: State) -> Phase {
    match state {
        State::Prompting => Phase::Prompting,
        State::Reading => Phase::Reading,
        State::Dispatching(_) => Phase::Dispatching,
        State::Terminated => Phase::Terminated,
    }
}

/// A session in progress.
pub struct Session {
    phase: Phase,
    command: String,
}

impl View for Session {
    type V = State;

    closed spec fn view(&self) -> State {
        match self.phase {
            Phase::Prompting => State::Prompting,
            Phase::Reading => State::Reading,
            Phase::Dispatching => State::Dispatching(self.command@),
            Phase::Terminated => State::Terminated,
        }
    }
}

impl Session {
    /// A session that has not prompted yet.
    pub fn new() -> (s: Session)
        ensures
            s@ == State::Prompting,
    {
        Session { phase: Phase::Prompting, command: String::new() }
    }

    /// What the driver has to do next.
    pub fn phase(&self) -> (p: Phase)
        ensures
            p == phase_of(self@),
    {
        self.phase
    }

    /// The command that waits for the handler, if one does.
    pub fn command(&self) -> (r: Option<&str>)
        ensures
            (match self@ {
                State::Dispatching(command) => r matches Some(text) && text@ == command,
                _ => r is None,
            }),
    {
        match self.phase {
            Phase::Dispatching => Some(self.command.as_str()),
            _ => None,
        }
    }

    /// The prompt was written.
    pub fn prompted(&mut self)
        ensures
            final(self)@ == after(old(self)@, Event::Prompted),
    {
        match self.phase {
            Phase::Prompting => {
                self.phase = Phase::Reading;
            },
            _ => {},
        }
    }

    /// `raw` was read.
    pub fn line(&mut self, raw: &str)
        ensures
            final(self)@ == after(old(self)@, Event::Line(raw@)),
    {
        match self.phase {
            Phase::Reading => {
                self.command = String::from_str(trim(raw));
                self.phase = Phase::Dispatching;
            },
            _ => {},
        }
    }

    /// Nothing was left to read.
    pub fn end_of_input(&mut self)
        ensures
            final(self)@ == after(old(self)@, Event::EndOfInput),
    {
        match self.phase {
            Phase::Reading => {
                self.phase = Phase::Terminated;
            },
            _ => {},
        }
    }

    /// The handler has returned from the pending command.
    pub fn handled(&mut self)
        ensures
            final(self)@ == after(old(self)@, Event::Handled),
    {
        match self.phase {
            Phase::Dispatching => {
                if same_text(self.command.as_str(), SENTINEL) {
                    self.phase = Phase::Terminated;
                } else {
                    self.phase = Phase::Prompting;
                }
            },
            _ => {},
        }
    }

    /// Hands the pending command to `plugin` and, when it has returned, goes
    /// on as [`Session::handled`] does. Without a pending command the plugin is not
    /// called.
    pub fn dispatch<P: Plugin + ?Sized>(&mut self, plugin: &P)
        ensures
            final(self)@ == after(old(self)@, Event::Handled),
    {
        match self.phase {
            Phase::Dispatching => {
                plugin.handle_command(self.command.as_str());
                self.handled();
            },
            _ => {},
        }
    }
}

/// One thing that a driver does for a session.
pub enum Effect {
    /// It writes the prompt.
    Prompt,
    /// It reads a line, or finds that none is left.
    Read,
    /// It hands the command to the handler and waits for it to return.
    Handle(Seq<char>),
    /// It releases the handler.
    Release,
}

/// How far `state` is from asking for a line.
pub open spec fn rank(state: State) -> nat {
    match state {
        State::Dispatching(_) => 3,
        State::Prompting => 2,
        State::Reading => 1,
        State::Terminated => 0,
    }
}

/// All that a driver does from `state` on, in order, when `lines` is what is
/// left to read: it does what the state asks for and reports it, until the
/// session is over.
pub open spec fn transcript(state: State, lines: Seq<Seq<char>>) -> Seq<Effect>
    decreases lines.len(), rank(state),
{
    match state {
        State::Prompting => seq![Effect::Prompt] + transcript(
            after(state, Event::Prompted),
            lines,
        ),
        State::Reading => if lines.len() > 0 {
            seq![Effect::Read] + transcript(
                after(state, Event::Line(lines[0])),
                lines.drop_first(),
            )
        } else {
            seq![Effect::Read] + transcript(after(state, Event::EndOfInput), lines)
        },
        State::Dispatching(command) => seq![Effect::Handle(command)] + transcript(
            after(state, Event::Handled),
            lines,
        ),
        State::Terminated => seq![Effect::Release],
    }
}

/// How often the prompt is written in `effects`.
pub open spec fn prompts(effects: Seq<Effect>) -> nat
    decreases effects.len(),
{
    if effects.len() == 0 {
        0
    } else if effects[0] is Prompt {
        1 + prompts(effects.drop_first())
    } else {
        prompts(effects.drop_first())
    }
}

/// The commands that the handler gets in `effects`, in order.
pub open spec fn handled_commands(effects: Seq<Effect>) -> Seq<Seq<char>>
    decreases effects.len(),
{
    if effects.len() == 0 {
        Seq::empty()
    } else if let Effect::Handle(command) = effects[0] {
        seq![command] + handled_commands(effects.drop_first())
    } else {
        handled_commands(effects.drop_first())
    }
}

/// Whether the first `n` of `lines` are commands other than the exit keyword,
/// and the input ends, or the exit keyword comes, right after them.
pub open spec fn ends_after(lines: Seq<Seq<char>>, n: nat) -> bool {
    &&& n <= lines.len()
    &&& forall|i: int| 0 <= i < n ==> trimmed(#[trigger] lines[i]) != sentinel()
    &&& n < lines.len() ==> trimmed(lines[n as int]) == sentinel()
}

/// The lines that a session reads when the first `n` of `lines` are its
/// commands: those, and the line with the exit keyword if there is one.
pub open spec fn lines_read(lines: Seq<Seq<char>>, n: nat) -> Seq<Seq<char>> {
    if n < lines.len() {
        lines.take(n + 1 as int)
    } else {
        lines
    }
}

proof fn lemma_ends_after_rest(lines: Seq<Seq<char>>, n: nat)
    requires
        ends_after(lines, n),
        n > 0,
    ensures
        ends_after(lines.drop_first(), (n - 1) as nat),
{
    let rest = lines.drop_first();
    assert forall|i: int| 0 <= i < n - 1 implies trimmed(#[trigger] rest[i]) != sentinel() by {
        assert(rest[i] == lines[i + 1]);
    }
    if n - 1 < rest.len() {
        assert(rest[n - 1] == lines[n as int]);
    }
}

proof fn lemma_first_effect(first: Effect, rest: Seq<Effect>)
    ensures
        prompts(seq![first] + rest) == (if first is Prompt {
            1 + prompts(rest)
        } else {
            prompts(rest)
        }),
        handled_commands(seq![first] + rest) == (if let Effect::Handle(command) = first {
            seq![command] + handled_commands(rest)
        } else {
            handled_commands(rest)
        }),
{
    assert((seq![first] + rest).drop_first() =~= rest);
}

proof fn lemma_release_alone()
    ensures
        prompts(seq![Effect::Release]) == 0,
        handled_commands(seq![Effect::Release]) == Seq::<Seq<char>>::empty(),
{
    let none = Seq::<Effect>::empty();
    lemma_first_effect(Effect::Release, none);
    assert(seq![Effect::Release] + none =~= seq![Effect::Release]);
}

/// A session that gets `n` commands before the exit keyword or the end of
/// the input writes the prompt `n + 1` times: once for each command, and once
/// more before the read that ends it.
pub proof fn law_prompt_count(lines: Seq<Seq<char>>, n: nat)
    requires
        ends_after(lines, n),
    ensures
        prompts(transcript(State::Prompting, lines)) == n + 1,
    decreases lines.len(),
{
    lemma_release_alone();
    lemma_first_effect(Effect::Prompt, transcript(State::Reading, lines));
    if lines.len() == 0 {
        lemma_first_effect(Effect::Read, transcript(State::Terminated, lines));
    } else {
        let command = trimmed(lines[0]);
        let rest = lines.drop_first();
        lemma_first_effect(Effect::Read, transcript(State::Dispatching(command), rest));
        lemma_first_effect(
            Effect::Handle(command),
            transcript(after(State::Dispatching(command), Event::Handled), rest),
        );
        if n > 0 {
            assert(trimmed(lines[0]) != sentinel());
            lemma_ends_after_rest(lines, n);
            law_prompt_count(rest, (n - 1) as nat);
        }
    }
}

/// The handler gets every line that the session reads, trimmed, in the order
/// read, the exit keyword included, and nothing else.
pub proof fn law_commands_handled(lines: Seq<Seq<char>>, n: nat)
    requires
        ends_after(lines, n),
    ensures
        handled_commands(transcript(State::Prompting, lines)) == lines_read(lines, n).map_values(
            |raw: Seq<char>| trimmed(raw),
        ),
    decreases lines.len(),
{
    let trim_all = |raw: Seq<char>| trimmed(raw);
    lemma_release_alone();
    lemma_first_effect(Effect::Prompt, transcript(State::Reading, lines));
    if lines.len() == 0 {
        lemma_first_effect(Effect::Read, transcript(State::Terminated, lines));
        assert(lines.map_values(trim_all) =~= Seq::<Seq<char>>::empty());
    } else {
        let command = trimmed(lines[0]);
        let rest = lines.drop_first();
        lemma_first_effect(Effect::Read, transcript(State::Dispatching(command), rest));
        lemma_first_effect(
            Effect::Handle(command),
            transcript(after(State::Dispatching(command), Event::Handled), rest),
        );
        if n == 0 {
            assert(lines.take(1).map_values(trim_all) =~= seq![command]);
            assert(seq![command] + Seq::<Seq<char>>::empty() =~= seq![command]);
        } else {
            assert(trimmed(lines[0]) != sentinel());
            lemma_ends_after_rest(lines, n);
            law_commands_handled(rest, (n - 1) as nat);
            assert(lines_read(lines, n).map_values(trim_all) =~= seq![command] + lines_read(
                rest,
                (n - 1) as nat,
            ).map_values(trim_all));
        }
    }
}

/// What a driver does for `commands`, none of them the exit keyword: for
/// each in turn it writes the prompt, reads the line and has it handled.
pub open spec fn rounds(commands: Seq<Seq<char>>) -> Seq<Effect>
    decreases commands.len(),
{
    if commands.len() == 0 {
        Seq::empty()
    } else {
        seq![Effect::Prompt, Effect::Read, Effect::Handle(trimmed(commands[0]))] + rounds(
            commands.drop_first(),
        )
    }
}

/// What a driver does at the end of a session: it writes the prompt and
/// reads; if it has read the exit keyword it has that handled; and it
/// releases the handler.
pub open spec fn last_round(exit_read: bool) -> Seq<Effect> {
    if exit_read {
        seq![Effect::Prompt, Effect::Read, Effect::Handle(sentinel()), Effect::Release]
    } else {
        seq![Effect::Prompt, Effect::Read, Effect::Release]
    }
}

/// A session is one round for each command and a last round, and nothing
/// else: a command is read and handled before the next prompt is written,
/// no line behind the exit keyword is read, and the handler is released
/// once, at the end.
pub proof fn law_one_round_per_command(lines: Seq<Seq<char>>, n: nat)
    requires
        ends_after(lines, n),
    ensures
        transcript(State::Prompting, lines) == rounds(lines.take(n as int)) + last_round(
            n < lines.len(),
        ),
    decreases lines.len(),
{
    let whole = transcript(State::Prompting, lines);
    let shape = rounds(lines.take(n as int)) + last_round(n < lines.len());
    let reading = transcript(State::Reading, lines);
    assert(whole == seq![Effect::Prompt] + reading);
    if lines.len() == 0 {
        assert(reading == seq![Effect::Read] + transcript(State::Terminated, lines));
        assert(whole =~= shape);
    } else {
        let command = trimmed(lines[0]);
        let rest = lines.drop_first();
        let dispatching = transcript(State::Dispatching(command), rest);
        let next = transcript(after(State::Dispatching(command), Event::Handled), rest);
        assert(reading == seq![Effect::Read] + dispatching);
        assert(dispatching == seq![Effect::Handle(command)] + next);
        if n == 0 {
            assert(lines.take(0) =~= Seq::<Seq<char>>::empty());
            assert(whole =~= shape);
        } else {
            assert(trimmed(lines[0]) != sentinel());
            lemma_ends_after_rest(lines, n);
            law_one_round_per_command(rest, (n - 1) as nat);
            assert(lines.take(n as int).drop_first() =~= rest.take(n - 1));
            assert(lines.take(n as int)[0] == lines[0]);
            assert(whole =~= shape);
        }
    }
}

/// A line ends the session when, and only when, what is left of it after
/// trimming is the exit keyword.
pub proof fn law_exit_is_exact(raw: Seq<char>)
    ensures
        after(after(State::Reading, Event::Line(raw)), Event::Handled) == State::Terminated
            <==> trimmed(raw) == sentinel(),
        after(after(State::Reading, Event::Line(raw)), Event::Handled) == State::Prompting
            <==> trimmed(raw) != sentinel(),
{
}

/// White space around a command does not count, and anything else does: a
/// line made of white space, a text that neither begins nor ends with white
/// space, and white space again ends the session when, and only when, the
/// text is the exit keyword.
pub proof fn law_exit_ignores_padding(before: Seq<char>, core: Seq<char>, behind: Seq<char>)
    requires
        all_space(before),
        all_space(behind),
        is_trim(core),
    ensures
        after(after(State::Reading, Event::Line(before + core + behind)), Event::Handled)
            == State::Terminated <==> core == sentinel(),
{
    law_trim_removes_padding(before, core, behind);
}

} // verus!
