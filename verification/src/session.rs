//! The session in executable form. A session is driven from outside: it
//! names the one thing it needs next as a `Step`, the caller does that thing
//! and tells the step how it went, and gets the next step back. The session
//! itself touches neither the environment, nor a file, nor a process.

use crate::error::EntrError;
use crate::event::{ClearOutcome, Delivery};
use crate::model::{
    advance, arguments_of, can_run, clear_command, invoke, plan_of, program_of, start, watching,
    well_formed, Plan, Reply, Setup, State,
};
use crate::shell::{rewrite, shell_variable};
use crate::watch::WatchSet;
use vstd::prelude::*;
use vstd::slice::slice_subrange;

verus! {

/// What was asked for on the command line: the flags, and the utility with
/// its arguments.
#[derive(Debug, Clone, PartialEq, Eq)]
pub struct Entr {
    /// Clear the screen before each run of the utility.
    pub clear: bool,
    /// Do not run the utility before something has changed.
    pub postpone: bool,
    /// Watch directories with all that is below them.
    pub recursive: bool,
    /// Hand the utility to the shell that the environment names.
    pub use_shell: bool,
    /// The utility and its arguments.
    pub utility: Vec<String>,
}

impl View for Entr {
    type V = Setup;

    open spec fn view(&self) -> Setup {
        Setup {
            clear: self.clear,
            postpone: self.postpone,
            recursive: self.recursive,
            use_shell: self.use_shell,
            utility: self.utility.deep_view(),
        }
    }
}

/// What a running session goes by: the flags and the command, which has at
/// least one word.
struct Session {
    clear: bool,
    postpone: bool,
    recursive: bool,
    utility: Vec<String>,
}

impl View for Session {
    type V = Plan;

    closed spec fn view(&self) -> Plan {
        Plan {
            clear: self.clear,
            postpone: self.postpone,
            recursive: self.recursive,
            utility: self.utility.deep_view(),
        }
    }
}

/// The session needs the value of `SHELL`.
pub struct ShellLookup {
    entr: Entr,
}

/// The session needs the text of standard input.
pub struct InputRead {
    session: Session,
}

/// The session needs one path registered with the monitor.
pub struct Registration {
    session: Session,
    watch: WatchSet,
    next: usize,
}

/// The session needs the screen cleared.
pub struct ScreenClear {
    session: Session,
}

/// The session needs the utility started as a child process.
pub struct Launch {
    session: Session,
}

/// The session needs the next item from the monitor's channel.
pub struct Listen {
    session: Session,
}

/// What a session needs next from the outside world. Each variant but the
/// last holds the session, and gives it back in the next step once it is told
/// how things went. `Exit` holds no session: nothing follows it.
pub enum Step {
    LookupShell(ShellLookup),
    ReadInput(InputRead),
    Register(Registration),
    Clear(ScreenClear),
    Spawn(Launch),
    Receive(Listen),
    Exit(EntrError),
}

impl View for Step {
    type V = State;

    open spec fn view(&self) -> State {
        match self {
            Step::LookupShell(step) => step@,
            Step::ReadInput(step) => step@,
            Step::Register(step) => step@,
            Step::Clear(step) => step@,
            Step::Spawn(step) => step@,
            Step::Receive(step) => step@,
            Step::Exit(error) => State::Exit(error@),
        }
    }
}

impl Session {
    #[verifier::type_invariant]
    spec fn has_command(&self) -> bool {
        self.utility.len() > 0
    }

    /// Begins a run of the utility.
    fn invoke(self) -> (next: Step)
        ensures
            next@ == invoke(self@),
            well_formed(next@),
    {
        proof {
            use_type_invariant(&self);
        }
        if self.clear {
            Step::Clear(ScreenClear { session: self })
        } else {
            Step::Spawn(Launch { session: self })
        }
    }

    /// Goes on once the whole watch set is registered.
    fn watching(self) -> (next: Step)
        ensures
            next@ == watching(self@),
            well_formed(next@),
    {
        proof {
            use_type_invariant(&self);
        }
        if self.postpone {
            Step::Receive(Listen { session: self })
        } else {
            self.invoke()
        }
    }
}

impl Entr {
    /// Starts a session and returns its first step. A setup without a
    /// command to run cannot be started.
    pub fn run(self) -> (first: Step)
        requires
            can_run(self@),
        ensures
            first@ == start(self@),
            well_formed(first@),
    {
        if self.use_shell {
            Step::LookupShell(ShellLookup { entr: self })
        } else {
            let session = Session {
                clear: self.clear,
                postpone: self.postpone,
                recursive: self.recursive,
                utility: self.utility,
            };
            Step::ReadInput(InputRead { session })
        }
    }
}

impl ShellLookup {
    /// The plan of the session, with the command as it was given.
    pub closed spec fn plan(&self) -> Plan {
        plan_of(self.entr@)
    }

    /// The name of the variable to look up in the environment.
    pub fn variable(&self) -> (name: &'static str)
        ensures
            name@ == shell_variable(),
    {
        "SHELL"
    }

    /// Goes on with what the environment holds under that name: `None`
    /// where it holds nothing that can be read.
    pub fn resolve(self, shell: Option<String>) -> (next: Step)
        ensures
            Some(next@) == advance(self@, Reply::Shell(shell.deep_view())),
            well_formed(next@),
    {
        let entr = self.entr;
        let utility = rewrite(shell, entr.utility);
        assert(utility.len() == utility.deep_view().len());
        let session = Session {
            clear: entr.clear,
            postpone: entr.postpone,
            recursive: entr.recursive,
            utility,
        };
        Step::ReadInput(InputRead { session })
    }
}

impl View for ShellLookup {
    type V = State;

    open spec fn view(&self) -> State {
        State::LookupShell(self.plan())
    }
}

impl InputRead {
    /// The plan of the session.
    pub closed spec fn plan(&self) -> Plan {
        self.session@
    }

    /// Goes on with the text of standard input: `None` where it could not
    /// be read.
    pub fn resolve(self, input: Option<String>) -> (next: Step)
        ensures
            Some(next@) == advance(self@, Reply::Input(input.deep_view())),
            well_formed(next@),
    {
        proof {
            use_type_invariant(&self.session);
        }
        match input {
            None => Step::Exit(EntrError::ReadInputFailed),
            Some(text) => match WatchSet::collect(text.as_str()) {
                Err(error) => Step::Exit(error),
                Ok(watch) => Step::Register(Registration { session: self.session, watch, next: 0 }),
            },
        }
    }
}

impl View for InputRead {
    type V = State;

    open spec fn view(&self) -> State {
        State::ReadInput(self.plan())
    }
}

impl Registration {
    #[verifier::type_invariant]
    spec fn in_range(&self) -> bool {
        self.next < self.watch@.len()
    }

    /// The plan of the session.
    pub closed spec fn plan(&self) -> Plan {
        self.session@
    }

    /// The paths to register.
    pub closed spec fn watch(&self) -> Seq<Seq<char>> {
        self.watch@
    }

    /// The place in `watch` of the path to register now.
    pub closed spec fn index(&self) -> int {
        self.next as int
    }

    /// The path to register now.
    pub fn path(&self) -> (path: &String)
        ensures
            0 <= self.index() < self.watch().len(),
            path@ == self.watch()[self.index()],
    {
        proof {
            use_type_invariant(self);
        }
        &self.watch.paths()[self.next]
    }

    /// Whether the path is to be watched with all that is below it.
    pub fn recursive(&self) -> (recursive: bool)
        ensures
            recursive == self.plan().recursive,
    {
        self.session.recursive
    }

    /// Goes on with the monitor's answer: whether it took the path.
    pub fn resolve(self, registered: bool) -> (next: Step)
        ensures
            Some(next@) == advance(self@, Reply::Registered(registered)),
            well_formed(next@),
    {
        proof {
            use_type_invariant(&self);
            use_type_invariant(&self.session);
        }
        let paths = self.watch.paths();
        assert(paths.len() == paths.deep_view().len());
        if !registered {
            Step::Exit(EntrError::WatchRegistrationFailed(paths[self.next].clone()))
        } else if self.next + 1 < paths.len() {
            Step::Register(
                Registration { session: self.session, watch: self.watch, next: self.next + 1 },
            )
        } else {
            self.session.watching()
        }
    }
}

impl View for Registration {
    type V = State;

    open spec fn view(&self) -> State {
        State::Register { plan: self.plan(), watch: self.watch(), next: self.index() }
    }
}

impl ScreenClear {
    /// The plan of the session.
    pub closed spec fn plan(&self) -> Plan {
        self.session@
    }

    /// The command to run, without arguments, to clear the screen.
    pub fn program(&self) -> (program: &'static str)
        ensures
            program@ == clear_command(),
    {
        "clear"
    }

    /// Goes on with the way in which that command ended.
    pub fn resolve(self, outcome: ClearOutcome) -> (next: Step)
        ensures
            Some(next@) == advance(self@, Reply::Cleared(outcome)),
            well_formed(next@),
    {
        proof {
            use_type_invariant(&self.session);
        }
        if outcome.cleared() {
            Step::Spawn(Launch { session: self.session })
        } else {
            Step::Exit(EntrError::ClearScreenFailed)
        }
    }
}

impl View for ScreenClear {
    type V = State;

    open spec fn view(&self) -> State {
        State::Clear(self.plan())
    }
}

impl Launch {
    /// The plan of the session.
    pub closed spec fn plan(&self) -> Plan {
        self.session@
    }

    /// The executable to start: the first word of the command.
    pub fn program(&self) -> (program: &String)
        ensures
            self.plan().utility.len() > 0,
            program@ == program_of(self.plan()),
    {
        proof {
            use_type_invariant(&self.session);
        }
        &self.session.utility[0]
    }

    /// The arguments to start it with: the other words of the command.
    pub fn arguments(&self) -> (arguments: &[String])
        ensures
            self.plan().utility.len() > 0,
            arguments.deep_view() == arguments_of(self.plan()),
    {
        proof {
            use_type_invariant(&self.session);
        }
        let words = self.session.utility.as_slice();
        let arguments = slice_subrange(words, 1, words.len());
        assert(arguments.deep_view() =~= arguments_of(self.plan()));
        arguments
    }

    /// Goes on with the outcome of the attempt: whether the child was
    /// started. The child is not waited for.
    pub fn resolve(self, spawned: bool) -> (next: Step)
        ensures
            Some(next@) == advance(self@, Reply::Spawned(spawned)),
            well_formed(next@),
    {
        proof {
            use_type_invariant(&self.session);
        }
        if spawned {
            Step::Receive(Listen { session: self.session })
        } else {
            Step::Exit(EntrError::UtilitySpawnFailed(self.session.utility[0].clone()))
        }
    }
}

impl View for Launch {
    type V = State;

    open spec fn view(&self) -> State {
        State::Spawn(self.plan())
    }
}

impl Listen {
    /// The plan of the session.
    pub closed spec fn plan(&self) -> Plan {
        self.session@
    }

    /// Goes on with what the channel gave.
    pub fn resolve(self, delivery: Delivery) -> (next: Step)
        ensures
            Some(next@) == advance(self@, Reply::Received(delivery@)),
            well_formed(next@),
    {
        proof {
            use_type_invariant(&self.session);
        }
        match delivery {
            Delivery::Event(event) => if event.kind.is_trigger() {
                self.session.invoke()
            } else {
                Step::Receive(self)
            },
            Delivery::MonitorError => Step::Exit(EntrError::EventObservationFailed),
            Delivery::Disconnected => Step::Exit(EntrError::WatchChannelBroken),
        }
    }
}

impl View for Listen {
    type V = State;

    open spec fn view(&self) -> State {
        State::Receive(self.plan())
    }
}

} // verus!
