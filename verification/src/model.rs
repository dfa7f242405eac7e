//! The session as a state machine, in mathematical terms. A state names the
//! one thing that the session asks of the outside world next; a reply is how
//! that went; `advance` gives the state that follows.

use crate::error::Failure;
use crate::event::{is_cleared, triggers, ClearOutcome, Signal};
use crate::shell::in_shell;
use crate::text::is_blank;
use crate::watch::{is_watch_list, watch_list};
use vstd::prelude::*;

verus! {

/// What was asked for on the command line.
pub struct Setup {
    pub clear: bool,
    pub postpone: bool,
    pub recursive: bool,
    pub use_shell: bool,
    pub utility: Seq<Seq<char>>,
}

/// What a session goes by: the flags, and the command to run.
pub struct Plan {
    pub clear: bool,
    pub postpone: bool,
    pub recursive: bool,
    pub utility: Seq<Seq<char>>,
}

/// What the session asks for next.
pub enum State {
    /// The value of `SHELL` in the environment.
    LookupShell(Plan),
    /// All of standard input.
    ReadInput(Plan),
    /// The registration of `watch[next]` with the monitor; the paths before
    /// it are registered.
    Register { plan: Plan, watch: Seq<Seq<char>>, next: int },
    /// A clear screen.
    Clear(Plan),
    /// A child process that runs the utility.
    Spawn(Plan),
    /// The next item from the monitor's channel.
    Receive(Plan),
    /// Nothing more: the session has failed.
    Exit(Failure),
}

/// How the outside world answered.
pub enum Reply {
    /// What the environment holds under `SHELL`, if anything.
    Shell(Option<Seq<char>>),
    /// The text of standard input, or nothing where reading failed.
    Input(Option<Seq<char>>),
    /// Whether the monitor took the path.
    Registered(bool),
    /// How clearing the screen ended.
    Cleared(ClearOutcome),
    /// Whether the child process was started.
    Spawned(bool),
    /// What the channel gave.
    Received(Signal),
}

/// The plan that a setup stands for, before shell mode has had its say.
pub open spec fn plan_of(setup: Setup) -> Plan {
    Plan {
        clear: setup.clear,
        postpone: setup.postpone,
        recursive: setup.recursive,
        utility: setup.utility,
    }
}

/// A setup can be run when it has a command to run: a utility of at least
/// one word, or shell mode, which supplies two.
pub open spec fn can_run(setup: Setup) -> bool {
    setup.use_shell || setup.utility.len() > 0
}

/// Where a session starts: in shell mode with the look at the environment,
/// else with standard input.
pub open spec fn start(setup: Setup) -> State {
    if setup.use_shell {
        State::LookupShell(plan_of(setup))
    } else {
        State::ReadInput(plan_of(setup))
    }
}

/// The command that clears the screen.
pub open spec fn clear_command() -> Seq<char> {
    "clear"@
}

/// The executable of a plan: the first word of its command.
pub open spec fn program_of(plan: Plan) -> Seq<char> {
    plan.utility.first()
}

/// The arguments of a plan: the words of its command behind the first.
pub open spec fn arguments_of(plan: Plan) -> Seq<Seq<char>> {
    plan.utility.drop_first()
}

/// The first step of a run of the utility: the screen is cleared where the
/// plan says so, and else the child is started at once.
pub open spec fn invoke(plan: Plan) -> State {
    if plan.clear {
        State::Clear(plan)
    } else {
        State::Spawn(plan)
    }
}

/// What follows the registration of the last path: a first run of the
/// utility, unless it is postponed until something changes.
pub open spec fn watching(plan: Plan) -> State {
    if plan.postpone {
        State::Receive(plan)
    } else {
        invoke(plan)
    }
}

/// With the shell known, the command is rewritten and the input is read.
pub open spec fn after_shell(plan: Plan, shell: Option<Seq<char>>) -> State {
    State::ReadInput(Plan { utility: in_shell(shell, plan.utility), ..plan })
}

/// With the input read, its paths are registered one by one, starting with
/// the first. Input that could not be read, or that names no path, ends the
/// session.
pub open spec fn after_input(plan: Plan, input: Option<Seq<char>>) -> State {
    match input {
        None => State::Exit(Failure::ReadInputFailed),
        Some(text) => if is_blank(text) {
            State::Exit(Failure::NoFilesToWatch)
        } else {
            State::Register { plan, watch: watch_list(text), next: 0 }
        },
    }
}

/// A path that the monitor took is followed by the next one, and the last by
/// `watching`. A path that it refused ends the session.
pub open spec fn after_register(
    plan: Plan,
    watch: Seq<Seq<char>>,
    next: int,
    registered: bool,
) -> State {
    if !registered {
        State::Exit(Failure::WatchRegistrationFailed(watch[next]))
    } else if next + 1 < watch.len() {
        State::Register { plan, watch, next: next + 1 }
    } else {
        watching(plan)
    }
}

/// On a clear screen the child is started. A screen that could not be
/// cleared ends the session.
pub open spec fn after_clear(plan: Plan, outcome: ClearOutcome) -> State {
    if is_cleared(outcome) {
        State::Spawn(plan)
    } else {
        State::Exit(Failure::ClearScreenFailed)
    }
}

/// Once the child runs, the session goes back to the channel, without
/// waiting for the child. A child that could not be started ends the session.
pub open spec fn after_spawn(plan: Plan, spawned: bool) -> State {
    if spawned {
        State::Receive(plan)
    } else {
        State::Exit(Failure::UtilitySpawnFailed(program_of(plan)))
    }
}

/// A modification runs the utility; any other change is passed over. An
/// error from the monitor, or a closed channel, ends the session.
pub open spec fn after_receive(plan: Plan, signal: Signal) -> State {
    match signal {
        Signal::Event(change) => if triggers(change.kind) {
            invoke(plan)
        } else {
            State::Receive(plan)
        },
        Signal::MonitorError => State::Exit(Failure::EventObservationFailed),
        Signal::Disconnected => State::Exit(Failure::WatchChannelBroken),
    }
}

/// Whether `reply` is an answer to what `state` asks for.
pub open spec fn answers(state: State, reply: Reply) -> bool {
    match (state, reply) {
        (State::LookupShell(_), Reply::Shell(_)) => true,
        (State::ReadInput(_), Reply::Input(_)) => true,
        (State::Register { .. }, Reply::Registered(_)) => true,
        (State::Clear(_), Reply::Cleared(_)) => true,
        (State::Spawn(_), Reply::Spawned(_)) => true,
        (State::Receive(_), Reply::Received(_)) => true,
        _ => false,
    }
}

/// The state that follows `state` on `reply`, where `reply` answers it.
/// Nothing follows on a reply that does not; in particular nothing follows
/// `Exit`.
pub open spec fn advance(state: State, reply: Reply) -> Option<State> {
    match (state, reply) {
        (State::LookupShell(plan), Reply::Shell(shell)) => Some(after_shell(plan, shell)),
        (State::ReadInput(plan), Reply::Input(input)) => Some(after_input(plan, input)),
        (State::Register { plan, watch, next }, Reply::Registered(registered)) => Some(
            after_register(plan, watch, next, registered),
        ),
        (State::Clear(plan), Reply::Cleared(outcome)) => Some(after_clear(plan, outcome)),
        (State::Spawn(plan), Reply::Spawned(spawned)) => Some(after_spawn(plan, spawned)),
        (State::Receive(plan), Reply::Received(signal)) => Some(after_receive(plan, signal)),
        _ => None,
    }
}

/// What holds of every state that a session is ever in: there is a command
/// to run once the shell is known, and a path to register while paths are
/// being registered.
pub open spec fn well_formed(state: State) -> bool {
    match state {
        State::LookupShell(_) => true,
        State::ReadInput(plan) => plan.utility.len() > 0,
        State::Register { plan, watch, next } => {
            &&& plan.utility.len() > 0
            &&& is_watch_list(watch)
            &&& 0 <= next < watch.len()
        },
        State::Clear(plan) => plan.utility.len() > 0,
        State::Spawn(plan) => plan.utility.len() > 0,
        State::Receive(plan) => plan.utility.len() > 0,
        State::Exit(_) => true,
    }
}

} // verus!
