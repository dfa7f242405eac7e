//! Whole runs of a session: the states it goes through on a sequence of
//! replies, the runs of the utility that it begins on the way, and what
//! holds of every such run.

use crate::error::Failure;
use crate::event::{triggers, ChangeKind, Signal};
use crate::model::{
    advance, after_receive, can_run, plan_of, start, well_formed, Plan, Reply, Setup, State,
};
use crate::shell::in_shell;
use crate::text::{is_blank, lines};
use crate::watch::{lemma_no_paths_iff_blank, lemma_paths_of_entries};
use vstd::prelude::*;

verus! {

/// The state of a session that started in `state` and has been given
/// `replies`, one after the other. There is none where one of them did not
/// answer what the session asked for at that point.
pub open spec fn run(state: State, replies: Seq<Reply>) -> Option<State>
    decreases replies.len(),
{
    if replies.len() == 0 {
        Some(state)
    } else {
        match run(state, replies.drop_last()) {
            Some(before) => advance(before, replies.last()),
            None => None,
        }
    }
}

/// Whether the step from `before` to `after` begins a run of the utility.
/// A run begins where the session asks for a clear screen, or for the child
/// without having asked for a clear screen just before.
pub open spec fn begins_run(before: State, after: State) -> bool {
    match after {
        State::Clear(_) => true,
        State::Spawn(_) => !(before is Clear),
        _ => false,
    }
}

/// How many runs of the utility a session that started in `state` has begun
/// when it has been given `replies`.
pub open spec fn invocations(state: State, replies: Seq<Reply>) -> nat
    decreases replies.len(),
{
    if replies.len() == 0 {
        0
    } else {
        let earlier = invocations(state, replies.drop_last());
        match (run(state, replies.drop_last()), run(state, replies)) {
            (Some(before), Some(after)) => if begins_run(before, after) {
                earlier + 1
            } else {
                earlier
            },
            _ => earlier,
        }
    }
}

/// Whether a reply delivers a modification.
pub open spec fn is_modification(reply: Reply) -> bool {
    reply matches Reply::Received(Signal::Event(change)) && triggers(change.kind)
}

/// How many of `replies` deliver a modification.
pub open spec fn modifications(replies: Seq<Reply>) -> nat
    decreases replies.len(),
{
    if replies.len() == 0 {
        0
    } else if is_modification(replies.last()) {
        modifications(replies.drop_last()) + 1
    } else {
        modifications(replies.drop_last())
    }
}

/// Whether a session in `state` is past its preparations: the watch set is
/// registered, and the session runs the utility or waits for a change.
pub open spec fn is_watching(state: State) -> bool {
    state is Clear || state is Spawn || state is Receive
}

/// Whether a session in `state` is still preparing: it has yet to learn the
/// shell, to read the input, or to register a path.
pub open spec fn is_preparing(state: State) -> bool {
    state is LookupShell || state is ReadInput || state is Register
}

/// The plan that a session in `state` goes by. A session that has failed
/// goes by none.
pub open spec fn plan_in(state: State) -> Option<Plan> {
    match state {
        State::LookupShell(plan) => Some(plan),
        State::ReadInput(plan) => Some(plan),
        State::Register { plan, .. } => Some(plan),
        State::Clear(plan) => Some(plan),
        State::Spawn(plan) => Some(plan),
        State::Receive(plan) => Some(plan),
        State::Exit(_) => None,
    }
}

/// The plan that a session started from `setup` goes by once it has been
/// given `replies`: the flags of the setup, and its utility, which in shell
/// mode is handed to the shell that the first reply named.
pub open spec fn settled_plan(setup: Setup, replies: Seq<Reply>) -> Plan {
    Plan {
        utility: if setup.use_shell && replies.len() > 0 {
            match replies.first() {
                Reply::Shell(shell) => in_shell(shell, setup.utility),
                _ => setup.utility,
            }
        } else {
            setup.utility
        },
        ..plan_of(setup)
    }
}

/// Nothing follows a failure: a session that has failed takes no reply.
pub proof fn law_failure_is_final(failure: Failure, reply: Reply)
    ensures
        advance(State::Exit(failure), reply) is None,
{
}

/// The command and the flags of a session are settled at the latest when
/// the shell is known, and never change after that: in every state the
/// session goes by the flags of its setup, and by its utility as it was
/// given or, in shell mode, behind the shell and `-c`.
pub proof fn law_plan_is_settled(setup: Setup, replies: Seq<Reply>)
    requires
        run(start(setup), replies) is Some,
    ensures
        plan_in(run(start(setup), replies)->0) matches Some(plan) ==> plan == settled_plan(
            setup,
            replies,
        ),
        run(start(setup), replies)->0 is LookupShell <==> setup.use_shell && replies.len() == 0,
    decreases replies.len(),
{
    if replies.len() > 0 {
        let earlier = replies.drop_last();
        law_plan_is_settled(setup, earlier);
        if earlier.len() > 0 {
            assert(earlier.first() == replies.first());
        }
    }
}

/// A step from a well-formed state leads to a well-formed state.
pub proof fn lemma_advance_well_formed(state: State, reply: Reply)
    requires
        well_formed(state),
        advance(state, reply) is Some,
    ensures
        well_formed(advance(state, reply)->0),
{
    match (state, reply) {
        (State::ReadInput(_), Reply::Input(Some(text))) => {
            lemma_no_paths_iff_blank(text);
            lemma_paths_of_entries(lines(text));
        },
        _ => {},
    }
}

/// Every state that a session is ever in is well formed, if the setup it
/// started from could be run: the watch set names a path, each of its paths
/// is trimmed and not empty, and the command has a first word.
pub proof fn law_always_well_formed(setup: Setup, replies: Seq<Reply>)
    requires
        can_run(setup),
        run(start(setup), replies) is Some,
    ensures
        well_formed(run(start(setup), replies)->0),
    decreases replies.len(),
{
    if replies.len() > 0 {
        let earlier = replies.drop_last();
        law_always_well_formed(setup, earlier);
        lemma_advance_well_formed(run(start(setup), earlier)->0, replies.last());
    }
}

/// Replies among which the channel delivers nothing deliver no modification.
proof fn lemma_no_delivery_no_modification(replies: Seq<Reply>)
    requires
        forall|i: int| 0 <= i < replies.len() ==> !(#[trigger] replies[i] is Received),
    ensures
        modifications(replies) == 0,
    decreases replies.len(),
{
    if replies.len() > 0 {
        let earlier = replies.drop_last();
        assert forall|i: int| 0 <= i < earlier.len() implies !(#[trigger] earlier[i] is Received) by {
            assert(earlier[i] == replies[i]);
        }
        lemma_no_delivery_no_modification(earlier);
        assert(!(replies[replies.len() - 1] is Received));
    }
}

/// The runs that a session has begun are the first one, which it begins
/// once the watch set is registered unless it postpones, and one for each
/// modification that the channel has delivered since.
pub proof fn law_runs_follow_modifications(setup: Setup, replies: Seq<Reply>)
    requires
        run(start(setup), replies) is Some,
    ensures
        ({
            let state = run(start(setup), replies)->0;
            let begun = invocations(start(setup), replies);
            let first = if setup.postpone { 0nat } else { 1nat };
            &&& is_preparing(state) ==> begun == 0 && modifications(replies) == 0
            &&& is_watching(state) ==> begun == modifications(replies) + first
            &&& modifications(replies) <= begun <= modifications(replies) + first
        }),
    decreases replies.len(),
{
    if replies.len() > 0 {
        law_runs_follow_modifications(setup, replies.drop_last());
        law_plan_is_settled(setup, replies.drop_last());
    }
}

/// Until the channel gives something for the first time, a session begins
/// exactly one run of the utility, and begins it before it turns to the
/// channel; a session that postpones begins none.
pub proof fn law_first_run(setup: Setup, replies: Seq<Reply>)
    requires
        run(start(setup), replies) is Some,
        forall|i: int| 0 <= i < replies.len() ==> !(#[trigger] replies[i] is Received),
    ensures
        setup.postpone ==> invocations(start(setup), replies) == 0,
        !setup.postpone ==> invocations(start(setup), replies) <= 1,
        !setup.postpone && run(start(setup), replies)->0 is Receive ==> invocations(
            start(setup),
            replies,
        ) == 1,
{
    law_runs_follow_modifications(setup, replies);
    lemma_no_delivery_no_modification(replies);
}

/// A session that postpones begins no run of the utility before the channel
/// delivers a modification, whatever else it delivers.
pub proof fn law_postponed_until_modified(setup: Setup, replies: Seq<Reply>)
    requires
        setup.postpone,
        run(start(setup), replies) is Some,
        forall|i: int| 0 <= i < replies.len() ==> !is_modification(#[trigger] replies[i]),
    ensures
        invocations(start(setup), replies) == 0,
    decreases replies.len(),
{
    law_runs_follow_modifications(setup, replies);
    lemma_none_is_modification(replies);
}

/// Replies none of which delivers a modification deliver no modification.
proof fn lemma_none_is_modification(replies: Seq<Reply>)
    requires
        forall|i: int| 0 <= i < replies.len() ==> !is_modification(#[trigger] replies[i]),
    ensures
        modifications(replies) == 0,
    decreases replies.len(),
{
    if replies.len() > 0 {
        let earlier = replies.drop_last();
        assert forall|i: int| 0 <= i < earlier.len() implies !is_modification(
            #[trigger] earlier[i],
        ) by {
            assert(earlier[i] == replies[i]);
        }
        lemma_none_is_modification(earlier);
        assert(!is_modification(replies[replies.len() - 1]));
    }
}

/// A change that the channel delivers begins a run of the utility if it is
/// a modification, and no run if it is of any other kind.
pub proof fn law_only_modifications_trigger(plan: Plan, signal: Signal)
    ensures
        begins_run(State::Receive(plan), after_receive(plan, signal)) <==> (signal matches Signal::Event(
            change,
        ) && change.kind == ChangeKind::Modify),
        invocations(State::Receive(plan), seq![Reply::Received(signal)]) == if is_modification(
            Reply::Received(signal),
        ) {
            1nat
        } else {
            0nat
        },
{
    let state = State::Receive(plan);
    let replies = seq![Reply::Received(signal)];
    assert(replies.drop_last() =~= Seq::<Reply>::empty());
    assert(run(state, replies.drop_last()) == Some(state));
    assert(run(state, replies) == advance(state, replies.last()));
    assert(invocations(state, replies.drop_last()) == 0);
}

/// Once a session watches, it begins one run of the utility for each
/// modification that the channel delivers: as many runs as modifications,
/// however fast they follow one another, and never one run for several.
pub proof fn law_no_coalescing(state: State, replies: Seq<Reply>)
    requires
        is_watching(state),
        run(state, replies) is Some,
    ensures
        invocations(state, replies) == modifications(replies),
        !is_preparing(run(state, replies)->0),
    decreases replies.len(),
{
    if replies.len() > 0 {
        law_no_coalescing(state, replies.drop_last());
    }
}

/// A session that is preparing has never turned to the channel, and has
/// never been anything but preparing.
proof fn lemma_preparing_so_far(setup: Setup, replies: Seq<Reply>, k: int)
    requires
        run(start(setup), replies) is Some,
        is_preparing(run(start(setup), replies)->0),
        0 <= k <= replies.len(),
    ensures
        run(start(setup), replies.take(k)) is Some,
        is_preparing(run(start(setup), replies.take(k))->0),
    decreases replies.len(),
{
    if k == replies.len() {
        assert(replies.take(k) =~= replies);
    } else {
        let earlier = replies.drop_last();
        lemma_preparing_so_far(setup, earlier, k);
        assert(earlier.take(k) =~= replies.take(k));
    }
}

/// A path that the monitor refuses ends the session: the refusal is the
/// last reply that the session takes, the session fails with the path that
/// was refused, and it has at no time turned to the channel.
pub proof fn law_refused_path_ends_session(setup: Setup, replies: Seq<Reply>, i: int)
    requires
        run(start(setup), replies) is Some,
        0 <= i < replies.len(),
        replies[i] == Reply::Registered(false),
    ensures
        i == replies.len() - 1,
        run(start(setup), replies.drop_last()) matches Some(State::Register { watch, next, .. })
            && run(start(setup), replies) == Some(
            State::Exit(Failure::WatchRegistrationFailed(watch[next])),
        ),
        forall|k: int|
            0 <= k <= replies.len() ==> (#[trigger] run(start(setup), replies.take(k))) is Some
                && !(run(start(setup), replies.take(k))->0 is Receive),
    decreases replies.len(),
{
    let earlier = replies.drop_last();
    if i < replies.len() - 1 {
        assert(earlier[i] == replies[i]);
        law_refused_path_ends_session(setup, earlier, i);
    } else {
        assert forall|k: int| 0 <= k <= replies.len() implies (#[trigger] run(
            start(setup),
            replies.take(k),
        )) is Some && !(run(start(setup), replies.take(k))->0 is Receive) by {
            if k == replies.len() {
                assert(replies.take(k) =~= replies);
            } else {
                lemma_preparing_so_far(setup, earlier, k);
                assert(earlier.take(k) =~= replies.take(k));
            }
        }
    }
}

/// Input that names no path ends the session: it is the last reply that the
/// session takes, the session fails for want of paths, and it has at no time
/// asked for a path to be registered.
pub proof fn law_blank_input_ends_session(setup: Setup, replies: Seq<Reply>, i: int)
    requires
        run(start(setup), replies) is Some,
        0 <= i < replies.len(),
        replies[i] matches Reply::Input(Some(text)) && is_blank(text),
    ensures
        i == replies.len() - 1,
        run(start(setup), replies) == Some(State::Exit(Failure::NoFilesToWatch)),
        forall|k: int|
            0 <= k <= replies.len() ==> (#[trigger] run(start(setup), replies.take(k))) is Some
                && !(run(start(setup), replies.take(k))->0 is Register),
    decreases replies.len(),
{
    let earlier = replies.drop_last();
    if i < replies.len() - 1 {
        assert(earlier[i] == replies[i]);
        law_blank_input_ends_session(setup, earlier, i);
    } else {
        assert forall|k: int| 0 <= k <= replies.len() implies (#[trigger] run(
            start(setup),
            replies.take(k),
        )) is Some && !(run(start(setup), replies.take(k))->0 is Register) by {
            if k == replies.len() {
                assert(replies.take(k) =~= replies);
            } else {
                lemma_before_input(setup, earlier, k);
                assert(earlier.take(k) =~= replies.take(k));
            }
        }
    }
}

/// A session that has yet to read its input has never asked for anything
/// but the shell and the input.
proof fn lemma_before_input(setup: Setup, replies: Seq<Reply>, k: int)
    requires
        run(start(setup), replies) is Some,
        run(start(setup), replies)->0 is LookupShell || run(start(setup), replies)->0 is ReadInput,
        0 <= k <= replies.len(),
    ensures
        run(start(setup), replies.take(k)) is Some,
        run(start(setup), replies.take(k))->0 is LookupShell || run(
            start(setup),
            replies.take(k),
        )->0 is ReadInput,
    decreases replies.len(),
{
    if k == replies.len() {
        assert(replies.take(k) =~= replies);
    } else {
        let earlier = replies.drop_last();
        lemma_before_input(setup, earlier, k);
        assert(earlier.take(k) =~= replies.take(k));
    }
}

} // verus!
