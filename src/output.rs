//! The output channel's state machine. One peer at a time has the process's
//! standard output redirected to it; a new peer evicts the previous one, and
//! when a peer goes away standard output is restored.
use vstd::prelude::*;

verus! {

/// Whether standard output is redirected, and to which peer.
#[derive(Clone, Copy, Debug, PartialEq, Eq, Structural)]
pub enum OutputState {
    Idle,
    Redirected { peer: u64 },
}

/// What happens on the output channel.
#[derive(Clone, Copy, Debug, PartialEq, Eq, Structural)]
pub enum OutputEvent {
    /// A new peer was accepted.
    Accepted { peer: u64 },
    /// A peer's reader saw the peer go away.
    PeerClosed { peer: u64 },
}

/// What the listener must do, in order.
#[derive(Clone, Copy, Debug, PartialEq, Eq, Structural)]
pub enum OutputAction {
    /// Close the peer's socket and wait for its reader to finish.
    Evict { peer: u64 },
    /// Point standard output back at the saved descriptor, and close that one.
    Restore,
    /// Save standard output, then point it at the peer's socket.
    Redirect { peer: u64 },
}

pub open spec fn next_state(s: OutputState, e: OutputEvent) -> OutputState {
    match e {
        OutputEvent::Accepted { peer } => OutputState::Redirected { peer },
        OutputEvent::PeerClosed { peer } => match s {
            OutputState::Redirected { peer: p } if p == peer => OutputState::Idle,
            _ => s,
        },
    }
}

pub open spec fn actions_of(s: OutputState, e: OutputEvent) -> Seq<OutputAction> {
    match e {
        OutputEvent::Accepted { peer } => match s {
            OutputState::Idle => seq![OutputAction::Redirect { peer }],
            OutputState::Redirected { peer: old } => seq![
                OutputAction::Evict { peer: old },
                OutputAction::Restore,
                OutputAction::Redirect { peer },
            ],
        },
        OutputEvent::PeerClosed { peer } => match s {
            OutputState::Redirected { peer: p } if p == peer => seq![OutputAction::Restore],
            _ => seq![],
        },
    }
}

/// The next state of the output channel, and the actions that take it there.
pub fn output_step(state: OutputState, event: OutputEvent) -> (r: (OutputState, Vec<OutputAction>))
    ensures
        r.0 == next_state(state, event),
        r.1@ == actions_of(state, event),
{
    match event {
        OutputEvent::Accepted { peer } => match state {
            OutputState::Idle => (OutputState::Redirected { peer }, vec![OutputAction::Redirect { peer }]),
            OutputState::Redirected { peer: old } => {
                let acts = vec![
                    OutputAction::Evict { peer: old },
                    OutputAction::Restore,
                    OutputAction::Redirect { peer },
                ];
                assert(acts@ =~= actions_of(state, event));
                (OutputState::Redirected { peer }, acts)
            },
        },
        OutputEvent::PeerClosed { peer } => match state {
            OutputState::Redirected { peer: p } => {
                if p == peer {
                    let acts = vec![OutputAction::Restore];
                    assert(acts@ =~= actions_of(state, event));
                    (OutputState::Idle, acts)
                } else {
                    let acts: Vec<OutputAction> = Vec::new();
                    assert(acts@ =~= actions_of(state, event));
                    (state, acts)
                }
            },
            OutputState::Idle => {
                let acts: Vec<OutputAction> = Vec::new();
                assert(acts@ =~= actions_of(state, event));
                (state, acts)
            },
        },
    }
}

/// What a file descriptor refers to: the standard output the process started with,
/// or a peer's socket.
pub enum Target {
    Initial,
    Peer(u64),
}

/// Descriptor 1, and the saved duplicate of what it referred to, if any.
pub struct StdoutModel {
    pub fd1: Target,
    pub saved: Option<Target>,
}

/// The effect of one action on descriptor 1 and the saved descriptor.
pub open spec fn apply_action(m: StdoutModel, a: OutputAction) -> StdoutModel {
    match a {
        OutputAction::Evict { .. } => m,
        OutputAction::Restore => match m.saved {
            Some(t) => StdoutModel { fd1: t, saved: None },
            None => m,
        },
        OutputAction::Redirect { peer } => StdoutModel {
            fd1: Target::Peer(peer),
            saved: Some(m.fd1),
        },
    }
}

/// The effect of a list of actions, in order.
pub open spec fn apply_actions(m: StdoutModel, acts: Seq<OutputAction>) -> StdoutModel
    decreases acts.len(),
{
    if acts.len() == 0 {
        m
    } else {
        apply_action(apply_actions(m, acts.drop_last()), acts.last())
    }
}

/// Whether the descriptors agree with the state: when idle, descriptor 1 is
/// the initial output and nothing is saved; when redirected, descriptor 1 is
/// that one peer's socket and the initial output is saved.
pub open spec fn agrees(s: OutputState, m: StdoutModel) -> bool {
    match s {
        OutputState::Idle => m.fd1 == Target::Initial && m.saved is None,
        OutputState::Redirected { peer } => m.fd1 == Target::Peer(peer) && m.saved == Some(
            Target::Initial,
        ),
    }
}

/// Every step keeps the descriptors in agreement with the state, so standard
/// output goes to at most one peer at a time; and when the attached peer goes
/// away, descriptor 1 refers to the initial output again.
pub proof fn lemma_step_restores(s: OutputState, e: OutputEvent, m: StdoutModel)
    requires
        agrees(s, m),
    ensures
        agrees(next_state(s, e), apply_actions(m, actions_of(s, e))),
        (e matches OutputEvent::PeerClosed { peer } && s == (OutputState::Redirected { peer }))
            ==> apply_actions(m, actions_of(s, e)).fd1 == Target::Initial,
{
    let acts = actions_of(s, e);
    if acts.len() > 0 {
        assert(acts.drop_last().len() == 0 || acts.drop_last().drop_last().len() == 0
            || acts.drop_last().drop_last().drop_last().len() == 0);
    }
    reveal_with_fuel(apply_actions, 4);
}

/// The state and descriptors after the events `es`, from `s` and `m`.
pub open spec fn run_events(s: OutputState, m: StdoutModel, es: Seq<OutputEvent>) -> (
    OutputState,
    StdoutModel,
)
    decreases es.len(),
{
    if es.len() == 0 {
        (s, m)
    } else {
        let (s1, m1) = run_events(s, m, es.drop_last());
        (next_state(s1, es.last()), apply_actions(m1, actions_of(s1, es.last())))
    }
}

/// From an idle channel with nothing saved, after any events the descriptors
/// agree with the state: standard output goes to at most one peer, and it is
/// the initial output again whenever no peer is attached.
pub proof fn lemma_events_keep_redirection(es: Seq<OutputEvent>)
    ensures
        agrees(
            run_events(OutputState::Idle, StdoutModel { fd1: Target::Initial, saved: None }, es).0,
            run_events(OutputState::Idle, StdoutModel { fd1: Target::Initial, saved: None }, es).1,
        ),
    decreases es.len(),
{
    if es.len() > 0 {
        lemma_events_keep_redirection(es.drop_last());
        let (s1, m1) = run_events(
            OutputState::Idle,
            StdoutModel { fd1: Target::Initial, saved: None },
            es.drop_last(),
        );
        lemma_step_restores(s1, es.last(), m1);
    }
}

} // verus!
