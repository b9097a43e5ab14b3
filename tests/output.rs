use rust_shell::output::{output_step, OutputAction, OutputEvent, OutputState};

#[test]
fn first_peer_is_redirected() {
    let (s, acts) = output_step(OutputState::Idle, OutputEvent::Accepted { peer: 1 });
    assert_eq!(s, OutputState::Redirected { peer: 1 });
    assert_eq!(acts, vec![OutputAction::Redirect { peer: 1 }]);
}

#[test]
fn attach_eviction() {
    let (s, _) = output_step(OutputState::Idle, OutputEvent::Accepted { peer: 1 });
    let (s, acts) = output_step(s, OutputEvent::Accepted { peer: 2 });
    assert_eq!(s, OutputState::Redirected { peer: 2 });
    assert_eq!(
        acts,
        vec![
            OutputAction::Evict { peer: 1 },
            OutputAction::Restore,
            OutputAction::Redirect { peer: 2 }
        ]
    );
    let (s, acts) = output_step(s, OutputEvent::PeerClosed { peer: 1 });
    assert_eq!(s, OutputState::Redirected { peer: 2 });
    assert!(acts.is_empty());
    let (s, acts) = output_step(s, OutputEvent::PeerClosed { peer: 2 });
    assert_eq!(s, OutputState::Idle);
    assert_eq!(acts, vec![OutputAction::Restore]);
}

#[test]
fn close_while_idle_does_nothing() {
    let (s, acts) = output_step(OutputState::Idle, OutputEvent::PeerClosed { peer: 3 });
    assert_eq!(s, OutputState::Idle);
    assert!(acts.is_empty());
}
