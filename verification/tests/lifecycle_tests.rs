use score_gateway::lifecycle::LifecycleCoordinator;
use score_gateway::lifecycle::LifecyclePhase;

/// The ordinary shutdown: a signal starts draining, the last in-flight
/// request to finish stops the machine.
#[test]
fn drain_then_stop() {
    let mut c = LifecycleCoordinator::new();
    assert_eq!(c.phase, LifecyclePhase::Running);
    assert!(c.accepting());

    assert!(c.request_started());
    assert!(c.request_started());

    c.on_termination_signal();
    assert_eq!(c.phase, LifecyclePhase::Draining);
    assert!(!c.accepting());

    // No new work while draining.
    assert!(!c.request_started());

    c.request_finished();
    assert_eq!(c.phase, LifecyclePhase::Draining);
    c.request_finished();
    assert_eq!(c.phase, LifecyclePhase::Stopped);
    assert_eq!(c.in_flight, 0);
}

/// A signal with nothing in flight stops at once.
#[test]
fn idle_signal_stops_immediately() {
    let mut c = LifecycleCoordinator::new();
    c.on_termination_signal();
    assert_eq!(c.phase, LifecyclePhase::Stopped);
    assert!(!c.accepting());
}

/// The grace period running out stops a draining server even with work
/// still in flight; shutdown is one-way.
#[test]
fn grace_period_abandons_stragglers() {
    let mut c = LifecycleCoordinator::new();
    assert!(c.request_started());
    c.on_termination_signal();
    assert_eq!(c.phase, LifecyclePhase::Draining);

    c.on_grace_elapsed();
    assert_eq!(c.phase, LifecyclePhase::Stopped);
    assert_eq!(c.in_flight, 1);

    // Nothing moves a stopped machine.
    c.on_termination_signal();
    assert_eq!(c.phase, LifecyclePhase::Stopped);
    assert!(!c.request_started());
    assert_eq!(c.phase, LifecyclePhase::Stopped);
}

/// The grace timer has no effect while the server is still running.
#[test]
fn grace_is_inert_while_running() {
    let mut c = LifecycleCoordinator::new();
    c.on_grace_elapsed();
    assert_eq!(c.phase, LifecyclePhase::Running);
    assert!(c.accepting());
}
