use krator::flags::{DeletionFlags, FanIn};
use krator::supervisor::{Action, DeleteOutcome, Phase, Supervisor, SupervisorEvent};

fn drive(s: &mut Supervisor, events: &[SupervisorEvent]) -> Vec<Action> {
    events.iter().map(|e| s.on_event(*e)).collect()
}

#[test]
fn create_delete_happy_path() {
    let (mut s, first) = Supervisor::new();
    assert_eq!(first, Action::RunRegistrationHook);
    let actions = drive(
        &mut s,
        &[
            SupervisorEvent::Registered(true),
            SupervisorEvent::MachineFinished,
            SupervisorEvent::DeletedSignal,
            SupervisorEvent::Dropped,
            SupervisorEvent::Deregistered(true),
            SupervisorEvent::ApiDeleted(DeleteOutcome::Deleted),
            SupervisorEvent::Confirmed,
        ],
    );
    assert_eq!(
        actions,
        vec![
            Action::RunInitialState,
            Action::AwaitDeleted,
            Action::AsyncDrop,
            Action::RunDeregistrationHook,
            Action::DeleteObject { grace_period_seconds: 0 },
            Action::AwaitConfirmed,
            Action::Exit,
        ]
    );
    assert_eq!(s.phase(), Phase::Done);
    assert!(!actions.contains(&Action::RunDeletedState));
}

#[test]
fn deletion_during_work_runs_deleted_state() {
    let (mut s, _) = Supervisor::new();
    let actions = drive(
        &mut s,
        &[
            SupervisorEvent::Registered(true),
            SupervisorEvent::DeletedSignal,
            SupervisorEvent::MachineFinished,
            SupervisorEvent::Dropped,
            SupervisorEvent::Deregistered(false),
            SupervisorEvent::ApiDeleted(DeleteOutcome::NotFound),
            SupervisorEvent::Confirmed,
        ],
    );
    assert_eq!(
        actions,
        vec![
            Action::RunInitialState,
            Action::RunDeletedState,
            Action::AsyncDrop,
            Action::RunDeregistrationHook,
            Action::DeleteObject { grace_period_seconds: 0 },
            Action::AwaitConfirmed,
            Action::Exit,
        ]
    );
}

#[test]
fn failed_registration_aborts() {
    let (mut s, _) = Supervisor::new();
    assert_eq!(s.on_event(SupervisorEvent::Registered(false)), Action::Exit);
    assert_eq!(s.phase(), Phase::Aborted);
    assert_eq!(s.on_event(SupervisorEvent::DeletedSignal), Action::Continue);
}

#[test]
fn deletion_before_registration_ends_goes_to_deleted_state() {
    let (mut s, _) = Supervisor::new();
    assert_eq!(s.on_event(SupervisorEvent::DeletedSignal), Action::Continue);
    assert_eq!(s.on_event(SupervisorEvent::Registered(true)), Action::RunDeletedState);
}

#[test]
fn async_drop_once_despite_repeated_signals() {
    let (mut s, _) = Supervisor::new();
    let actions = drive(
        &mut s,
        &[
            SupervisorEvent::Registered(true),
            SupervisorEvent::DeletedSignal,
            SupervisorEvent::DeletedSignal,
            SupervisorEvent::MachineFinished,
            SupervisorEvent::DeletedSignal,
            SupervisorEvent::MachineFinished,
            SupervisorEvent::Dropped,
            SupervisorEvent::DeletedSignal,
            SupervisorEvent::Deregistered(true),
            SupervisorEvent::ApiDeleted(DeleteOutcome::Failed),
            SupervisorEvent::Confirmed,
        ],
    );
    assert_eq!(actions.iter().filter(|a| **a == Action::AsyncDrop).count(), 1);
    assert_eq!(actions.iter().filter(|a| **a == Action::RunDeletedState).count(), 1);
    assert_eq!(actions.last(), Some(&Action::Exit));
}

#[test]
fn no_deletion_never_runs_deleted_state() {
    let (mut s, _) = Supervisor::new();
    let actions = drive(
        &mut s,
        &[
            SupervisorEvent::Registered(true),
            SupervisorEvent::MachineFinished,
            SupervisorEvent::Confirmed,
            SupervisorEvent::Dropped,
        ],
    );
    assert!(!actions.contains(&Action::RunDeletedState));
    assert!(!actions.contains(&Action::AsyncDrop));
    assert_eq!(s.phase(), Phase::Quiescing);
}

#[test]
fn fan_in_flags() {
    let mut f = DeletionFlags::new();
    assert!(!f.deleted() && !f.confirmed());
    assert_eq!(f.on_applied(false), FanIn::Publish);
    assert!(!f.deleted());
    assert_eq!(f.on_applied(true), FanIn::Publish);
    assert!(f.deleted() && !f.confirmed());
    assert_eq!(f.on_applied(false), FanIn::Publish);
    assert!(f.deleted());
    assert_eq!(f.on_deleted(), FanIn::Stop);
    assert!(f.deleted() && f.confirmed());
}
