use krator::dispatch::{listed, Command, Dispatcher, WatchEvent};
use krator::key::ObjectKey;

fn key(name: &str) -> ObjectKey {
    ObjectKey::new(Some("default".to_string()), name.to_string())
}

fn apply(d: &mut Dispatcher, name: &str) -> Vec<Command> {
    d.handle_event(&WatchEvent::Applied(key(name)))
}

fn started(c: &Command) -> (u64, String) {
    match c {
        Command::Start { handler, key, .. } => (*handler, key.name().clone()),
        _ => panic!("expected a start"),
    }
}

#[test]
fn first_apply_starts_then_forwards() {
    let mut d = Dispatcher::new();
    let first = apply(&mut d, "w1");
    assert_eq!(first.len(), 1);
    assert_eq!(started(&first[0]), (0, "w1".to_string()));
    let second = apply(&mut d, "w1");
    assert_eq!(second.len(), 1);
    assert!(matches!(second[0], Command::Forward { handler: 0, object: 0, .. }));
}

#[test]
fn one_handler_per_key() {
    let mut d = Dispatcher::new();
    for _ in 0..5 {
        apply(&mut d, "w1");
    }
    let cmds = d.handle_event(&WatchEvent::Restarted(vec![]));
    assert_eq!(cmds.len(), 1);
    assert!(matches!(cmds[0], Command::Terminate { handler: 0, .. }));
}

#[test]
fn applied_after_delete_starts_new_supervisor() {
    let mut d = Dispatcher::new();
    apply(&mut d, "w1");
    let del = d.handle_event(&WatchEvent::Deleted(key("w1")));
    assert_eq!(del.len(), 1);
    assert!(matches!(del[0], Command::Terminate { handler: 0, .. }));
    let again = apply(&mut d, "w1");
    assert_eq!(started(&again[0]), (1, "w1".to_string()));
}

#[test]
fn delete_of_unknown_key_sends_nothing() {
    let mut d = Dispatcher::new();
    let del = d.handle_event(&WatchEvent::Deleted(key("ghost")));
    assert!(del.is_empty());
}

#[test]
fn namespace_absence_differs_from_empty() {
    let mut d = Dispatcher::new();
    d.handle_event(&WatchEvent::Applied(ObjectKey::new(None, "w".to_string())));
    let other = d.handle_event(&WatchEvent::Applied(ObjectKey::new(Some(String::new()), "w".to_string())));
    assert_eq!(started(&other[0]).0, 1);
}

#[test]
fn resync_deletes_gone_keys_before_applies() {
    // Table holds {A, C}; the restart lists {A, B}.
    let mut d = Dispatcher::new();
    apply(&mut d, "a");
    apply(&mut d, "c");
    let cmds = d.handle_event(&WatchEvent::Restarted(vec![key("a"), key("b")]));
    assert_eq!(cmds.len(), 3);
    match &cmds[0] {
        Command::Terminate { handler, key } => {
            assert_eq!(*handler, 1);
            assert_eq!(key.name(), "c");
        }
        _ => panic!("expected the deletion first"),
    }
    assert!(matches!(cmds[1], Command::Forward { handler: 0, object: 0, .. }));
    assert!(matches!(cmds[2], Command::Start { handler: 2, object: 1, .. }));
}

#[test]
fn restart_diff_scenario() {
    let mut d = Dispatcher::new();
    apply(&mut d, "a");
    apply(&mut d, "b");
    apply(&mut d, "c");
    let cmds = d.handle_event(&WatchEvent::Restarted(vec![key("a"), key("b"), key("d")]));
    assert_eq!(cmds.len(), 4);
    assert!(matches!(cmds[0], Command::Terminate { handler: 2, .. }));
    assert!(matches!(cmds[1], Command::Forward { handler: 0, object: 0, .. }));
    assert!(matches!(cmds[2], Command::Forward { handler: 1, object: 1, .. }));
    assert_eq!(started(&cmds[3]), (3, "d".to_string()));
    // Only the listed keys are tracked now.
    let after = d.handle_event(&WatchEvent::Deleted(key("c")));
    assert!(after.is_empty());
}

#[test]
fn restart_with_repeated_key_starts_once() {
    let mut d = Dispatcher::new();
    let cmds = d.handle_event(&WatchEvent::Restarted(vec![key("x"), key("x")]));
    assert_eq!(cmds.len(), 2);
    assert!(matches!(cmds[0], Command::Start { handler: 0, object: 0, .. }));
    assert!(matches!(cmds[1], Command::Forward { handler: 0, object: 1, .. }));
}

#[test]
fn shutdown_gate_drops_applies_only() {
    let mut d = Dispatcher::new();
    apply(&mut d, "old");
    d.shut_down();
    assert!(d.is_shutting_down());
    assert!(apply(&mut d, "new").is_empty());
    assert!(apply(&mut d, "old").is_empty());
    let del = d.handle_event(&WatchEvent::Deleted(key("old")));
    assert_eq!(del.len(), 1);
    assert!(matches!(del[0], Command::Terminate { handler: 0, .. }));
}

#[test]
fn shutdown_gate_lets_restarts_through() {
    let mut d = Dispatcher::new();
    d.shut_down();
    let cmds = d.handle_event(&WatchEvent::Restarted(vec![key("r")]));
    assert_eq!(cmds.len(), 1);
    assert!(matches!(cmds[0], Command::Start { handler: 0, .. }));
}

#[test]
fn discard_dead_handler_then_restart() {
    let mut d = Dispatcher::new();
    apply(&mut d, "w1");
    d.discard(&key("w1"), 7);
    assert!(matches!(apply(&mut d, "w1")[0], Command::Forward { handler: 0, .. }));
    d.discard(&key("w1"), 0);
    assert_eq!(started(&apply(&mut d, "w1")[0]).0, 1);
}

#[test]
fn handler_numbers_and_sizes() {
    let mut d = Dispatcher::new();
    assert_eq!(d.handlers_left(), u64::MAX);
    apply(&mut d, "w1");
    assert_eq!(d.handlers_left(), u64::MAX - 1);
    assert_eq!(WatchEvent::Restarted(vec![key("a"), key("b")]).size(), 2);
    assert_eq!(WatchEvent::Deleted(key("a")).size(), 0);
    assert!(listed(&vec![key("a"), key("b")], &key("b")));
    assert!(!listed(&vec![key("a")], &key("b")));
}
