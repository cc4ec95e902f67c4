use krator::cell::{ManifestCell, Received};
use krator::engine::{Engine, StateGraph, Step, Transition, TransitionRejected};

const S1: u64 = 1;
const S2: u64 = 2;
const S3: u64 = 3;
const GONE: u64 = 9;

fn graph() -> StateGraph {
    let mut g = StateGraph::new(S1, GONE);
    g.declare(S1, S2);
    g
}

#[test]
fn undeclared_transition_is_rejected() {
    let g = graph();
    assert!(g.permits(S1, S2));
    assert!(!g.permits(S1, S3));
    assert!(!g.permits(S2, S1));
    match Transition::checked_next(&g, S1, S3) {
        Err(e) => assert_eq!(e, TransitionRejected { from: S1, to: S3 }),
        Ok(_) => panic!("undeclared edge accepted"),
    }
}

#[test]
fn deleted_state_reachable_from_anywhere() {
    let g = graph();
    assert!(g.permits(S3, GONE));
    assert!(Transition::checked_next(&g, S2, GONE).is_ok());
}

#[test]
fn engine_walks_declared_edges() {
    let mut e = Engine::start(graph());
    assert_eq!(e.current_state(), S1);
    let t = Transition::checked_next(&graph(), S1, S2).unwrap();
    assert!(matches!(e.advance(t), Ok(Step::Continue(S2))));
    assert_eq!(e.current_state(), S2);
    assert!(matches!(e.advance(Transition::complete(S2, Ok(()))), Ok(Step::Succeeded)));
}

#[test]
fn engine_refuses_transition_from_other_state() {
    let mut e = Engine::start(graph());
    let mut g = graph();
    g.declare(S2, S3);
    let t = Transition::checked_next(&g, S2, S3).unwrap();
    assert_eq!(e.advance(t).err(), Some(TransitionRejected { from: S1, to: S3 }));
    assert_eq!(e.current_state(), S1);
}

#[test]
fn engine_error_completion() {
    let mut e = Engine::start(graph());
    match e.advance(Transition::complete(S1, Err("boom".to_string()))) {
        Ok(Step::Failed(m)) => assert_eq!(m, "boom"),
        _ => panic!("expected failure"),
    }
}

#[test]
fn preempt_jumps_to_deleted_state() {
    let mut e = Engine::start(graph());
    e.preempt();
    assert_eq!(e.current_state(), GONE);
    let d = Engine::start_deleted(graph());
    assert_eq!(d.current_state(), GONE);
    assert_eq!(graph().deleted_state(), GONE);
    assert_eq!(graph().initial_state(), S1);
}

#[test]
fn declared_transition_built_directly() {
    let g = graph();
    let mut e = Engine::start(graph());
    let t = Transition::next(&g, S1, S2);
    assert!(matches!(e.advance(t), Ok(Step::Continue(S2))));
    let back = Transition::next(&g, S2, GONE);
    assert!(matches!(e.advance(back), Ok(Step::Continue(GONE))));
}

#[test]
fn rapid_updates_coalesce() {
    let mut c = ManifestCell::new(0u32);
    assert!(matches!(c.take(), Received::Manifest(0)));
    assert!(matches!(c.take(), Received::Pending));
    for gen in 1..=100u32 {
        c.write(gen);
    }
    assert!(matches!(c.take(), Received::Manifest(100)));
    assert!(matches!(c.take(), Received::Pending));
}

#[test]
fn reads_never_go_back() {
    let mut c = ManifestCell::new(1u32);
    let mut last = 0;
    for gen in 2..=20u32 {
        c.write(gen);
        if gen % 3 == 0 {
            if let Received::Manifest(v) = c.take() {
                assert!(v > last);
                last = v;
            }
        }
    }
    assert!(matches!(c.take(), Received::Manifest(20)));
}

#[test]
fn closed_cell_ends_stream_after_last_value() {
    let mut c = ManifestCell::new(5u32);
    c.write(6);
    c.close();
    assert!(matches!(c.take(), Received::Manifest(6)));
    assert!(matches!(c.take(), Received::Closed));
}
