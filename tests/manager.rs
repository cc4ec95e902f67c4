use krator::controller::{ControllerBuilder, Operator, DEFAULT_BUFFER};
use krator::manager::Manager;
use krator::watch::{Watch, WatchFilter, Watchable};

struct Widget;

impl Watchable for Widget {
    fn group() -> String {
        "example.com".to_string()
    }
    fn version() -> String {
        "v1".to_string()
    }
    fn kind() -> String {
        "Widget".to_string()
    }
}

struct Pod;

impl Watchable for Pod {
    fn group() -> String {
        String::new()
    }
    fn version() -> String {
        "v1".to_string()
    }
    fn kind() -> String {
        "Pod".to_string()
    }
}

struct WidgetOperator(u32);

impl Operator for WidgetOperator {
    type Manifest = Widget;
}

fn labelled(s: &str) -> WatchFilter {
    WatchFilter { label_selector: Some(s.to_string()), field_selector: None }
}

#[test]
fn builder_defaults() {
    let b = ControllerBuilder::new(WidgetOperator(1));
    assert_eq!(b.buffer(), 32);
    assert_eq!(DEFAULT_BUFFER, 32);
    let w = b.manages();
    assert_eq!(w.kind, "Widget");
    assert_eq!(w.group, "example.com");
    assert_eq!(w.namespace, None);
}

#[test]
fn builder_settings() {
    let b = ControllerBuilder::new(WidgetOperator(1))
        .with_buffer(8)
        .namespaced("prod")
        .with_config(labelled("app=w"));
    assert_eq!(b.buffer(), 8);
    let w = b.manages();
    assert_eq!(w.namespace, Some("prod".to_string()));
    assert_eq!(w.filter.label_selector, Some("app=w".to_string()));
}

#[test]
fn builder_auxiliary_watches() {
    let b = ControllerBuilder::new(WidgetOperator(1))
        .watches::<Pod>()
        .watches_with_params::<Pod>(labelled("x"))
        .watches_namespaced::<Pod>("ns")
        .watches_namespaced_with_params::<Pod>("ns", labelled("y"))
        .owns::<Pod>()
        .owns_with_params::<Pod>(labelled("z"))
        .owns_namespaced::<Pod>("ns")
        .owns_namespaced_with_params::<Pod>("ns", labelled("z"));
    let (c, op) = b.build();
    assert_eq!(op.0, 1);
    assert_eq!(c.watches.len(), 4);
    assert_eq!(c.owns.len(), 4);
    assert_eq!(c.watches[2].namespace, Some("ns".to_string()));
    assert_eq!(c.owns[3].filter.label_selector, Some("z".to_string()));
    assert_eq!(c.owns[0].kind, "Pod");
    assert_eq!(c.buffer, 32);
}

#[test]
fn watch_equivalence() {
    let a = Watch::new::<Pod>(Some("ns".to_string()), WatchFilter::everything());
    let b = a.duplicate();
    assert!(a.equivalent(&b));
    let c = Watch::new::<Pod>(None, WatchFilter::everything());
    assert!(!a.equivalent(&c));
    let d = Watch::new::<Pod>(Some("ns".to_string()), labelled("k"));
    assert!(!a.equivalent(&d));
    let e = Watch::new::<Widget>(Some("ns".to_string()), WatchFilter::everything());
    assert!(!a.equivalent(&e));
}

#[test]
fn manager_launches_one_watcher_per_distinct_watch() {
    let mut m = Manager::new();
    let op = m.register_controller(ControllerBuilder::new(WidgetOperator(1)).watches::<Pod>().owns::<Pod>());
    assert_eq!(op.0, 1);
    m.register_controller(ControllerBuilder::new(WidgetOperator(2)).watches::<Pod>().namespaced("ns"));
    let ws = m.watchers();
    // Widget (cluster), Pod (cluster, three times), Widget in "ns".
    assert_eq!(ws.len(), 3);
    assert_eq!(ws[0].kind, "Widget");
    assert_eq!(ws[1].kind, "Pod");
    assert_eq!(ws[2].namespace, Some("ns".to_string()));
}

#[test]
fn manager_without_controllers_launches_nothing() {
    assert!(Manager::new().watchers().is_empty());
}
