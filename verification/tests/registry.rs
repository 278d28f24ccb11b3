use specta_export::model::{ImplLocation, RegistrationError, TypeDescriptor};
use specta_export::registry::Registry;

fn descriptor(name: &str, export: Option<bool>, location: &str) -> TypeDescriptor {
    TypeDescriptor {
        name: name.to_string(),
        export,
        impl_location: ImplLocation(location.to_string()),
    }
}

fn error(location: &str, reason: &str) -> RegistrationError {
    RegistrationError { impl_location: ImplLocation(location.to_string()), reason: reason.to_string() }
}

#[test]
fn a_new_registry_is_empty() {
    let registry = Registry::new();
    assert!(registry.slots().is_empty());
    assert_eq!(registry.first_error(), None);
    assert!(registry.is_resolved());
}

#[test]
fn the_default_registry_is_empty() {
    let registry = Registry::default();
    assert!(registry.slots().is_empty());
    assert_eq!(registry.first_error(), None);
}

#[test]
fn slots_come_by_ascending_identifier() {
    let mut registry = Registry::new();
    registry.register(30, Some(descriptor("C", None, "c.rs:1")));
    registry.register(10, Some(descriptor("A", None, "a.rs:1")));
    registry.register(20, None);
    let a = Some(descriptor("A", None, "a.rs:1"));
    let c = Some(descriptor("C", None, "c.rs:1"));
    assert_eq!(registry.slots(), vec![(10, &a), (20, &None), (30, &c)]);
}

#[test]
fn registering_again_overwrites() {
    let mut registry = Registry::new();
    registry.register(1, None);
    registry.register(1, Some(descriptor("A", None, "a.rs:1")));
    let a = Some(descriptor("A", None, "a.rs:1"));
    assert_eq!(registry.slots(), vec![(1, &a)]);
    registry.register(1, Some(descriptor("B", Some(true), "b.rs:2")));
    let b = Some(descriptor("B", Some(true), "b.rs:2"));
    assert_eq!(registry.slots(), vec![(1, &b)]);
}

#[test]
fn registering_leaves_the_errors_alone() {
    let mut registry = Registry::new();
    registry.record_error(error("a.rs:1", "bad"));
    registry.register(1, None);
    assert_eq!(registry.first_error(), Some(&error("a.rs:1", "bad")));
}

#[test]
fn a_placeholder_leaves_the_registry_unresolved() {
    let mut registry = Registry::new();
    registry.register(1, Some(descriptor("A", None, "a.rs:1")));
    assert!(registry.is_resolved());
    registry.register(2, None);
    assert!(!registry.is_resolved());
    registry.register(2, Some(descriptor("B", None, "b.rs:1")));
    assert!(registry.is_resolved());
}

#[test]
fn the_first_error_is_the_least() {
    let mut registry = Registry::new();
    registry.record_error(error("m.rs:5", "bad"));
    assert_eq!(registry.first_error(), Some(&error("m.rs:5", "bad")));
    registry.record_error(error("z.rs:1", "bad"));
    assert_eq!(registry.first_error(), Some(&error("m.rs:5", "bad")));
    registry.record_error(error("a.rs:9", "worse"));
    assert_eq!(registry.first_error(), Some(&error("a.rs:9", "worse")));
    registry.record_error(error("a.rs:9", "bad"));
    assert_eq!(registry.first_error(), Some(&error("a.rs:9", "bad")));
}

#[test]
fn the_first_error_does_not_depend_on_the_order_of_recording() {
    let one = error("a.rs:1", "x");
    let two = error("a.rs:1", "y");
    let three = error("b.rs:1", "a");
    let orders = [[0, 1, 2], [0, 2, 1], [1, 0, 2], [1, 2, 0], [2, 0, 1], [2, 1, 0]];
    let all = [one.clone(), two, three];
    for order in orders {
        let mut registry = Registry::new();
        for k in order {
            registry.record_error(all[k].clone());
        }
        assert_eq!(registry.first_error(), Some(&one));
    }
}

#[test]
fn recording_leaves_the_types_alone() {
    let mut registry = Registry::new();
    registry.register(4, Some(descriptor("A", None, "a.rs:1")));
    registry.record_error(error("a.rs:1", "bad"));
    let a = Some(descriptor("A", None, "a.rs:1"));
    assert_eq!(registry.slots(), vec![(4, &a)]);
}

#[test]
fn a_clone_holds_what_the_registry_holds() {
    let mut registry = Registry::new();
    registry.register(4, Some(descriptor("A", None, "a.rs:1")));
    registry.register(2, None);
    registry.record_error(error("b.rs:1", "bad"));
    registry.record_error(error("a.rs:1", "bad"));
    let copy = registry.clone();
    assert_eq!(copy.slots(), registry.slots());
    assert_eq!(copy.first_error(), Some(&error("a.rs:1", "bad")));
    registry.register(9, None);
    assert_eq!(copy.slots().len(), 2);
}

#[test]
fn an_error_recorded_twice_is_held_once() {
    let mut registry = Registry::new();
    registry.record_error(error("a.rs:1", "bad"));
    registry.record_error(error("a.rs:1", "bad"));
    assert_eq!(registry.recorded_errors(), &vec![error("a.rs:1", "bad")]);
    registry.record_error(error("a.rs:1", "worse"));
    registry.record_error(error("a.rs:1", "bad"));
    registry.record_error(error("a.rs:1", "worse"));
    assert_eq!(
        registry.recorded_errors(),
        &vec![error("a.rs:1", "bad"), error("a.rs:1", "worse")]
    );
}

#[test]
fn errors_are_held_in_canonical_order() {
    let mut registry = Registry::new();
    registry.record_error(error("b.rs:1", "b"));
    registry.record_error(error("c.rs:1", "a"));
    registry.record_error(error("a.rs:1", "z"));
    registry.record_error(error("b.rs:1", "a"));
    assert_eq!(
        registry.recorded_errors(),
        &vec![
            error("a.rs:1", "z"),
            error("b.rs:1", "a"),
            error("b.rs:1", "b"),
            error("c.rs:1", "a")
        ]
    );
}
