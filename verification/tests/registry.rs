use state_lock::{state_names, tear_up_registered_state, Catalog, StateRegistration};

fn reg(family: &str, state: &str) -> StateRegistration {
    StateRegistration { state_family: family.to_owned(), state: state.to_owned() }
}

#[test]
fn names_are_sorted_lexicographically() {
    let catalog = Catalog::new(vec![
        reg("F", "C"),
        reg("F", "A"),
        reg("F", "B"),
    ]);
    let names = state_names(&catalog, "F");
    assert_eq!(names.len(), 3);
    assert_eq!(names[0], "A");
    assert_eq!(names[1], "B");
    assert_eq!(names[2], "C");
}

#[test]
fn duplicate_registrations_are_ignored() {
    let catalog = Catalog::new(vec![
        reg("F", "A"),
        reg("F", "A"),
        reg("F", "B"),
        reg("F", "A"),
    ]);
    let names = state_names(&catalog, "F");
    assert_eq!(names.len(), 2);
    assert_eq!(names[0], "A");
    assert_eq!(names[1], "B");
}

#[test]
fn unknown_family_has_no_names() {
    let catalog = Catalog::new(vec![reg("F", "A")]);
    let names = state_names(&catalog, "G");
    assert!(names.is_empty());
    assert!(tear_up_registered_state(&catalog, "G", "A").is_none());
}

#[test]
fn families_are_independent_namespaces() {
    let catalog = Catalog::new(vec![
        reg("F", "A"),
        reg("G", "B"),
        reg("G", "A"),
    ]);
    let f_names = state_names(&catalog, "F");
    assert_eq!(f_names.len(), 1);
    assert_eq!(f_names[0], "A");
    let g_names = state_names(&catalog, "G");
    assert_eq!(g_names.len(), 2);
    assert_eq!(g_names[0], "A");
    assert_eq!(g_names[1], "B");
}

#[test]
fn tear_up_registered_state_builds_the_record() {
    let catalog = Catalog::new(vec![reg("F", "A"), reg("F", "B")]);
    let bx = tear_up_registered_state(&catalog, "F", "A").unwrap();
    assert_eq!(bx.name(), "A");
    assert_eq!(bx.family(), "F");
    assert!(!bx.is_torn_down());
    assert!(tear_up_registered_state(&catalog, "F", "Q").is_none());
}

#[test]
fn unicode_names_keep_code_point_order() {
    let catalog = Catalog::new(vec![
        reg("F", "\u{00e9}tat"),
        reg("F", "zustand"),
        reg("F", "state"),
    ]);
    let names = state_names(&catalog, "F");
    assert_eq!(names.len(), 3);
    assert_eq!(names[0], "state");
    assert_eq!(names[1], "zustand");
    assert_eq!(names[2], "\u{00e9}tat");
}
