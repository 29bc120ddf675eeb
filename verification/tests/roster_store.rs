use oncall_roster::roster::Roster;

#[test]
fn render_empty_is_bare_label() {
    let r = Roster::new();
    assert_eq!(r.render(), "On call: ");
}

#[test]
fn render_one_name() {
    let mut r = Roster::new();
    r.insert(1, String::from("Alice"));
    assert_eq!(r.render(), "On call: Alice");
}

#[test]
fn render_two_names_in_insertion_order() {
    let mut r = Roster::new();
    r.insert(1, String::from("Alice"));
    r.insert(2, String::from("Bob"));
    assert_eq!(r.render(), "On call: Alice, Bob");
}

#[test]
fn upsert_same_pair_twice_changes_nothing() {
    let mut r = Roster::new();
    r.insert(1, String::from("Alice"));
    r.insert(2, String::from("Bob"));
    let before = r.render();
    let len_before = r.len();
    r.insert(1, String::from("Alice"));
    assert_eq!(r.len(), len_before);
    assert_eq!(r.render(), before);
}

#[test]
fn upsert_keeps_position_and_updates_name() {
    let mut r = Roster::new();
    r.insert(1, String::from("Alice"));
    r.insert(2, String::from("Bob"));
    r.insert(1, String::from("Al"));
    assert_eq!(r.len(), 2);
    assert_eq!(r.render(), "On call: Al, Bob");
}

#[test]
fn remove_absent_returns_none_and_changes_nothing() {
    let mut r = Roster::new();
    r.insert(1, String::from("Alice"));
    let before = r.render();
    assert_eq!(r.remove(99), None);
    assert_eq!(r.render(), before);
    assert_eq!(r.len(), 1);
}

#[test]
fn remove_present_hands_back_the_name() {
    let mut r = Roster::new();
    r.insert(1, String::from("Alice"));
    r.insert(2, String::from("Bob"));
    assert_eq!(r.remove(1), Some(String::from("Alice")));
    assert!(!r.contains_user(1));
    assert!(r.contains_user(2));
    assert_eq!(r.render(), "On call: Bob");
}

#[test]
fn clear_empties_the_store() {
    let mut r = Roster::new();
    r.insert(1, String::from("Alice"));
    r.clear();
    assert_eq!(r.len(), 0);
    assert_eq!(r.render(), "On call: ");
}
