use frozen_index_set::FrozenIndexSet;
use indexmap::IndexSet;

fn abc() -> FrozenIndexSet<String> {
    let mut set = FrozenIndexSet::new();
    set.insert("a".to_string());
    set.insert("b".to_string());
    set.insert("c".to_string());
    set
}

#[test]
fn new_is_empty() {
    let set = FrozenIndexSet::new();
    assert!(!set.in_use());
    assert_eq!(set.get_index(0), None);
    assert_eq!(set.get(""), None);
    assert_eq!(set.into_set().len(), 0);
}

#[test]
fn default_is_empty() {
    let set: FrozenIndexSet<String> = Default::default();
    assert!(!set.in_use());
    assert_eq!(set.get_index(0), None);
    assert_eq!(set.into_set().len(), 0);
}

#[test]
fn insert_returns_the_contents() {
    let mut set = FrozenIndexSet::new();
    assert_eq!(set.insert("hello".to_string()), "hello");
    assert_eq!(set.insert("".to_string()), "");
    assert_eq!(set.insert("hello".to_string()), "hello");
    assert!(!set.in_use());
    assert_eq!(set.into_set().len(), 2);
}

#[test]
fn insert_full_numbers_from_zero() {
    let mut set = FrozenIndexSet::new();
    assert_eq!(set.insert_full("a".to_string()), (0, "a"));
    assert_eq!(set.insert_full("b".to_string()), (1, "b"));
    assert_eq!(set.insert_full("c".to_string()), (2, "c"));
    assert!(!set.in_use());
}

#[test]
fn three_letters() {
    let mut set = FrozenIndexSet::new();
    assert_eq!(set.insert_full("a".to_string()), (0, "a"));
    assert_eq!(set.insert_full("b".to_string()), (1, "b"));
    assert_eq!(set.insert_full("c".to_string()), (2, "c"));
    assert_eq!(set.get_index(1), Some("b"));
    assert_eq!(set.insert_full("b".to_string()), (1, "b"));
    assert_eq!(set.get_index(3), None);
    assert_eq!(set.get("z"), None);
    assert_eq!(set.get_index(5), None);
    assert_eq!(set.into_set().len(), 3);
}

#[test]
fn get_finds_what_is_held() {
    let set = abc();
    assert_eq!(set.get("a"), Some("a"));
    assert_eq!(set.get("c"), Some("c"));
    assert_eq!(set.get("d"), None);
    assert_eq!(set.get("A"), None);
    assert_eq!(set.get("ab"), None);
}

#[test]
fn get_full_gives_the_index() {
    let set = abc();
    assert_eq!(set.get_full("a"), Some((0, "a")));
    assert_eq!(set.get_full("b"), Some((1, "b")));
    assert_eq!(set.get_full("c"), Some((2, "c")));
    assert_eq!(set.get_full("z"), None);
}

#[test]
fn get_index_in_and_out_of_range() {
    let set = abc();
    assert_eq!(set.get_index(0), Some("a"));
    assert_eq!(set.get_index(2), Some("c"));
    assert_eq!(set.get_index(3), None);
    assert_eq!(set.get_index(usize::MAX), None);
}

#[test]
fn index_in_range() {
    let set = abc();
    assert_eq!(set.index(0), "a");
    assert_eq!(set.index(1), "b");
    assert_eq!(set.index(2), "c");
}

#[test]
fn lookups_can_be_held_together() {
    let set = abc();
    let first = set.index(0);
    let second = set.get("b");
    let third = set.get_full("c");
    assert_eq!(first, "a");
    assert_eq!(second, Some("b"));
    assert_eq!(third, Some((2, "c")));
}

#[test]
fn from_iter_keeps_first_occurrences() {
    let items = vec!["b", "a", "b", "c", "a", "b"];
    let set = FrozenIndexSet::from_iter(items.into_iter().map(|s| s.to_string()).collect());
    assert!(!set.in_use());
    assert_eq!(set.get_index(0), Some("b"));
    assert_eq!(set.get_index(1), Some("a"));
    assert_eq!(set.get_index(2), Some("c"));
    assert_eq!(set.get_index(3), None);
}

#[test]
fn from_iter_of_nothing() {
    let set = FrozenIndexSet::from_iter(Vec::new());
    assert_eq!(set.get_index(0), None);
}

#[test]
fn from_set_and_back() {
    let mut raw: IndexSet<String> = IndexSet::new();
    raw.insert("x".to_string());
    raw.insert("y".to_string());
    let mut set = FrozenIndexSet::from(raw);
    assert!(!set.in_use());
    assert_eq!(set.get_full("y"), Some((1, "y")));
    assert_eq!(set.insert_full("z".to_string()), (2, "z"));
    let raw = set.into_set();
    assert_eq!(raw.len(), 3);
    assert_eq!(raw.get_index(0).map(|s| s.as_str()), Some("x"));
    assert_eq!(raw.get_index(2).map(|s| s.as_str()), Some("z"));
}

#[test]
fn from_set_of_another_element_type() {
    let mut raw: IndexSet<Box<u32>> = IndexSet::new();
    raw.insert(Box::new(7));
    let mut set = FrozenIndexSet::from(raw);
    assert!(!set.in_use());
    set.as_mut().insert(Box::new(8));
    assert_eq!(set.into_set().len(), 2);
}

#[test]
fn eq_compares_elements_in_order() {
    let one = abc();
    let two = abc();
    assert!(one.eq(&two));
    assert!(two.eq(&one));
    assert!(one.eq(&one));
    let empty = FrozenIndexSet::new();
    assert!(empty.eq(&FrozenIndexSet::new()));
    assert!(!one.eq(&empty));
}

#[test]
fn eq_tells_lengths_apart() {
    let one = abc();
    let mut two = abc();
    two.insert("d".to_string());
    assert!(!one.eq(&two));
    assert!(!two.eq(&one));
}

#[test]
fn eq_tells_elements_apart() {
    let one = abc();
    let two = FrozenIndexSet::from_iter(vec!["a".to_string(), "b".to_string(), "x".to_string()]);
    assert!(!one.eq(&two));
}

#[test]
fn eq_tells_orders_apart() {
    let one = FrozenIndexSet::from_iter(vec!["a".to_string(), "b".to_string()]);
    let two = FrozenIndexSet::from_iter(vec!["b".to_string(), "a".to_string()]);
    assert!(!one.eq(&two));
}

#[test]
fn clone_is_equal_and_apart() {
    let one = abc();
    let mut two = one.clone();
    assert!(!two.in_use());
    assert!(one.eq(&two));
    assert_eq!(two.get_full("b"), Some((1, "b")));
    two.insert("d".to_string());
    assert_eq!(one.get("d"), None);
    assert_eq!(two.get_full("d"), Some((3, "d")));
    assert!(!one.eq(&two));
}

#[test]
fn as_mut_reaches_the_set() {
    let mut set = abc();
    assert_eq!(set.as_mut().len(), 3);
    set.as_mut().insert("d".to_string());
    assert!(!set.in_use());
    assert_eq!(set.get_full("d"), Some((3, "d")));
}

#[test]
fn removal_through_as_mut_shows_in_lookups() {
    let mut set = abc();
    assert!(set.as_mut().shift_remove("b"));
    assert_eq!(set.get("b"), None);
    assert_eq!(set.get_full("c"), Some((1, "c")));
    assert_eq!(set.get_index(1), Some("c"));
    assert_eq!(set.get_index(2), None);
    assert_eq!(set.insert_full("b".to_string()), (2, "b"));
}

#[test]
fn debug_names_the_type() {
    let set = abc();
    assert!(format!("{:?}", set).contains("FrozenIndexSet"));
}
