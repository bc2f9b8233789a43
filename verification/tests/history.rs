use bitgraph::entry::RecentEntry;
use bitgraph::history::History;

fn items(history: &History<&'static str>) -> Vec<&'static str> {
    history.read().iter().copied().collect()
}

#[test]
fn test() {
    let mut his = History::with_capacity(10, 10);
    for i in 1..=10 {
        his.push(RecentEntry::new(i.to_string()));
    }
    assert_eq!(his.len(), 10);
    his.push(RecentEntry::new("11".to_string()));
    assert_eq!(his.len(), 10);
    let mut his = his.into_inner();
    for i in (2..=11).rev() {
        let first = his.pop_front();
        assert!(first.unwrap().to_string() == i.to_string());
    }
}

#[test]
fn push_puts_the_newest_first() {
    let mut history = History::new(5);
    assert_eq!(history.push("a"), None);
    assert_eq!(history.push("b"), None);
    assert_eq!(history.push("c"), None);
    assert_eq!(items(&history), ["c", "b", "a"]);
}

#[test]
fn push_of_a_held_item_promotes_it() {
    let mut history = History::new(5);
    history.push("c");
    history.push("b");
    history.push("a");
    assert_eq!(items(&history), ["a", "b", "c"]);
    assert_eq!(history.push("a"), None);
    assert_eq!(items(&history), ["a", "b", "c"]);
    assert_eq!(history.push("c"), None);
    assert_eq!(items(&history), ["c", "a", "b"]);
    assert_eq!(history.push("a"), None);
    assert_eq!(items(&history), ["a", "c", "b"]);
    assert_eq!(history.len(), 3);
}

#[test]
fn push_into_a_full_list_evicts_the_tail() {
    let mut history = History::new(3);
    history.push("a");
    history.push("b");
    history.push("c");
    assert_eq!(history.push("d"), Some("a"));
    assert_eq!(items(&history), ["d", "c", "b"]);
    assert_eq!(history.push("e"), Some("b"));
    assert_eq!(items(&history), ["e", "d", "c"]);
}

#[test]
fn push_of_a_held_item_into_a_full_list_evicts_nothing() {
    let mut history = History::new(3);
    history.push("a");
    history.push("b");
    history.push("c");
    assert_eq!(history.push("a"), None);
    assert_eq!(items(&history), ["a", "c", "b"]);
    assert_eq!(history.push("a"), None);
    assert_eq!(items(&history), ["a", "c", "b"]);
}

#[test]
fn len_never_exceeds_the_limit() {
    for limit in 0..6usize {
        let mut history = History::new(limit);
        for i in 0..40u32 {
            history.push(i * 7 % 11);
            assert!(history.len() <= limit);
            assert!(history.len() <= history.limit());
            let mut seen: Vec<u32> = history.read().iter().copied().collect();
            seen.sort();
            seen.dedup();
            assert_eq!(seen.len(), history.len());
        }
        assert_eq!(history.len(), limit);
    }
}

#[test]
fn a_list_with_the_limit_zero_holds_nothing() {
    let mut history = History::new(0);
    assert_eq!(history.push(1), Some(1));
    assert_eq!(history.len(), 0);
    assert!(history.is_empty());
    assert_eq!(history.push(2), Some(2));
    assert_eq!(history.push(2), Some(2));
    assert!(history.is_empty());
    assert!(!history.contains(&2));
    assert_eq!(history.into_iter(), Vec::<i32>::new());
}

#[test]
fn a_list_with_the_limit_one_holds_one_item() {
    let mut history = History::new(1);
    assert_eq!(history.push("a"), None);
    assert_eq!(history.push("b"), Some("a"));
    assert_eq!(history.push("b"), None);
    assert_eq!(items(&history), ["b"]);
}

#[test]
fn clear_empties_the_list() {
    let mut history = History::new(4);
    assert!(history.is_empty());
    history.push("a");
    history.push("b");
    assert!(!history.is_empty());
    history.clear();
    assert!(history.is_empty());
    assert_eq!(history.len(), 0);
    assert_eq!(history.limit(), 4);
    history.push("c");
    assert_eq!(items(&history), ["c"]);
}

#[test]
fn contains_tells_held_items() {
    let mut history = History::new(2);
    assert!(!history.contains(&"a"));
    history.push("a");
    history.push("b");
    assert!(history.contains(&"a"));
    assert!(history.contains(&"b"));
    history.push("c");
    assert!(!history.contains(&"a"));
    assert!(history.contains(&"c"));
}

#[test]
fn into_iter_walks_from_the_most_recent() {
    let mut history = History::with_capacity(3, 0);
    for name in ["x", "y", "z", "w"] {
        history.push(name.to_string());
    }
    assert_eq!(history.into_iter(), vec!["w".to_string(), "z".to_string(), "y".to_string()]);
}

#[test]
fn entries_are_equal_by_their_paths() {
    let a = RecentEntry::new("/media/a.mkv".to_string());
    assert!(a == RecentEntry::new("/media/a.mkv".to_string()));
    assert!(a != RecentEntry::new("/media/A.mkv".to_string()));
    assert!(a != RecentEntry::new(String::new()));
    assert_eq!(a.as_str(), "/media/a.mkv");
    assert_eq!(a.to_string(), "/media/a.mkv".to_string());
}

#[test]
fn a_list_of_entries_promotes_and_evicts() {
    let entry = |path: &str| RecentEntry::new(path.to_string());
    let mut history = History::new(3);
    assert_eq!(history.push(entry("c")), None);
    assert_eq!(history.push(entry("b")), None);
    assert_eq!(history.push(entry("a")), None);
    assert_eq!(history.push(entry("a")), None);
    let paths: Vec<String> = history.read().iter().map(|e| e.to_string()).collect();
    assert_eq!(paths, ["a", "b", "c"]);
    assert_eq!(history.push(entry("d")), Some(entry("c")));
    assert!(history.contains(&entry("a")));
    assert!(!history.contains(&entry("c")));
    let paths: Vec<String> = history.into_iter().iter().map(|e| e.to_string()).collect();
    assert_eq!(paths, ["d", "a", "b"]);
}
