use dlna::media::{sort_entries, FileType, MediaEntry};
use dlna::order::{has_prefix, human_order, human_order_bytes, Order};

fn video(id: &str) -> MediaEntry {
    MediaEntry {
        id: id.to_string(),
        parent_id: "show".to_string(),
        title: format!("title of {}", id),
        file_type: FileType::Video,
        dlna_class: "object.item.videoItem".to_string(),
        prefix: id.to_string(),
    }
}

fn ids(entries: &Vec<MediaEntry>) -> Vec<String> {
    let mut out = Vec::new();
    for e in entries {
        out.push(e.id.clone());
    }
    out
}

#[test]
fn numbers_compare_by_value() {
    assert_eq!(human_order("ep2", "ep10"), Order::Less);
    assert_eq!(human_order("ep10", "ep2"), Order::Greater);
    assert_eq!(human_order("ep10", "ep10"), Order::Equal);
    assert_eq!(human_order("ep9", "ep10"), Order::Less);
    assert_eq!(human_order("s2e1", "s10e1"), Order::Less);
    assert_eq!(human_order("s2e10", "s2e9"), Order::Greater);
}

#[test]
fn plain_text_compares_by_bytes() {
    assert_eq!(human_order("abc", "abd"), Order::Less);
    assert_eq!(human_order("b", "a"), Order::Greater);
    assert_eq!(human_order("", ""), Order::Equal);
    assert_eq!(human_order("", "a"), Order::Less);
    assert_eq!(human_order("a", ""), Order::Greater);
    assert_eq!(human_order("ab", "abc"), Order::Less);
    assert_eq!(human_order("Z", "a"), Order::Less);
}

#[test]
fn digits_against_other_bytes_compare_as_bytes() {
    // '.' is below the digits, 'a' above them
    assert_eq!(human_order("ep.", "ep1"), Order::Less);
    assert_eq!(human_order("ep1", "epa"), Order::Less);
    assert_eq!(human_order("epa", "ep1"), Order::Greater);
}

#[test]
fn leading_zeros_break_ties_by_length() {
    assert_eq!(human_order("ep1", "ep01"), Order::Less);
    assert_eq!(human_order("ep01", "ep1"), Order::Greater);
    assert_eq!(human_order("ep01", "ep2"), Order::Less);
    assert_eq!(human_order("ep002", "ep1"), Order::Greater);
    assert_eq!(human_order("ep000", "ep0"), Order::Greater);
    assert_eq!(human_order("ep01a", "ep1b"), Order::Greater);
}

#[test]
fn numbers_longer_than_any_integer_compare() {
    let a = "x123456789012345678901234567890123456789";
    let b = "x123456789012345678901234567890123456790";
    let c = "x99999999999999999999999999999999999999";
    assert_eq!(human_order(a, b), Order::Less);
    assert_eq!(human_order(b, a), Order::Greater);
    assert_eq!(human_order(c, a), Order::Less);
    assert_eq!(human_order(a, a), Order::Equal);
}

#[test]
fn the_rest_decides_after_equal_numbers() {
    assert_eq!(human_order("ep10a", "ep10b"), Order::Less);
    assert_eq!(human_order("ep10.mkv", "ep10.jpg"), Order::Greater);
    assert_eq!(human_order("1-2", "1-10"), Order::Less);
}

#[test]
fn bytes_and_strings_agree() {
    assert_eq!(human_order_bytes(b"ep2", b"ep10"), Order::Less);
    assert_eq!(human_order_bytes("été2".as_bytes(), "été10".as_bytes()), Order::Less);
    assert_eq!(human_order("été2", "été10"), Order::Less);
}

#[test]
fn prefixes() {
    assert!(has_prefix(b"show/ep1.jpg", b"show/ep1"));
    assert!(has_prefix(b"show/ep1", b"show/ep1"));
    assert!(has_prefix(b"abc", b""));
    assert!(!has_prefix(b"show/ep2.jpg", b"show/ep1"));
    assert!(!has_prefix(b"sho", b"show"));
}

#[test]
fn sort_is_natural() {
    let mut entries = vec![video("ep1"), video("ep10"), video("ep2")];
    sort_entries(&mut entries);
    assert_eq!(ids(&entries), vec!["ep1", "ep2", "ep10"]);
}

#[test]
fn sort_handles_any_arrangement() {
    let mut entries = vec![
        video("b3"),
        video("a10"),
        video("b"),
        video("a9"),
        video("a"),
        video("a09"),
        video("c1"),
        video("a100"),
    ];
    sort_entries(&mut entries);
    assert_eq!(ids(&entries), vec!["a", "a9", "a09", "a10", "a100", "b", "b3", "c1"]);
    let mut none: Vec<MediaEntry> = Vec::new();
    sort_entries(&mut none);
    assert!(none.is_empty());
    let mut one = vec![video("x")];
    sort_entries(&mut one);
    assert_eq!(ids(&one), vec!["x"]);
}

#[test]
fn sort_agrees_with_the_comparison() {
    let names = ["ep7", "ep07", "ep70", "e", "ep", "ep1x", "ep1", "f0", "ep10", "ep2"];
    let mut entries: Vec<MediaEntry> = names.iter().map(|n| video(n)).collect();
    sort_entries(&mut entries);
    let sorted = ids(&entries);
    assert_eq!(sorted.len(), names.len());
    for n in names.iter() {
        assert!(sorted.iter().any(|s| s == n));
    }
    for i in 0..sorted.len() {
        for j in (i + 1)..sorted.len() {
            assert_ne!(human_order(&sorted[i], &sorted[j]), Order::Greater);
        }
    }
}

#[test]
fn sort_keeps_equal_entries_in_order() {
    let mut first = video("ep1");
    first.title = "first".to_string();
    let mut second = video("ep1");
    second.title = "second".to_string();
    let mut entries = vec![video("ep2"), first, video("ep0"), second];
    sort_entries(&mut entries);
    assert_eq!(ids(&entries), vec!["ep0", "ep1", "ep1", "ep2"]);
    assert_eq!(entries[1].title, "first");
    assert_eq!(entries[2].title, "second");
}
