use chat_bridge::recent::{format_for_repeats, power_of_two, RecentFromMinecraft};

fn texts(events: Vec<chat_bridge::recent::FromMinecraftEvent<u32>>) -> Vec<(String, u32)> {
    events.into_iter().map(|e| (e.content, e.packet)).collect()
}

#[test]
fn format_for_repeats_decorates_from_two_on() {
    assert_eq!(format_for_repeats("hi", 1), "hi");
    assert_eq!(format_for_repeats("hi", 2), "hi [x2]");
    assert_eq!(format_for_repeats("hi", 10), "hi [x10]");
    assert_eq!(format_for_repeats("", 907), " [x907]");
    assert_eq!(format_for_repeats("a b", 0), "a b [x0]");
    assert_eq!(
        format_for_repeats("m", usize::MAX),
        format!("m [x{}]", usize::MAX)
    );
}

#[test]
fn power_of_two_matches_std() {
    for n in 0usize..5000 {
        assert_eq!(power_of_two(n), n.is_power_of_two(), "{n}");
    }
    assert!(power_of_two(1 << 40));
    assert!(!power_of_two((1 << 40) + 1));
    assert!(!power_of_two(usize::MAX));
}

#[test]
fn six_repeats_show_first_second_and_fourth() {
    let mut window: RecentFromMinecraft<u32> = RecentFromMinecraft::new();
    let mut shown = Vec::new();
    for i in 1..=6u32 {
        shown.push(window.from_minecraft("hi".to_string(), i, 0).map(|e| (e.content, e.packet)));
    }
    assert_eq!(
        shown,
        vec![
            Some(("hi".to_string(), 1)),
            Some(("hi [x2]".to_string(), 2)),
            None,
            Some(("hi [x4]".to_string(), 4)),
            None,
            None,
        ]
    );
    assert_eq!(window.len(), 1);
    let entry = window.get(0).unwrap();
    assert_eq!(entry.content, "hi");
    assert_eq!(entry.sent_count, 6);
    assert_eq!(entry.packet, 6);
    // not stale yet
    assert!(window.pop_no_longer_recent_messages(2).is_empty());
    assert_eq!(window.len(), 1);
    // stale: shown one last time with the count and the entry's packet
    assert_eq!(
        texts(window.pop_no_longer_recent_messages(3)),
        vec![("hi [x6]".to_string(), 6)]
    );
    assert_eq!(window.len(), 0);
}

#[test]
fn popped_entries_with_shown_counts_are_silent() {
    for (count, want) in [(1u32, None), (2, None), (3, Some("m [x3]")), (4, None), (5, Some("m [x5]")), (7, Some("m [x7]")), (8, None)] {
        let mut window: RecentFromMinecraft<u32> = RecentFromMinecraft::new();
        for i in 0..count {
            window.from_minecraft("m".to_string(), i, 10);
        }
        let popped: Vec<String> =
            window.pop_no_longer_recent_messages(100).into_iter().map(|e| e.content).collect();
        let want: Vec<String> = want.into_iter().map(|s| s.to_string()).collect();
        assert_eq!(popped, want, "count {count}");
        assert_eq!(window.len(), 0);
    }
}

#[test]
fn window_keeps_at_most_five_after_popping() {
    let mut window: RecentFromMinecraft<u32> = RecentFromMinecraft::new();
    for i in 0..8u32 {
        let shown = window.from_minecraft(format!("msg {i}"), i, 0).unwrap();
        assert_eq!(shown.content, format!("msg {i}"));
    }
    assert_eq!(window.len(), 8);
    assert!(window.pop_no_longer_recent_messages(0).is_empty());
    assert_eq!(window.len(), 5);
    assert_eq!(window.get(0).unwrap().content, "msg 3");
    assert_eq!(window.get(4).unwrap().content, "msg 7");
    assert!(window.get(5).is_none());
}

#[test]
fn repeat_moves_entry_to_the_back() {
    let mut window: RecentFromMinecraft<u32> = RecentFromMinecraft::new();
    window.from_minecraft("a".to_string(), 1, 0);
    window.from_minecraft("b".to_string(), 2, 0);
    window.from_minecraft("c".to_string(), 3, 0);
    let shown = window.from_minecraft("a".to_string(), 4, 1).unwrap();
    assert_eq!(shown.content, "a [x2]");
    assert_eq!(shown.packet, 4);
    let order: Vec<String> = (0..window.len()).map(|i| window.get(i).unwrap().content.clone()).collect();
    assert_eq!(order, vec!["b", "c", "a"]);
    assert_eq!(window.get(2).unwrap().sent_count, 2);
    assert_eq!(window.get(2).unwrap().sent_at, 1);
    assert_eq!(window.get(2).unwrap().packet, 4);
}

#[test]
fn stale_thresholds_grow_with_the_count() {
    // count 1: stale after more than 2
    let mut window: RecentFromMinecraft<u32> = RecentFromMinecraft::new();
    window.from_minecraft("x".to_string(), 0, 100);
    window.pop_no_longer_recent_messages(102);
    assert_eq!(window.len(), 1);
    window.pop_no_longer_recent_messages(103);
    assert_eq!(window.len(), 0);
    // count 17: stale after more than 8
    for i in 0..17 {
        window.from_minecraft("y".to_string(), i, 100);
    }
    window.pop_no_longer_recent_messages(108);
    assert_eq!(window.len(), 1);
    assert_eq!(texts(window.pop_no_longer_recent_messages(109)), vec![("y [x17]".to_string(), 16)]);
    // count 33: stale after more than 16
    for i in 0..33 {
        window.from_minecraft("z".to_string(), i, 100);
    }
    window.pop_no_longer_recent_messages(116);
    assert_eq!(window.len(), 1);
    assert_eq!(texts(window.pop_no_longer_recent_messages(117)), vec![("z [x33]".to_string(), 32)]);
    // count 16 and 32 keep the lower thresholds
    for i in 0..16 {
        window.from_minecraft("w".to_string(), i, 100);
    }
    assert!(window.pop_no_longer_recent_messages(103).is_empty());
    assert_eq!(window.len(), 0);
}

#[test]
fn a_clock_that_runs_backwards_pops_nothing() {
    let mut window: RecentFromMinecraft<u32> = RecentFromMinecraft::new();
    window.from_minecraft("x".to_string(), 0, 100);
    assert!(window.pop_no_longer_recent_messages(5).is_empty());
    assert_eq!(window.len(), 1);
}

#[test]
fn popping_stops_at_the_first_fresh_entry() {
    let mut window: RecentFromMinecraft<u32> = RecentFromMinecraft::new();
    for i in 0..3 {
        window.from_minecraft("old".to_string(), i, 0);
    }
    window.from_minecraft("fresh".to_string(), 9, 10);
    window.from_minecraft("older but behind".to_string(), 9, 0);
    let popped = texts(window.pop_no_longer_recent_messages(11));
    assert_eq!(popped, vec![("old [x3]".to_string(), 2)]);
    assert_eq!(window.len(), 2);
    assert_eq!(window.get(0).unwrap().content, "fresh");
}
