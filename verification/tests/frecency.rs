use spear::frecency::FrecencyStore;

#[test]
fn test_frecency_decay() {
    let mut store = FrecencyStore::default();
    let now: u64 = 1000000;

    // 1. No accesses -> 0 score
    assert_eq!(store.get_frecency_score("item1", now), 0);

    // 2. Access 30 minutes ago (1800s ago)
    store.accesses.insert("item1".to_string(), vec![now - 1800]);
    assert_eq!(store.get_frecency_score("item1", now), 100);

    // 3. Multiple accesses at different times:
    // - 30 minutes ago (100)
    // - 12 hours ago (80)
    // - 5 days ago (60)
    // Total = 240
    store.accesses.insert(
        "item1".to_string(),
        vec![now - 1800, now - 12 * 3600, now - 5 * 24 * 3600],
    );
    assert_eq!(store.get_frecency_score("item1", now), 240);
}

#[test]
fn test_pruning() {
    let mut store = FrecencyStore::default();
    // Record 120 accesses
    for _ in 0..120 {
        store.record_access("item1");
    }
    // Should keep exactly 100 accesses
    assert_eq!(store.accesses.get("item1").unwrap().len(), 100);
}

#[test]
fn weight_boundaries_follow_age() {
    let now: u64 = 100_000_000;
    let cases: Vec<(u64, i32)> = vec![
        (0, 100),
        (3599, 100),
        (3600, 80),
        (86399, 80),
        (86400, 60),
        (7 * 86400 - 1, 60),
        (7 * 86400, 30),
        (30 * 86400 - 1, 30),
        (30 * 86400, 10),
        (90 * 86400, 10),
    ];
    for (age, weight) in cases {
        let mut store = FrecencyStore::default();
        store.accesses.insert("x".to_string(), vec![now - age]);
        assert_eq!(store.get_frecency_score("x", now), weight, "age {}", age);
    }
}

#[test]
fn future_launches_are_ignored() {
    let mut store = FrecencyStore::default();
    store.accesses.insert("x".to_string(), vec![2000, 500]);
    assert_eq!(store.get_frecency_score("x", 1000), 100);
    assert_eq!(store.get_frecency_score("missing", 1000), 0);
}

#[test]
fn record_access_at_appends_and_keeps_latest() {
    let mut store = FrecencyStore::default();
    store.record_access_at("a", 10);
    assert_eq!(store.accesses.get("a").unwrap(), &vec![10u64]);

    let times: Vec<u64> = (1..=100).collect();
    store.accesses.insert("b".to_string(), times);
    store.record_access_at("b", 500);
    let kept = store.accesses.get("b").unwrap();
    assert_eq!(kept.len(), 100);
    assert_eq!(kept[0], 2);
    assert_eq!(kept[99], 500);
    // the other item is untouched
    assert_eq!(store.accesses.get("a").unwrap(), &vec![10u64]);
    assert_eq!(store.accesses.len(), 2);
}

#[test]
fn launch_raises_score_by_one_hundred() {
    let mut store = FrecencyStore::default();
    store.accesses.insert("app".to_string(), vec![1000, 5000]);
    let now: u64 = 100_000;
    let before = store.get_frecency_score("app", now);
    store.record_access_at("app", now);
    assert_eq!(store.get_frecency_score("app", now), before + 100);
}

#[test]
fn insert_replaces_existing_times() {
    let mut store = FrecencyStore::default();
    store.accesses.insert("k".to_string(), vec![1, 2, 3]);
    store.accesses.insert("k".to_string(), vec![4]);
    assert_eq!(store.accesses.len(), 1);
    assert_eq!(store.accesses.get("k").unwrap(), &vec![4u64]);
    let entries = store.accesses.entries();
    assert_eq!(entries.len(), 1);
    assert_eq!(entries[0].0, "k");
}

#[test]
fn score_fits_for_ordinary_logs() {
    let mut store = FrecencyStore::default();
    store.accesses.insert("k".to_string(), vec![1; 100]);
    assert!(store.score_fits("k", 10));
    assert!(store.score_fits("absent", 10));
}

#[test]
fn score_never_grows_as_time_passes() {
    let mut store = FrecencyStore::default();
    let t: u64 = 5_000_000;
    store.accesses.insert("item1".to_string(), vec![t - 100, t - 2 * 3600, t]);
    let mut previous = store.get_frecency_score("item1", t);
    assert_eq!(previous, 100 + 80 + 100);
    for later in [t + 600, t + 3600, t + 86400, t + 8 * 86400, t + 40 * 86400] {
        let score = store.get_frecency_score("item1", later);
        assert!(score <= previous);
        previous = score;
    }
    assert_eq!(previous, 30);
}
