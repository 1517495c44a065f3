use cinematch::recommender::{
    provider_refresh_due, recommendation_refresh_due, refresh_plan, ActivityTracker, EmbeddingsDebounce, Lookup,
    RecommendationWindow, UpdateQueue, CONTENT_RECOMMENDATION_LEVEL,
};

#[test]
fn empty_page_gives_empty_list() {
    let w: RecommendationWindow<u32> = RecommendationWindow::from_page(None, vec![]);
    assert_eq!((w.min, w.max, w.inf, w.sup), (0, 0, 0, 0));
    assert_eq!(w.len(), 0);
    assert_eq!(w.lookup(0), Lookup::Ready);
    assert_eq!(w.lookup(1), Lookup::OutOfRange);
}

#[test]
fn page_sets_the_window() {
    let w = RecommendationWindow::from_page(Some((1, 100)), vec!["a", "b", "c"]);
    assert_eq!((w.min, w.max, w.inf, w.sup), (1, 100, 1, 41));
    let w = RecommendationWindow::from_page(Some((5, 20)), vec!["a"]);
    assert_eq!((w.min, w.max, w.inf, w.sup), (1, 20, 5, 20));
    assert_eq!(w.data.len(), 1);
}

#[test]
fn lookup_loads_outside_memory() {
    let w = RecommendationWindow::from_page(Some((1, 100)), vec!["a", "b", "c"]);
    assert_eq!(w.lookup(0), Lookup::OutOfRange);
    assert_eq!(w.lookup(101), Lookup::OutOfRange);
    assert_eq!(w.lookup(41), Lookup::Ready);
    assert_eq!(w.lookup(42), Lookup::Load(42));
    assert_eq!(w.entry(1), Some(&"a"));
    assert_eq!(w.entry(3), Some(&"c"));
    assert_eq!(w.entry(4), None);
    assert_eq!(w.entry(0), None);
}

#[test]
fn advance_moves_past_first_entry() {
    let mut w = RecommendationWindow::from_page(Some((1, 100)), vec!["a", "b"]);
    w.advance();
    assert_eq!(w.inf, 2);
    assert_eq!(w.data.len(), 1);
    assert_eq!(w.entry(1), Some(&"b"));
}

#[test]
fn back_request_stops_at_the_end() {
    let w = RecommendationWindow::from_page(Some((1, 50)), vec!["a"]);
    assert_eq!(w.back_request(40), Some((42, 9)));
    assert_eq!(w.back_request(3), Some((42, 3)));
    let w = RecommendationWindow::from_page(Some((1, 30)), vec!["a"]);
    assert_eq!(w.back_request(40), None);
}

#[test]
fn append_back_extends_window() {
    let mut w = RecommendationWindow::from_page(Some((1, 50)), vec!["a"]);
    w.append_back(vec!["b", "c"]);
    assert_eq!(w.sup, 43);
    assert_eq!(w.data.len(), 3);
    assert_eq!(w.entry(3), Some(&"c"));
}

#[test]
fn refresh_deadlines() {
    let day: i64 = 86_400_000_000;
    assert!(!provider_refresh_due(0, 4 * day));
    assert!(provider_refresh_due(0, 4 * day + 1));
    assert!(!recommendation_refresh_due(0, 600_000_000));
    assert!(recommendation_refresh_due(0, 600_000_001));
}

#[test]
fn unused_or_unheld_lists_are_stale() {
    let second: u128 = 1_000_000_000;
    let mut t = ActivityTracker::new();
    t.record(1, 0);
    t.record(2, 100 * second);
    // held and used recently: kept
    assert!(!t.is_stale(2, 1, 200 * second));
    // nobody holds it: dropped
    assert!(t.is_stale(2, 0, 200 * second));
    // never used by this worker: dropped
    assert!(t.is_stale(3, 5, 0));
    // unused for more than two days: dropped
    assert!(!t.is_stale(1, 1, 172_800 * second));
    assert!(t.is_stale(1, 1, 172_800 * second + 1));
    assert_eq!(t.stale_lists(&vec![(1, 1), (2, 1), (3, 1), (2, -1)], 200 * second), vec![3, 2]);
}

#[test]
fn update_queue_starts_one_job_at_a_time() {
    let mut q = UpdateQueue::new();
    q.push("x");
    q.push("y");
    assert_eq!(q.next_job(false), None);
    assert_eq!(q.next_job(true), Some("x"));
    assert_eq!(q.next_job(true), Some("y"));
    assert_eq!(q.next_job(true), None);
}

#[test]
fn embeddings_requests_gather_until_tick() {
    let mut d = EmbeddingsDebounce::new();
    assert!(!d.tick());
    d.request();
    d.request();
    assert!(d.tick());
    assert!(!d.tick());
}

#[test]
fn refresh_goes_two_levels_deep() {
    let day: i64 = 86_400_000_000;
    let now = 10 * day;
    // the liked content and its direct recommendations are refreshed when due
    let first = refresh_plan(CONTENT_RECOMMENDATION_LEVEL + 1, 0, now);
    assert_eq!(first, Some(1));
    let second = refresh_plan(first.unwrap(), 0, now);
    assert_eq!(second, Some(0));
    // their own recommendations are not
    assert_eq!(refresh_plan(second.unwrap(), 0, now), None);
    // fresh recommendations are not fetched again
    assert_eq!(refresh_plan(2, now - day, now), None);
}

#[test]
fn queue_hands_out_contents_in_arrival_order() {
    let mut q = UpdateQueue::new();
    let mut started = vec![];
    for (i, c) in ["a", "b", "c", "d"].into_iter().enumerate() {
        q.push(c);
        if let Some(job) = q.next_job(i % 2 == 1) {
            started.push(job);
        }
    }
    while let Some(job) = q.next_job(true) {
        started.push(job);
    }
    assert_eq!(started, vec!["a", "b", "c", "d"]);
}

#[test]
fn lists_used_within_two_days_are_kept() {
    let second: u128 = 1_000_000_000;
    let mut t = ActivityTracker::new();
    t.record(9, 5 * second);
    assert!(!t.is_stale(9, 2, 5 * second + 172_800 * second));
    assert_eq!(t.stale_lists(&vec![(9, 2), (8, 2)], 6 * second), vec![8]);
}
