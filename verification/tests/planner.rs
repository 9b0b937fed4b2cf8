use async_lastfm::planner::{plan, PageRequest, TrackLimit, API_MAX_LIMIT, BATCH_WIDTH};

fn plan_sizes(total: u32, limit: TrackLimit, max: u32) -> Vec<u32> {
    plan(total, limit, max).requests().iter().map(|r| r.limit).collect()
}

#[test]
fn plan_of_2500_unlimited_is_three_pages_in_one_batch() {
    let p = plan(2500, TrackLimit::Unlimited, 1000);
    assert_eq!(
        p.requests(),
        vec![
            PageRequest { page: 1, limit: 1000 },
            PageRequest { page: 2, limit: 1000 },
            PageRequest { page: 3, limit: 500 },
        ]
    );
    assert_eq!(BATCH_WIDTH, 5);
    assert_eq!(p.batch_count(), 1);
    assert_eq!(p.batch(0).map(|b| b.len()), Some(3));
    assert_eq!(p.batch(1), None);
    assert_eq!(p.effective_limit(), 2500);
    assert_eq!(p.max_page_size(), 1000);
}

#[test]
fn plan_within_one_page_is_one_request() {
    for (requested, total, max) in [(1u32, 1u32, 1u32), (7, 10, 10), (10, 10, 1000), (999, 1000, 1000)] {
        let p = plan(total, TrackLimit::Limited(requested), max);
        assert_eq!(p.requests(), vec![PageRequest { page: 1, limit: requested }]);
        assert_eq!(p.batch_count(), 1);
    }
}

#[test]
fn plan_of_nothing_is_empty() {
    let p = plan(0, TrackLimit::Unlimited, 1000);
    assert_eq!(p.requests(), Vec::<PageRequest>::new());
    assert_eq!(p.batch_count(), 0);
    assert_eq!(p.effective_limit(), 0);
    let q = plan(500, TrackLimit::Limited(0), 1000);
    assert_eq!(q.requests(), Vec::<PageRequest>::new());
    assert_eq!(q.batch_count(), 0);
}

#[test]
fn plan_of_an_exact_multiple_ends_with_a_full_page() {
    assert_eq!(plan_sizes(3000, TrackLimit::Unlimited, 1000), vec![1000, 1000, 1000]);
    assert_eq!(plan_sizes(1000, TrackLimit::Unlimited, 1000), vec![1000]);
    assert_eq!(plan_sizes(1001, TrackLimit::Unlimited, 1000), vec![1000, 1]);
}

#[test]
fn plan_takes_the_smaller_of_limit_and_total() {
    assert_eq!(plan(2500, TrackLimit::Limited(1200), 1000).effective_limit(), 1200);
    assert_eq!(plan(800, TrackLimit::Limited(1200), 1000).effective_limit(), 800);
    assert_eq!(plan_sizes(2500, TrackLimit::Limited(1200), 1000), vec![1000, 200]);
    assert_eq!(TrackLimit::Limited(3).effective_limit(9), 3);
    assert_eq!(TrackLimit::Unlimited.effective_limit(9), 9);
}

#[test]
fn plan_sizes_add_up_and_pages_count_up() {
    for (total, max) in [(1u32, 1u32), (17, 4), (16, 4), (12345, 1000), (99, 100), (101, 100)] {
        let p = plan(total, TrackLimit::Unlimited, max);
        let requests = p.requests();
        let sum: u64 = requests.iter().map(|r| r.limit as u64).sum();
        assert_eq!(sum, total as u64);
        assert_eq!(requests.len() as u32, (total + max - 1) / max);
        for (i, r) in requests.iter().enumerate() {
            assert_eq!(r.page as usize, i + 1);
            assert!(r.limit >= 1 && r.limit <= max);
        }
    }
}

#[test]
fn plan_batches_hold_five_requests() {
    let p = plan(12345, TrackLimit::Unlimited, API_MAX_LIMIT);
    assert_eq!(p.requests().len(), 13);
    assert_eq!(p.batch_count(), 3);
    assert_eq!(p.batch(0).unwrap().len(), 5);
    assert_eq!(p.batch(1).unwrap().len(), 5);
    assert_eq!(p.batch(2).unwrap().len(), 3);
    assert_eq!(p.batch(1).unwrap()[0], PageRequest { page: 6, limit: 1000 });
    assert_eq!(p.batch(2).unwrap()[2], PageRequest { page: 13, limit: 345 });
    let flat: Vec<PageRequest> =
        (0..p.batch_count()).flat_map(|b| p.batch(b).unwrap().clone()).collect();
    assert_eq!(flat, p.requests());
}

#[test]
fn track_limit_from_option() {
    assert!(matches!(TrackLimit::from(Some(5)), TrackLimit::Limited(5)));
    assert!(matches!(TrackLimit::from(None), TrackLimit::Unlimited));
}
