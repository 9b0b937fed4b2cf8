use async_lastfm::error::{LastFmError, LastFmErrorResponse};
use async_lastfm::executor::{execute, normalize_page, FetchRun, PageResponse};
use async_lastfm::normalizer::WireRecord;
use async_lastfm::planner::{plan, PageRequest, TrackLimit};
use async_lastfm::types::{
    ApiBaseResponse, ApiDate, ApiLovedTrack, BaseObject, LovedTracks, Streamable, UserLovedTracks,
};

fn loved_item(name: &str, uts: &str) -> WireRecord {
    WireRecord::Loved(ApiLovedTrack {
        artist: BaseObject { mbid: String::new(), url: String::new(), name: "Artist".to_string() },
        date: ApiDate { uts: uts.to_string(), text: String::new() },
        image: Vec::new(),
        streamable: Streamable { fulltrack: "0".to_string(), text: "0".to_string() },
        name: name.to_string(),
        mbid: String::new(),
        url: String::new(),
    })
}

fn page_attr(total: &str) -> ApiBaseResponse {
    ApiBaseResponse {
        user: "someone".to_string(),
        total_pages: "1".to_string(),
        page: "1".to_string(),
        per_page: "1000".to_string(),
        total: total.to_string(),
    }
}

/// The page that an honest service returns for `request` out of `total` items: the items are
/// named by their position in the whole collection.
fn honest_page(request: &PageRequest, max: u32, total: u32) -> PageResponse {
    let start = (request.page - 1) * max;
    let end = (start + request.limit).min(total);
    PageResponse {
        items: (start..end).map(|i| loved_item(&format!("item{}", i), "100")).collect(),
        attr: page_attr(&total.to_string()),
    }
}

fn honest_replies(total: u32, limit: TrackLimit, max: u32) -> Vec<Vec<Result<PageResponse, LastFmError>>> {
    let p = plan(total, limit, max);
    (0..p.batch_count())
        .map(|b| p.batch(b).unwrap().iter().map(|r| Ok(honest_page(r, max, total))).collect())
        .collect()
}

fn names(records: &[async_lastfm::normalizer::CanonicalRecord]) -> Vec<String> {
    records.iter().map(|r| r.name.clone()).collect()
}

#[test]
fn fetch_returns_the_smaller_of_limit_and_total() {
    for (total, requested, max) in [(25u32, 10u32, 4u32), (10, 25, 4), (8, 8, 4), (9, 9, 4), (3, 7, 10), (40, 33, 3)] {
        let limit = TrackLimit::Limited(requested);
        let records = execute(plan(total, limit, max), honest_replies(total, limit, max)).unwrap();
        assert_eq!(records.len() as u32, requested.min(total));
        let expected: Vec<String> = (0..requested.min(total)).map(|i| format!("item{}", i)).collect();
        assert_eq!(names(&records), expected);
    }
}

#[test]
fn fetch_of_nothing_needs_no_reply() {
    let records = execute(plan(0, TrackLimit::Limited(10), 4), Vec::new()).unwrap();
    assert!(records.is_empty());
    let records = execute(plan(10, TrackLimit::Limited(0), 4), Vec::new()).unwrap();
    assert!(records.is_empty());
    let run = FetchRun::new(plan(0, TrackLimit::Unlimited, 1000));
    assert!(run.current_batch().is_none());
    assert!(run.is_complete());
    assert!(run.finish().unwrap().is_empty());
}

#[test]
fn third_of_five_requests_fails_the_fetch() {
    let max = 2;
    let total = 14;
    let p = plan(total, TrackLimit::Unlimited, max);
    assert_eq!(p.batch_count(), 2);
    let mut run = FetchRun::new(p);
    let mut calls = 0;
    let mut batches_started = 0;
    let mut outcome = Ok(());
    while let Some(batch) = run.current_batch() {
        batches_started += 1;
        let mut replies = Vec::new();
        for request in batch.iter() {
            calls += 1;
            if request.page == 3 {
                replies.push(Err(LastFmError::Api(LastFmErrorResponse {
                    message: "Invalid parameters".to_string(),
                    error: 6,
                })));
            } else {
                replies.push(Ok(honest_page(request, max, total)));
            }
        }
        assert_eq!(replies.len(), 5);
        outcome = run.absorb(replies);
        if outcome.is_err() {
            break;
        }
    }
    match outcome {
        Err(LastFmError::Api(e)) => {
            assert_eq!(e.error, 6);
            assert_eq!(e.message, "Invalid parameters");
        }
        other => panic!("expected the error of the third request, got {:?}", other),
    }
    assert_eq!(batches_started, 1);
    assert_eq!(calls, 5);
    assert!(run.has_failed());
    assert!(run.current_batch().is_none());
    assert!(!run.is_complete());
    assert!(matches!(run.finish(), Err(LastFmError::Other(_))));
}

#[test]
fn first_failing_reply_in_page_order_is_returned() {
    let p = plan(6, TrackLimit::Unlimited, 2);
    let replies = vec![vec![
        Ok(honest_page(&PageRequest { page: 1, limit: 2 }, 2, 6)),
        Err(LastFmError::Http("first".to_string())),
        Err(LastFmError::Http("second".to_string())),
    ]];
    match execute(p, replies) {
        Err(LastFmError::Http(m)) => assert_eq!(m, "first"),
        other => panic!("unexpected {:?}", other),
    }
}

#[test]
fn a_page_that_does_not_convert_fails_the_fetch() {
    let p = plan(4, TrackLimit::Unlimited, 2);
    let bad_item = PageResponse {
        items: vec![loved_item("a", "1"), loved_item("b", "x")],
        attr: page_attr("4"),
    };
    let replies = vec![vec![Ok(bad_item), Err(LastFmError::Http("later".to_string()))]];
    match execute(p, replies) {
        Err(LastFmError::Parse(m)) => assert_eq!(m, "Invalid number: x"),
        other => panic!("unexpected {:?}", other),
    }
    let bad_attr = PageResponse { items: vec![loved_item("a", "1")], attr: page_attr("many") };
    match normalize_page(bad_attr, 5) {
        Err(LastFmError::Parse(m)) => assert_eq!(m, "Invalid number: many"),
        other => panic!("unexpected {:?}", other),
    }
}

#[test]
fn long_pages_are_cut_to_the_size_asked_for() {
    let page = PageResponse {
        items: vec![loved_item("a", "1"), loved_item("b", "2"), loved_item("c", "not a number")],
        attr: page_attr("3"),
    };
    let records = normalize_page(page, 2).unwrap();
    assert_eq!(names(&records), vec!["a", "b"]);

    let p = plan(3, TrackLimit::Unlimited, 2);
    let generous = |first: &str| PageResponse {
        items: vec![loved_item(first, "1"), loved_item("x", "2"), loved_item("y", "3")],
        attr: page_attr("3"),
    };
    let records = execute(p, vec![vec![Ok(generous("a")), Ok(generous("b"))]]).unwrap();
    assert_eq!(names(&records), vec!["a", "x", "b"]);
}

#[test]
fn short_pages_give_fewer_records() {
    let p = plan(5, TrackLimit::Unlimited, 2);
    let short = |n: &str| PageResponse { items: vec![loved_item(n, "1")], attr: page_attr("5") };
    let records = execute(p, vec![vec![Ok(short("a")), Ok(short("b")), Ok(short("c"))]]).unwrap();
    assert_eq!(names(&records), vec!["a", "b", "c"]);
}

#[test]
fn replies_must_match_the_batch() {
    let mut run = FetchRun::new(plan(4, TrackLimit::Unlimited, 2));
    let one = vec![Ok(honest_page(&PageRequest { page: 1, limit: 2 }, 2, 4))];
    match run.absorb(one) {
        Err(LastFmError::Other(m)) => assert_eq!(m, "The replies do not match the batch"),
        other => panic!("unexpected {:?}", other),
    }
    assert!(run.has_failed());
    match run.absorb(Vec::new()) {
        Err(LastFmError::Other(m)) => assert_eq!(m, "No batch is waiting for replies"),
        other => panic!("unexpected {:?}", other),
    }
    let missing = execute(plan(4, TrackLimit::Unlimited, 2), Vec::new());
    match missing {
        Err(LastFmError::Other(m)) => assert_eq!(m, "The fetch is not complete"),
        other => panic!("unexpected {:?}", other),
    }
}

#[test]
fn batches_are_merged_in_order() {
    let total = 23;
    let max = 2;
    let p = plan(total, TrackLimit::Unlimited, max);
    assert_eq!(p.batch_count(), 3);
    let mut run = FetchRun::new(p);
    let mut seen_pages = Vec::new();
    while let Some(batch) = run.current_batch() {
        let replies: Vec<_> = batch
            .iter()
            .map(|r| {
                seen_pages.push(r.page);
                Ok(honest_page(r, max, total))
            })
            .collect();
        run.absorb(replies).unwrap();
    }
    assert_eq!(seen_pages, (1..=12).collect::<Vec<u32>>());
    assert!(run.is_complete());
    let records = run.finish().unwrap();
    let expected: Vec<String> = (0..23).map(|i| format!("item{}", i)).collect();
    assert_eq!(names(&records), expected);
}

#[test]
fn page_total_is_read_from_the_attributes() {
    let page = PageResponse { items: Vec::new(), attr: page_attr("2500") };
    assert_eq!(page.total().unwrap(), 2500);
    let bad = PageResponse { items: Vec::new(), attr: page_attr("") };
    assert!(matches!(bad.total(), Err(LastFmError::Parse(_))));
}

#[test]
fn pages_are_made_from_bodies() {
    let item = |name: &str| match loved_item(name, "9") {
        WireRecord::Loved(w) => w,
        _ => unreachable!(),
    };
    let body = || UserLovedTracks {
        lovedtracks: LovedTracks { track: vec![item("a"), item("b")], attr: page_attr("77") },
    };
    assert_eq!(body().total_tracks().unwrap(), 77);
    let tracks = body().tracks();
    assert_eq!(tracks.len(), 2);
    assert_eq!(tracks[1].name, "b");
    let page = PageResponse::from_loved(body());
    assert_eq!(page.attr.total, "77");
    assert_eq!(page.items.len(), 2);
    assert!(matches!(&page.items[0], WireRecord::Loved(w) if w.name == "a"));
    let records = normalize_page(page, 10).unwrap();
    assert_eq!(names(&records), vec!["a", "b"]);
    assert_eq!(records[0].timestamp, Some(9));
}
