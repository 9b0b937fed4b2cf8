use async_lastfm::error::LastFmError;
use async_lastfm::executor::PageResponse;
use async_lastfm::lastfm_handler::{
    newer_than, play_counts, playing_now, LastFMHandler, Period, ResourceKind, BASE_URL,
};
use async_lastfm::normalizer::{CanonicalRecord, WireRecord};
use async_lastfm::planner::{PageRequest, TrackLimit};
use async_lastfm::types::{
    ApiBaseResponse, ApiDate, ApiRecentTrack, Attributes, BaseMbidText, TrackImage,
};
use async_lastfm::url_builder::QueryParams;

fn record(name: &str, timestamp: Option<u32>) -> CanonicalRecord {
    CanonicalRecord {
        name: name.to_string(),
        artist: format!("artist of {}", name),
        album: Some(format!("album of {}", name)),
        images: vec![
            TrackImage { size: "small".to_string(), text: format!("{}-s.png", name) },
            TrackImage { size: "large".to_string(), text: format!("{}-l.png", name) },
        ],
        now_playing: None,
        timestamp,
        url: format!("https://example.org/{}", name),
        mbid: String::new(),
    }
}

fn recent_item(name: &str, uts: Option<&str>, playing: bool) -> WireRecord {
    WireRecord::Recent(ApiRecentTrack {
        artist: BaseMbidText { mbid: String::new(), text: "Artist".to_string() },
        streamable: "0".to_string(),
        image: Vec::new(),
        album: BaseMbidText { mbid: String::new(), text: "Album".to_string() },
        attr: if playing { Some(Attributes { nowplaying: "true".to_string() }) } else { None },
        date: uts.map(|u| ApiDate { uts: u.to_string(), text: String::new() }),
        name: name.to_string(),
        mbid: String::new(),
        url: String::new(),
    })
}

fn recent_page(total: &str, items: Vec<WireRecord>) -> PageResponse {
    PageResponse {
        items,
        attr: ApiBaseResponse {
            user: "someone".to_string(),
            total_pages: "1".to_string(),
            page: "1".to_string(),
            per_page: "1000".to_string(),
            total: total.to_string(),
        },
    }
}

fn entries(params: &QueryParams) -> Vec<(String, String)> {
    (0..params.len())
        .map(|i| {
            let e = params.entry(i);
            (e.0.to_string(), e.1.to_string())
        })
        .collect()
}

fn pairs(list: &[(&str, &str)]) -> Vec<(String, String)> {
    list.iter().map(|(k, v)| (k.to_string(), v.to_string())).collect()
}

fn handler() -> LastFMHandler {
    LastFMHandler::new("tom", Some("KEY")).unwrap()
}

#[test]
fn update_returns_only_newer_items_in_order() {
    let h = handler();
    let job = h.update(1700000000, ResourceKind::RecentPlays);
    assert!(matches!(job.limit, TrackLimit::Unlimited));
    assert_eq!(job.since, Some(1700000000));
    assert_eq!(entries(&job.filters), pairs(&[("from", "1700000000")]));

    let probe = recent_page("3", vec![recent_item("probe", Some("1700000050"), false)]);
    let mut run = job.begin(&probe).unwrap();
    let batch = run.current_batch().unwrap().clone();
    assert_eq!(batch, vec![PageRequest { page: 1, limit: 3 }]);
    let page = recent_page(
        "3",
        vec![
            recent_item("old", Some("1699999999"), false),
            recent_item("new", Some("1700000001"), false),
            recent_item("newer", Some("1700000050"), false),
        ],
    );
    run.absorb(vec![Ok(page)]).unwrap();
    assert!(run.current_batch().is_none());
    let records = job.finish(run).unwrap();
    let stamps: Vec<Option<u32>> = records.iter().map(|r| r.timestamp).collect();
    assert_eq!(stamps, vec![Some(1700000001), Some(1700000050)]);
    let names: Vec<&str> = records.iter().map(|r| r.name.as_str()).collect();
    assert_eq!(names, vec!["new", "newer"]);
}

#[test]
fn recent_tracks_since_are_strictly_newer() {
    let h = handler();
    let job = h.get_user_recent_tracks_since(1700000000, TrackLimit::Unlimited);
    assert_eq!(job.kind.method(), "user.getrecenttracks");
    assert_eq!(job.since, Some(1700000000));
    assert_eq!(entries(&job.probe_query()), pairs(&[("from", "1700000000"), ("limit", "1"), ("page", "1")]));
    assert_eq!(
        entries(&job.page_query(&PageRequest { page: 1, limit: 4 })),
        pairs(&[("from", "1700000000"), ("limit", "4"), ("page", "1")])
    );
    let probe = recent_page("4", Vec::new());
    let mut run = job.begin(&probe).unwrap();
    let page = recent_page(
        "4",
        vec![
            recent_item("old", Some("1699999999"), false),
            recent_item("same", Some("1700000000"), false),
            recent_item("new", Some("1700000001"), false),
            recent_item("newer", Some("1700000050"), false),
        ],
    );
    run.absorb(vec![Ok(page)]).unwrap();
    let records = job.finish(run).unwrap();
    let stamps: Vec<Option<u32>> = records.iter().map(|r| r.timestamp).collect();
    assert_eq!(stamps, vec![Some(1700000001), Some(1700000050)]);
}

#[test]
fn newer_than_is_strict_and_drops_undated_records() {
    let records = vec![
        record("a", Some(10)),
        record("b", None),
        record("c", Some(11)),
        record("d", Some(9)),
        record("e", Some(12)),
    ];
    let kept = newer_than(records, 10);
    let names: Vec<&str> = kept.iter().map(|r| r.name.as_str()).collect();
    assert_eq!(names, vec!["c", "e"]);
    assert!(newer_than(Vec::new(), 0).is_empty());
    let all = newer_than(vec![record("z", Some(0)), record("y", None)], -1);
    assert_eq!(all.len(), 1);
    assert_eq!(all[0].name, "z");
}

#[test]
fn update_of_loved_tracks_filters_here() {
    let h = handler();
    let job = h.update(5, ResourceKind::LovedTracks);
    assert_eq!(job.kind, ResourceKind::LovedTracks);
    assert_eq!(job.filters.len(), 0);
    assert_eq!(job.since, Some(5));
    let since = h.get_user_loved_tracks_since(7, TrackLimit::Limited(20));
    assert_eq!(since.since, Some(7));
    assert_eq!(since.filters.len(), 0);
    assert!(matches!(since.limit, TrackLimit::Limited(20)));
    let recent = h.get_user_recent_tracks_since(7, TrackLimit::Unlimited);
    assert_eq!(entries(&recent.filters), pairs(&[("from", "7")]));
    assert_eq!(recent.kind, ResourceKind::RecentPlays);
    assert_eq!(recent.since, Some(7));
    let early = h.get_user_recent_tracks_since(-5, TrackLimit::Unlimited);
    assert_eq!(entries(&early.filters), pairs(&[("from", "-5")]));
    assert_eq!(early.since, Some(-5));
}

#[test]
fn handler_needs_a_key() {
    match LastFMHandler::new("tom", None) {
        Err(LastFmError::MissingEnvVar(name)) => assert_eq!(name, "LAST_FM_API_KEY"),
        other => panic!("unexpected {:?}", other),
    }
    assert!(LastFMHandler::new("tom", Some("k")).is_ok());
}

#[test]
fn request_url_merges_parameters_last_write_wins() {
    let h = handler();
    let job = h.get_user_recent_tracks(TrackLimit::Unlimited);
    assert_eq!(BASE_URL, "https://ws.audioscrobbler.com/2.0/");
    assert_eq!(
        h.request_url(job.kind.method(), &job.probe_query()),
        "https://ws.audioscrobbler.com/2.0/?api_key=KEY&limit=1&format=json&user=tom&method=user.getrecenttracks&page=1"
    );
    assert_eq!(
        h.request_url(job.kind.method(), &job.page_query(&PageRequest { page: 3, limit: 500 })),
        "https://ws.audioscrobbler.com/2.0/?api_key=KEY&limit=500&format=json&user=tom&method=user.getrecenttracks&page=3"
    );
    assert_eq!(h.probe_url(&job), h.request_url(job.kind.method(), &job.probe_query()));
    assert_eq!(
        h.page_url(&job, &PageRequest { page: 2, limit: 1000 }),
        "https://ws.audioscrobbler.com/2.0/?api_key=KEY&limit=1000&format=json&user=tom&method=user.getrecenttracks&page=2"
    );
    assert_eq!(
        h.request_url("user.getinfo", &QueryParams::new()),
        "https://ws.audioscrobbler.com/2.0/?api_key=KEY&limit=1000&format=json&user=tom&method=user.getinfo"
    );
}

#[test]
fn request_url_encodes_values() {
    let h = LastFMHandler::new("tom & jerry", Some("a/b")).unwrap();
    assert_eq!(
        h.request_url("m", &QueryParams::new()),
        "https://ws.audioscrobbler.com/2.0/?api_key=a%2Fb&limit=1000&format=json&user=tom%20%26%20jerry&method=m"
    );
}

#[test]
fn jobs_name_their_collection_and_filters() {
    let h = handler();
    let loved = h.get_user_loved_tracks(TrackLimit::Limited(5));
    assert_eq!(loved.kind, ResourceKind::LovedTracks);
    assert_eq!(loved.kind.method(), "user.getlovedtracks");
    assert_eq!(loved.filters.len(), 0);
    assert_eq!(loved.since, None);
    let top = h.get_user_top_tracks(TrackLimit::Unlimited, Some(Period::SixMonth));
    assert_eq!(top.kind.method(), "user.gettoptracks");
    assert_eq!(entries(&top.filters), pairs(&[("period", "6month")]));
    let top_all = h.get_user_top_tracks(TrackLimit::Unlimited, None);
    assert_eq!(top_all.filters.len(), 0);
    assert_eq!(entries(&top.probe_query()), pairs(&[("period", "6month"), ("limit", "1"), ("page", "1")]));
    assert_eq!(
        entries(&top.page_query(&PageRequest { page: 12, limit: 1000 })),
        pairs(&[("period", "6month"), ("limit", "1000"), ("page", "12")])
    );
    assert_eq!(ResourceKind::RecentPlays.method(), "user.getrecenttracks");
}

#[test]
fn period_texts() {
    assert_eq!(Period::Overall.as_api_str(), "overall");
    assert_eq!(Period::Week.as_api_str(), "7day");
    assert_eq!(Period::Month.as_api_str(), "1month");
    assert_eq!(Period::ThreeMonth.as_api_str(), "3month");
    assert_eq!(Period::SixMonth.as_api_str(), "6month");
    assert_eq!(Period::TwelveMonth.as_api_str(), "12month");
}

#[test]
fn begin_plans_from_the_probe() {
    let h = handler();
    let job = h.get_user_recent_tracks(TrackLimit::Unlimited);
    let run = job.begin(&recent_page("2500", Vec::new())).unwrap();
    let batch = run.current_batch().unwrap();
    assert_eq!(
        batch,
        &vec![
            PageRequest { page: 1, limit: 1000 },
            PageRequest { page: 2, limit: 1000 },
            PageRequest { page: 3, limit: 500 },
        ]
    );
    let limited = h.get_user_recent_tracks(TrackLimit::Limited(10));
    let run = limited.begin(&recent_page("2500", Vec::new())).unwrap();
    assert_eq!(run.current_batch().unwrap(), &vec![PageRequest { page: 1, limit: 10 }]);
    let empty = job.begin(&recent_page("0", Vec::new())).unwrap();
    assert!(empty.current_batch().is_none());
    assert!(job.finish(empty).unwrap().is_empty());
    match job.begin(&recent_page("lots", Vec::new())) {
        Err(LastFmError::Parse(m)) => assert_eq!(m, "Invalid number: lots"),
        other => panic!("unexpected {:?}", other.map(|_| ())),
    }
}

#[test]
fn currently_playing_is_the_first_record_if_marked() {
    let h = handler();
    let job = h.is_currently_playing();
    assert!(matches!(job.limit, TrackLimit::Limited(1)));
    assert_eq!(entries(&job.filters), pairs(&[("limit", "1")]));
    let probe = recent_page("840", vec![recent_item("now", None, true)]);
    let mut run = job.begin(&probe).unwrap();
    assert_eq!(run.current_batch().unwrap(), &vec![PageRequest { page: 1, limit: 1 }]);
    run.absorb(vec![Ok(recent_page(
        "840",
        vec![recent_item("now", None, true), recent_item("before", Some("5"), false)],
    ))])
    .unwrap();
    let records = job.finish(run).unwrap();
    assert_eq!(records.len(), 1);
    let playing = playing_now(records).unwrap();
    assert_eq!(playing.name, "now");

    let mut idle = record("idle", Some(3));
    assert!(playing_now(vec![idle.clone()]).is_none());
    idle.now_playing = Some(false);
    assert!(playing_now(vec![idle]).is_none());
    assert!(playing_now(Vec::new()).is_none());
    let mut second = record("second", Some(3));
    second.now_playing = Some(true);
    assert!(playing_now(vec![record("first", Some(4)), second]).is_none());
}

#[test]
fn play_counts_count_by_name_in_first_seen_order() {
    let mut playing = record("b", None);
    playing.now_playing = Some(true);
    let tracks = vec![
        record("a", Some(30)),
        playing,
        record("a", Some(20)),
        record("c", Some(15)),
        record("a", Some(10)),
        record("b", Some(5)),
    ];
    let infos = play_counts(tracks);
    assert_eq!(infos.len(), 3);
    assert_eq!(infos[0].name, "a");
    assert_eq!(infos[0].play_count, 3);
    assert_eq!(infos[0].artist, "artist of a");
    assert_eq!(infos[0].album, Some("album of a".to_string()));
    assert_eq!(infos[0].image_url, Some("a-l.png".to_string()));
    assert_eq!(infos[0].currently_playing, false);
    assert_eq!(infos[0].date, Some(30));
    assert_eq!(infos[0].url, "https://example.org/a");
    assert_eq!(infos[1].name, "b");
    assert_eq!(infos[1].play_count, 2);
    assert_eq!(infos[1].currently_playing, true);
    assert_eq!(infos[1].date, None);
    assert_eq!(infos[2].name, "c");
    assert_eq!(infos[2].play_count, 1);
    assert!(play_counts(Vec::new()).is_empty());
}
