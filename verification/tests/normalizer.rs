use async_lastfm::error::LastFmError;
use async_lastfm::normalizer::{
    best_image, normalize, normalize_loved, normalize_recent, normalize_top, CanonicalRecord,
    WireRecord,
};
use async_lastfm::types::{
    bool_from_str, u32_from_str, ApiBaseResponse, ApiDate, ApiLovedTrack, ApiRecentTrack,
    ApiTopTrack, Attributes, BaseMbidText, BaseObject, BaseResponse, Date, RankAttr, RecentTrack,
    Streamable, Timestamped, TopTrack, TrackImage,
};

fn wire_images() -> Vec<TrackImage> {
    vec![
        TrackImage { size: "small".to_string(), text: "s.png".to_string() },
        TrackImage { size: "large".to_string(), text: "l.png".to_string() },
        TrackImage { size: "extralarge".to_string(), text: "xl.png".to_string() },
    ]
}

fn wire_recent(name: &str, streamable: &str, uts: Option<&str>, playing: Option<&str>) -> ApiRecentTrack {
    ApiRecentTrack {
        artist: BaseMbidText { mbid: "a-id".to_string(), text: "The Artist".to_string() },
        streamable: streamable.to_string(),
        image: wire_images(),
        album: BaseMbidText { mbid: "al-id".to_string(), text: "The Album".to_string() },
        attr: playing.map(|p| Attributes { nowplaying: p.to_string() }),
        date: uts.map(|u| ApiDate { uts: u.to_string(), text: "some day".to_string() }),
        name: name.to_string(),
        mbid: "t-id".to_string(),
        url: "https://example.org/t".to_string(),
    }
}

fn wire_loved(name: &str, uts: &str) -> ApiLovedTrack {
    ApiLovedTrack {
        artist: BaseObject {
            mbid: "a-id".to_string(),
            url: "https://example.org/a".to_string(),
            name: "Loved Artist".to_string(),
        },
        date: ApiDate { uts: uts.to_string(), text: "some day".to_string() },
        image: Vec::new(),
        streamable: Streamable { fulltrack: "0".to_string(), text: "0".to_string() },
        name: name.to_string(),
        mbid: "l-id".to_string(),
        url: "https://example.org/l".to_string(),
    }
}

fn wire_top(name: &str, duration: &str, playcount: &str) -> ApiTopTrack {
    ApiTopTrack {
        streamable: Streamable { fulltrack: "0".to_string(), text: "0".to_string() },
        mbid: "top-id".to_string(),
        name: name.to_string(),
        image: wire_images(),
        artist: BaseObject {
            mbid: "a-id".to_string(),
            url: "https://example.org/a".to_string(),
            name: "Top Artist".to_string(),
        },
        url: "https://example.org/top".to_string(),
        duration: duration.to_string(),
        attr: RankAttr { rank: "1".to_string() },
        playcount: playcount.to_string(),
    }
}

fn parse_message<T: std::fmt::Debug>(r: Result<T, LastFmError>) -> String {
    match r {
        Err(LastFmError::Parse(m)) => m,
        other => panic!("not a parse error: {:?}", other),
    }
}

fn same_record(a: &CanonicalRecord, b: &CanonicalRecord) -> bool {
    a.name == b.name
        && a.artist == b.artist
        && a.album == b.album
        && a.images.len() == b.images.len()
        && a.images.iter().zip(b.images.iter()).all(|(x, y)| x.size == y.size && x.text == y.text)
        && a.now_playing == b.now_playing
        && a.timestamp == b.timestamp
        && a.url == b.url
        && a.mbid == b.mbid
}

#[test]
fn boolean_text_one_and_zero() {
    assert_eq!(bool_from_str("1").unwrap(), true);
    assert_eq!(bool_from_str("0").unwrap(), false);
    assert_eq!(parse_message(bool_from_str("yes")), "Invalid boolean value: yes");
    assert!(matches!(bool_from_str("true"), Err(LastFmError::Parse(_))));
    assert!(matches!(bool_from_str(""), Err(LastFmError::Parse(_))));
    assert!(matches!(bool_from_str("10"), Err(LastFmError::Parse(_))));
    assert!(matches!(bool_from_str("01"), Err(LastFmError::Parse(_))));
}

#[test]
fn number_text_is_read_in_decimal() {
    assert_eq!(u32_from_str("0").unwrap(), 0);
    assert_eq!(u32_from_str("1700000000").unwrap(), 1700000000);
    assert_eq!(u32_from_str("4294967295").unwrap(), u32::MAX);
    assert_eq!(u32_from_str("+42").unwrap(), 42);
    assert_eq!(u32_from_str("007").unwrap(), 7);
    assert_eq!(parse_message(u32_from_str("4294967296")), "Invalid number: 4294967296");
    assert_eq!(parse_message(u32_from_str("12a")), "Invalid number: 12a");
    assert!(u32_from_str("").is_err());
    assert!(u32_from_str("+").is_err());
    assert!(u32_from_str("-1").is_err());
    assert!(u32_from_str(" 1").is_err());
    assert!(u32_from_str("99999999999999999999").is_err());
    assert!(u32_from_str("\u{0661}").is_err());
}

#[test]
fn number_text_agrees_with_the_standard_parser() {
    for text in ["0", "9", "10", "+0", "+4294967295", "4294967295", "4294967296", "", "+", "++1", "1+", "0x10", "1_000", "١٢"] {
        assert_eq!(u32_from_str(text).ok(), text.parse::<u32>().ok(), "{:?}", text);
    }
}

#[test]
fn recent_play_is_flattened() {
    let record = normalize_recent(wire_recent("Song", "1", Some("1700000000"), None)).unwrap();
    assert_eq!(record.name, "Song");
    assert_eq!(record.artist, "The Artist");
    assert_eq!(record.album, Some("The Album".to_string()));
    assert_eq!(record.images.len(), 3);
    assert_eq!(record.images[1].size, "large");
    assert_eq!(record.now_playing, None);
    assert_eq!(record.timestamp, Some(1700000000));
    assert_eq!(record.get_timestamp(), Some(1700000000));
    assert_eq!(record.url, "https://example.org/t");
    assert_eq!(record.mbid, "t-id");
}

#[test]
fn now_playing_is_kept_only_for_true() {
    let playing = normalize_recent(wire_recent("Song", "0", None, Some("true"))).unwrap();
    assert_eq!(playing.now_playing, Some(true));
    assert_eq!(playing.timestamp, None);
    let not_playing = normalize_recent(wire_recent("Song", "0", Some("5"), Some("false"))).unwrap();
    assert_eq!(not_playing.now_playing, None);
    let upper = normalize_recent(wire_recent("Song", "0", Some("5"), Some("TRUE"))).unwrap();
    assert_eq!(upper.now_playing, None);
}

#[test]
fn recent_play_without_date_has_no_timestamp() {
    let record = normalize_recent(wire_recent("Song", "1", None, None)).unwrap();
    assert_eq!(record.timestamp, None);
    assert_eq!(record.now_playing, None);
    assert_eq!(record.name, "Song");
}

#[test]
fn recent_play_with_bad_fields_fails() {
    assert_eq!(
        parse_message(normalize_recent(wire_recent("Song", "yes", Some("5"), None))),
        "Invalid boolean value: yes"
    );
    assert_eq!(
        parse_message(normalize_recent(wire_recent("Song", "1", Some("five"), None))),
        "Invalid number: five"
    );
    assert_eq!(
        parse_message(normalize_recent(wire_recent("Song", "maybe", Some("five"), None))),
        "Invalid boolean value: maybe"
    );
}

#[test]
fn loved_and_top_tracks_are_flattened() {
    let loved = normalize_loved(wire_loved("Dear", "1600000000")).unwrap();
    assert_eq!(loved.name, "Dear");
    assert_eq!(loved.artist, "Loved Artist");
    assert_eq!(loved.album, None);
    assert_eq!(loved.now_playing, None);
    assert_eq!(loved.timestamp, Some(1600000000));
    assert_eq!(loved.mbid, "l-id");
    assert!(normalize_loved(wire_loved("Dear", "x")).is_err());

    let top = normalize_top(wire_top("Hit", "215", "99")).unwrap();
    assert_eq!(top.name, "Hit");
    assert_eq!(top.artist, "Top Artist");
    assert_eq!(top.timestamp, None);
    assert_eq!(top.url, "https://example.org/top");
    assert_eq!(parse_message(normalize_top(wire_top("Hit", "x", "y"))), "Invalid number: x");
    assert_eq!(parse_message(normalize_top(wire_top("Hit", "1", "y"))), "Invalid number: y");
}

#[test]
fn typed_records_keep_the_converted_fields() {
    let recent = RecentTrack::from(wire_recent("Song", "1", Some("12"), None)).unwrap();
    assert!(recent.streamable);
    assert_eq!(recent.date.as_ref().map(|d| d.uts), Some(12));
    assert_eq!(recent.get_timestamp(), Some(12));
    assert_eq!(recent.artist.mbid, "a-id");
    let top = TopTrack::from(wire_top("Hit", "215", "99")).unwrap();
    assert_eq!(top.duration, 215);
    assert_eq!(top.playcount, 99);
    let date = Date::from(ApiDate { uts: "77".to_string(), text: "t".to_string() }).unwrap();
    assert_eq!(date.uts, 77);
    assert_eq!(date.text, "t");
}

#[test]
fn paging_attributes_are_converted_in_order() {
    let attr = |total_pages: &str, page: &str, per_page: &str, total: &str| ApiBaseResponse {
        user: "someone".to_string(),
        total_pages: total_pages.to_string(),
        page: page.to_string(),
        per_page: per_page.to_string(),
        total: total.to_string(),
    };
    let ok = BaseResponse::from(attr("3", "1", "1000", "2500")).unwrap();
    assert_eq!(ok.user, "someone");
    assert_eq!((ok.total_pages, ok.page, ok.per_page, ok.total), (3, 1, 1000, 2500));
    assert_eq!(parse_message(BaseResponse::from(attr("a", "b", "c", "d"))), "Invalid number: a");
    assert_eq!(parse_message(BaseResponse::from(attr("1", "1", "c", "d"))), "Invalid number: c");
    assert_eq!(parse_message(BaseResponse::from(attr("1", "1", "1", "d"))), "Invalid number: d");
}

#[test]
fn normalize_twice_gives_the_same_record() {
    let first = normalize(WireRecord::Recent(wire_recent("Song", "1", Some("1700000000"), None))).unwrap();
    let second = normalize(WireRecord::Recent(wire_recent("Song", "1", Some("1700000000"), None))).unwrap();
    assert!(same_record(&first, &second));
    let wire = WireRecord::Top(wire_top("Hit", "215", "99"));
    let a = normalize(wire.clone()).unwrap();
    let b = normalize(wire).unwrap();
    assert!(same_record(&a, &b));
    let bad = WireRecord::Loved(wire_loved("Dear", "soon"));
    assert_eq!(parse_message(normalize(bad.clone())), parse_message(normalize(bad)));
}

#[test]
fn best_image_prefers_extralarge_then_large_then_first() {
    assert_eq!(best_image(&wire_images()), Some("xl.png".to_string()));
    let no_extra = vec![
        TrackImage { size: "small".to_string(), text: "s.png".to_string() },
        TrackImage { size: "large".to_string(), text: "l.png".to_string() },
        TrackImage { size: "large".to_string(), text: "l2.png".to_string() },
    ];
    assert_eq!(best_image(&no_extra), Some("l.png".to_string()));
    let neither = vec![
        TrackImage { size: "medium".to_string(), text: "m.png".to_string() },
        TrackImage { size: "small".to_string(), text: "s.png".to_string() },
    ];
    assert_eq!(best_image(&neither), Some("m.png".to_string()));
    assert_eq!(best_image(&Vec::new()), None);
}
