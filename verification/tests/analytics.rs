use async_lastfm::analytics::{count_names, AnalysisHandler, PlayCounts, TrackAnalyzable};
use async_lastfm::types::{BaseMbidText, BaseObject, Date, LovedTrack, RecentTrack, Streamable};

fn create_recent_track(artist: &str, name: &str) -> RecentTrack {
    RecentTrack {
        artist: BaseMbidText { mbid: String::new(), text: artist.to_string() },
        streamable: false,
        image: Vec::new(),
        album: BaseMbidText { mbid: String::new(), text: String::new() },
        attr: None,
        date: None,
        name: name.to_string(),
        mbid: String::new(),
        url: String::new(),
    }
}

fn create_loved_track(artist: &str, name: &str) -> LovedTrack {
    LovedTrack {
        artist: BaseObject { mbid: String::new(), url: String::new(), name: artist.to_string() },
        date: Date { uts: 0, text: String::new() },
        image: Vec::new(),
        streamable: Streamable { fulltrack: String::new(), text: String::new() },
        name: name.to_string(),
        mbid: String::new(),
        url: String::new(),
    }
}

fn dated_loved_track(name: &str, uts: u32) -> LovedTrack {
    let mut track = create_loved_track("Artist", name);
    track.date.uts = uts;
    track
}

#[test]
fn test_analyze_recent_tracks() {
    let tracks = vec![
        create_recent_track("Artist1", "Song1"),
        create_recent_track("Artist1", "Song1"),
        create_recent_track("Artist1", "Song2"),
        create_recent_track("Artist2", "Song3"),
    ];

    let stats = AnalysisHandler::analyze_tracks(&tracks, 2);

    assert_eq!(stats.total_tracks, 4);
    assert_eq!(stats.artist_play_counts.get("Artist1"), Some(3));
    assert_eq!(stats.artist_play_counts.get("Artist2"), Some(1));
    assert_eq!(stats.track_play_counts.get("Artist1 - Song1"), Some(2));
    assert_eq!(stats.most_played_artist, Some(("Artist1".to_string(), 3)));
}

#[test]
fn test_analyze_loved_tracks() {
    let tracks = vec![
        create_loved_track("Artist1", "Song1"),
        create_loved_track("Artist1", "Song1"),
        create_loved_track("Artist1", "Song2"),
        create_loved_track("Artist2", "Song3"),
    ];

    let stats = AnalysisHandler::analyze_tracks(&tracks, 2);

    assert_eq!(stats.total_tracks, 4);
    assert_eq!(stats.artist_play_counts.get("Artist1"), Some(3));
    assert_eq!(stats.artist_play_counts.get("Artist2"), Some(1));
    assert_eq!(stats.track_play_counts.get("Artist1 - Song1"), Some(2));
    assert_eq!(stats.most_played_artist, Some(("Artist1".to_string(), 3)));
}

#[test]
fn analyze_splits_tracks_at_the_threshold() {
    let tracks = vec![
        create_recent_track("A", "x"),
        create_recent_track("A", "x"),
        create_recent_track("B", "y"),
        create_recent_track("A", "z"),
        create_recent_track("A", "x"),
    ];
    let stats = AnalysisHandler::analyze_tracks(&tracks, 2);
    assert_eq!(stats.track_play_counts.len(), 3);
    assert_eq!(stats.tracks_below_threshold.len(), 2);
    assert_eq!(stats.tracks_below_threshold.entry(0), ("B - y", 1));
    assert_eq!(stats.tracks_below_threshold.entry(1), ("A - z", 1));
    assert_eq!(stats.tracks_above_threshold.len(), 1);
    assert_eq!(stats.tracks_above_threshold.entry(0), ("A - x", 3));
    assert_eq!(stats.most_played_track, Some(("A - x".to_string(), 3)));
    assert_eq!(stats.track_play_counts.get("A - q"), None);
}

#[test]
fn analyze_of_no_tracks_is_empty() {
    let tracks: Vec<RecentTrack> = Vec::new();
    let stats = AnalysisHandler::analyze_tracks(&tracks, 1);
    assert_eq!(stats.total_tracks, 0);
    assert_eq!(stats.artist_play_counts.len(), 0);
    assert_eq!(stats.track_play_counts.len(), 0);
    assert_eq!(stats.most_played_artist, None);
    assert_eq!(stats.most_played_track, None);
}

#[test]
fn most_played_takes_the_last_of_equals() {
    let names = vec!["a".to_string(), "b".to_string(), "a".to_string(), "b".to_string()];
    let counts = count_names(&names);
    assert_eq!(counts.len(), 2);
    assert_eq!(counts.entry(0), ("a", 2));
    assert_eq!(counts.entry(1), ("b", 2));
    assert_eq!(counts.most_played(), Some(("b".to_string(), 2)));
}

#[test]
fn record_counts_one_more() {
    let mut counts = PlayCounts::new();
    counts.record("x");
    counts.record("y");
    counts.record("x");
    assert_eq!(counts.len(), 2);
    assert_eq!(counts.get("x"), Some(2));
    assert_eq!(counts.get("y"), Some(1));
    assert_eq!(counts.get("z"), None);
}

#[test]
fn track_identifier_joins_artist_and_name() {
    let recent = create_recent_track("Artist1", "Song1");
    assert_eq!(recent.get_artist_name(), "Artist1");
    assert_eq!(recent.get_track_name(), "Song1");
    assert_eq!(recent.get_track_identifier(), "Artist1 - Song1");
    let loved = create_loved_track("Artist2", "Song3");
    assert_eq!(loved.get_track_identifier(), "Artist2 - Song3");
}

#[test]
fn most_recent_timestamp_is_the_latest() {
    let tracks = vec![
        dated_loved_track("a", 1700000001),
        dated_loved_track("b", 1700000050),
        dated_loved_track("c", 1699999999),
    ];
    assert_eq!(AnalysisHandler::get_most_recent_timestamp(&tracks), Some(1700000050));
    let none: Vec<LovedTrack> = Vec::new();
    assert_eq!(AnalysisHandler::get_most_recent_timestamp(&none), None);
    let undated = vec![create_recent_track("a", "b")];
    assert_eq!(AnalysisHandler::get_most_recent_timestamp(&undated), None);
}

#[test]
fn ranked_counts_are_highest_first_and_stable() {
    let names: Vec<String> =
        ["a", "b", "c", "b", "d", "c", "b", "d"].iter().map(|s| s.to_string()).collect();
    let counts = count_names(&names);
    let ranked = counts.ranked();
    let listed: Vec<(String, usize)> =
        (0..ranked.len()).map(|i| (ranked.entry(i).0.to_string(), ranked.entry(i).1)).collect();
    assert_eq!(
        listed,
        vec![
            ("b".to_string(), 3),
            ("c".to_string(), 2),
            ("d".to_string(), 2),
            ("a".to_string(), 1),
        ]
    );
    let top = counts.top(2);
    assert_eq!(top.len(), 2);
    assert_eq!(top.entry(0), ("b", 3));
    assert_eq!(top.entry(1), ("c", 2));
    assert_eq!(counts.top(10).len(), 4);
    assert_eq!(counts.top(0).len(), 0);
}
