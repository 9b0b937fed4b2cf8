//! The track normalizer: from each kind of record of the remote service to
//! the one canonical record that the library hands out.

use crate::error::{LastFmError, LastFmErrorView};
use crate::text::{first_index, lemma_first_index_is, str_eq};
use crate::types::{
    loved_track_of, recent_track_of, result_view, top_track_of, ApiLovedTrack, ApiLovedTrackView,
    ApiRecentTrack, ApiRecentTrackView, ApiTopTrack, ApiTopTrackView, AttributesView, LovedTrack,
    LovedTrackView, RecentTrack, RecentTrackView, Timestamped, TopTrack, TopTrackView, TrackImage,
    TrackImageView,
};
use vstd::prelude::*;

verus! {

/// One item as the library hands it out, whatever kind of collection it
/// came from.
#[derive(Debug, Clone)]
pub struct CanonicalRecord {
    /// The name of the track.
    pub name: String,
    /// The name of the artist.
    pub artist: String,
    /// The name of the album, where the collection says it.
    pub album: Option<String>,
    /// The picture variants, in the order of the service.
    pub images: Vec<TrackImage>,
    /// Present, and true, on the track that is playing now.
    pub now_playing: Option<bool>,
    /// When the item happened, in seconds since 1970.
    pub timestamp: Option<u32>,
    /// The address of the track.
    pub url: String,
    /// The identifier of the track.
    pub mbid: String,
}

/// The view of [`CanonicalRecord`].
pub struct CanonicalRecordView {
    pub name: Seq<char>,
    pub artist: Seq<char>,
    pub album: Option<Seq<char>>,
    pub images: Seq<TrackImageView>,
    pub now_playing: Option<bool>,
    pub timestamp: Option<u32>,
    pub url: Seq<char>,
    pub mbid: Seq<char>,
}

impl View for CanonicalRecord {
    type V = CanonicalRecordView;

    open spec fn view(&self) -> CanonicalRecordView {
        CanonicalRecordView {
            name: self.name@,
            artist: self.artist@,
            album: match self.album {
                Some(x) => Some(x@),
                None => None,
            },
            images: self.images@.map_values(|x: TrackImage| x@),
            now_playing: match self.now_playing {
                Some(x) => Some(x),
                None => None,
            },
            timestamp: match self.timestamp {
                Some(x) => Some(x),
                None => None,
            },
            url: self.url@,
            mbid: self.mbid@,
        }
    }
}

/// Whether the attributes of an item say that it is playing now.
pub open spec fn plays_now(attr: Option<AttributesView>) -> bool {
    match attr {
        Some(a) => a.nowplaying == seq!['t', 'r', 'u', 'e'],
        None => false,
    }
}

/// The size tags of the pictures, in order.
pub open spec fn size_tags(images: Seq<TrackImageView>) -> Seq<Seq<char>> {
    images.map_values(|i: TrackImageView| i.size)
}

/// The address of the first picture with the size tag `tag`, if there is
/// one.
pub open spec fn image_tagged(images: Seq<TrackImageView>, tag: Seq<char>) -> Option<Seq<char>> {
    let i = first_index(size_tags(images), tag);
    if i < images.len() {
        Some(images[i].text)
    } else {
        None
    }
}

/// The address of the best picture: the first tagged `extralarge`, else the
/// first tagged `large`, else the first of all; none where there is no
/// picture.
pub open spec fn best_image_of(images: Seq<TrackImageView>) -> Option<Seq<char>> {
    if image_tagged(images, "extralarge"@).is_some() {
        image_tagged(images, "extralarge"@)
    } else if image_tagged(images, "large"@).is_some() {
        image_tagged(images, "large"@)
    } else if images.len() > 0 {
        Some(images[0].text)
    } else {
        None
    }
}

/// The canonical record of a recent play. The artist and the album are their
/// display texts; the mark of the track that is playing now is kept only
/// where the attributes say `true`.
pub open spec fn canonical_recent(t: RecentTrackView) -> CanonicalRecordView {
    CanonicalRecordView {
        name: t.name,
        artist: t.artist.text,
        album: Some(t.album.text),
        images: t.image,
        now_playing: if plays_now(t.attr) {
            Some(true)
        } else {
            None
        },
        timestamp: match t.date {
            Some(d) => Some(d.uts),
            None => None,
        },
        url: t.url,
        mbid: t.mbid,
    }
}

/// The canonical record of a loved track.
pub open spec fn canonical_loved(t: LovedTrackView) -> CanonicalRecordView {
    CanonicalRecordView {
        name: t.name,
        artist: t.artist.name,
        album: None,
        images: t.image,
        now_playing: None,
        timestamp: Some(t.date.uts),
        url: t.url,
        mbid: t.mbid,
    }
}

/// The canonical record of a top track. A ranking says nothing of time.
pub open spec fn canonical_top(t: TopTrackView) -> CanonicalRecordView {
    CanonicalRecordView {
        name: t.name,
        artist: t.artist.name,
        album: None,
        images: t.image,
        now_playing: None,
        timestamp: None,
        url: t.url,
        mbid: t.mbid,
    }
}

/// What normalizing a recent play as it arrives gives.
pub open spec fn normalized_recent(w: ApiRecentTrackView) -> Result<
    CanonicalRecordView,
    LastFmErrorView,
> {
    match recent_track_of(w) {
        Ok(t) => Ok(canonical_recent(t)),
        Err(e) => Err(e),
    }
}

/// What normalizing a loved track as it arrives gives.
pub open spec fn normalized_loved(w: ApiLovedTrackView) -> Result<
    CanonicalRecordView,
    LastFmErrorView,
> {
    match loved_track_of(w) {
        Ok(t) => Ok(canonical_loved(t)),
        Err(e) => Err(e),
    }
}

/// What normalizing a top track as it arrives gives.
pub open spec fn normalized_top(w: ApiTopTrackView) -> Result<CanonicalRecordView, LastFmErrorView> {
    match top_track_of(w) {
        Ok(t) => Ok(canonical_top(t)),
        Err(e) => Err(e),
    }
}

/// The address of the best picture among `images`.
pub fn best_image(images: &Vec<TrackImage>) -> (best: Option<String>)
    ensures
        match best {
            Some(address) => best_image_of(images@.map_values(|x: TrackImage| x@)) == Some(
                address@,
            ),
            None => best_image_of(images@.map_values(|x: TrackImage| x@)).is_none(),
        },
{
    let extra = position_tagged(images, "extralarge");
    if extra < images.len() {
        return Some(images[extra].text.clone());
    }
    let large = position_tagged(images, "large");
    if large < images.len() {
        return Some(images[large].text.clone());
    }
    if images.len() > 0 {
        Some(images[0].text.clone())
    } else {
        None
    }
}

/// The position of the first picture with the size tag `tag`, or the number
/// of pictures where there is none.
fn position_tagged(images: &Vec<TrackImage>, tag: &str) -> (i: usize)
    ensures
        i == first_index(size_tags(images@.map_values(|x: TrackImage| x@)), tag@),
        i <= images.len(),
{
    let ghost tags = size_tags(images@.map_values(|x: TrackImage| x@));
    let mut i: usize = 0;
    while i < images.len()
        invariant
            i <= images.len(),
            tags == size_tags(images@.map_values(|x: TrackImage| x@)),
            forall|j: int| 0 <= j < i ==> #[trigger] tags[j] != tag@,
        decreases images.len() - i,
    {
        assert(tags[i as int] == images[i as int].size@);
        if str_eq(images[i].size.as_str(), tag) {
            proof {
                lemma_first_index_is(tags, tag@, i as int);
            }
            return i;
        }
        i = i + 1;
    }
    proof {
        lemma_first_index_is(tags, tag@, i as int);
    }
    i
}

impl CanonicalRecord {
    /// Whether the record says when it happened, or is playing now. This
    /// holds of every record of a loved track, and of the record of a
    /// recent play that came with a date or is playing now.
    pub open spec fn dated(v: CanonicalRecordView) -> bool {
        v.timestamp.is_some() || v.now_playing == Some(true)
    }

    /// The canonical record of a recent play.
    pub fn from_recent(track: RecentTrack) -> (r: CanonicalRecord)
        ensures
            r@ == canonical_recent(track@),
            Self::dated(r@) <==> track@.date.is_some() || plays_now(track@.attr),
    {
        proof {
            reveal_strlit("true");
            assert("true"@ =~= seq!['t', 'r', 'u', 'e']);
        }
        let playing = match &track.attr {
            Some(a) => str_eq(a.nowplaying.as_str(), "true"),
            None => false,
        };
        let timestamp = match &track.date {
            Some(d) => Some(d.uts),
            None => None,
        };
        CanonicalRecord {
            name: track.name,
            artist: track.artist.text,
            album: Some(track.album.text),
            images: track.image,
            now_playing: if playing {
                Some(true)
            } else {
                None
            },
            timestamp,
            url: track.url,
            mbid: track.mbid,
        }
    }

    /// The canonical record of a loved track.
    pub fn from_loved(track: LovedTrack) -> (r: CanonicalRecord)
        ensures
            r@ == canonical_loved(track@),
            Self::dated(r@),
    {
        CanonicalRecord {
            name: track.name,
            artist: track.artist.name,
            album: None,
            images: track.image,
            now_playing: None,
            timestamp: Some(track.date.uts),
            url: track.url,
            mbid: track.mbid,
        }
    }

    /// The canonical record of a top track.
    pub fn from_top(track: TopTrack) -> (r: CanonicalRecord)
        ensures
            r@ == canonical_top(track@),
    {
        CanonicalRecord {
            name: track.name,
            artist: track.artist.name,
            album: None,
            images: track.image,
            now_playing: None,
            timestamp: None,
            url: track.url,
            mbid: track.mbid,
        }
    }
}

impl Timestamped for CanonicalRecord {
    open spec fn timestamp(&self) -> Option<u32> {
        self.timestamp
    }

    fn get_timestamp(&self) -> (t: Option<u32>) {
        self.timestamp
    }
}

/// Normalizes a recent play as it arrives.
pub fn normalize_recent(wire: ApiRecentTrack) -> (r: Result<CanonicalRecord, LastFmError>)
    ensures
        result_view(r) == normalized_recent(wire@),
{
    match RecentTrack::from(wire) {
        Ok(track) => Ok(CanonicalRecord::from_recent(track)),
        Err(e) => Err(e),
    }
}

/// Normalizes a loved track as it arrives.
pub fn normalize_loved(wire: ApiLovedTrack) -> (r: Result<CanonicalRecord, LastFmError>)
    ensures
        result_view(r) == normalized_loved(wire@),
{
    match LovedTrack::from(wire) {
        Ok(track) => Ok(CanonicalRecord::from_loved(track)),
        Err(e) => Err(e),
    }
}

/// Normalizes a top track as it arrives.
pub fn normalize_top(wire: ApiTopTrack) -> (r: Result<CanonicalRecord, LastFmError>)
    ensures
        result_view(r) == normalized_top(wire@),
{
    match TopTrack::from(wire) {
        Ok(track) => Ok(CanonicalRecord::from_top(track)),
        Err(e) => Err(e),
    }
}

/// One item as it arrives, of any of the three kinds of collection.
#[derive(Debug, Clone)]
pub enum WireRecord {
    Recent(ApiRecentTrack),
    Loved(ApiLovedTrack),
    Top(ApiTopTrack),
}

/// The view of [`WireRecord`].
pub enum WireRecordView {
    Recent(ApiRecentTrackView),
    Loved(ApiLovedTrackView),
    Top(ApiTopTrackView),
}

impl View for WireRecord {
    type V = WireRecordView;

    open spec fn view(&self) -> WireRecordView {
        match self {
            WireRecord::Recent(w) => WireRecordView::Recent(w@),
            WireRecord::Loved(w) => WireRecordView::Loved(w@),
            WireRecord::Top(w) => WireRecordView::Top(w@),
        }
    }
}

/// What normalizing an item as it arrives gives.
pub open spec fn normalized(w: WireRecordView) -> Result<CanonicalRecordView, LastFmErrorView> {
    match w {
        WireRecordView::Recent(w) => normalized_recent(w),
        WireRecordView::Loved(w) => normalized_loved(w),
        WireRecordView::Top(w) => normalized_top(w),
    }
}

/// What normalizing each of `items` in order gives: the records, or the
/// error of the first item that has one.
pub open spec fn normalized_all(items: Seq<WireRecordView>) -> Result<
    Seq<CanonicalRecordView>,
    LastFmErrorView,
>
    decreases items.len(),
{
    if items.len() == 0 {
        Ok(Seq::empty())
    } else {
        match normalized_all(items.drop_last()) {
            Err(e) => Err(e),
            Ok(records) => match normalized(items.last()) {
                Err(e) => Err(e),
                Ok(record) => Ok(records.push(record)),
            },
        }
    }
}

/// Normalizes an item as it arrives.
pub fn normalize(wire: WireRecord) -> (r: Result<CanonicalRecord, LastFmError>)
    ensures
        result_view(r) == normalized(wire@),
{
    match wire {
        WireRecord::Recent(w) => normalize_recent(w),
        WireRecord::Loved(w) => normalize_loved(w),
        WireRecord::Top(w) => normalize_top(w),
    }
}

/// Normalizing is a function of the item alone: two items that hold the
/// same give the same, be it a record or an error, every time.
pub proof fn lemma_normalize_twice(
    wire: WireRecord,
    copy: WireRecord,
    first: Result<CanonicalRecord, LastFmError>,
    second: Result<CanonicalRecord, LastFmError>,
)
    requires
        copy@ == wire@,
        result_view(first) == normalized(wire@),
        result_view(second) == normalized(copy@),
    ensures
        result_view(first) == result_view(second),
        first.is_ok() == second.is_ok(),
{
}

/// Every record of a loved track says when it happened; the record of a
/// recent play does so, or is playing now, exactly where the play came with
/// a date or with the mark of the track that is playing now.
pub proof fn lemma_normalized_dated(wire: WireRecordView)
    ensures
        normalized(wire) matches Ok(record) ==> {
            &&& wire is Loved ==> CanonicalRecord::dated(record)
            &&& wire matches WireRecordView::Recent(w) ==> (CanonicalRecord::dated(record) <==> (
            w.date.is_some() || plays_now(w.attr)))
        },
{
}

} // verus!
