//! The records of the remote service: as they arrive, with numbers and
//! truth values still written as text, and as they are kept, with those
//! fields converted.

use crate::error::{LastFmError, LastFmErrorView};
use crate::text::{concat2, parse_u32, parsed_u32, str_eq};
use std::collections::HashMap;
use vstd::prelude::*;

verus! {

/// The paging options of one call.
#[derive(Debug, Clone)]
pub struct BaseOptions {
    /// The page size.
    pub limit: u16,
    /// The page number, counted from 1.
    pub page: u16,
}

/// The view of [`BaseOptions`].
pub struct BaseOptionsView {
    pub limit: u16,
    pub page: u16,
}

impl View for BaseOptions {
    type V = BaseOptionsView;

    open spec fn view(&self) -> BaseOptionsView {
        BaseOptionsView {
            limit: self.limit,
            page: self.page,
        }
    }
}

/// The paging attributes of a response as they arrive: every number is
/// written as text.
#[derive(Debug, Clone)]
pub struct ApiBaseResponse {
    /// Whose collection this is.
    pub user: String,
    /// The number of pages, under the name `totalPages`.
    pub total_pages: String,
    /// The number of this page.
    pub page: String,
    /// The page size, under the name `perPage`.
    pub per_page: String,
    /// The number of items in the whole collection.
    pub total: String,
}

/// The view of [`ApiBaseResponse`].
pub struct ApiBaseResponseView {
    pub user: Seq<char>,
    pub total_pages: Seq<char>,
    pub page: Seq<char>,
    pub per_page: Seq<char>,
    pub total: Seq<char>,
}

impl View for ApiBaseResponse {
    type V = ApiBaseResponseView;

    open spec fn view(&self) -> ApiBaseResponseView {
        ApiBaseResponseView {
            user: self.user@,
            total_pages: self.total_pages@,
            page: self.page@,
            per_page: self.per_page@,
            total: self.total@,
        }
    }
}

/// The paging attributes of a response.
#[derive(Debug, Clone)]
pub struct BaseResponse {
    /// Whose collection this is.
    pub user: String,
    /// The number of pages.
    pub total_pages: u32,
    /// The number of this page.
    pub page: u32,
    /// The page size.
    pub per_page: u32,
    /// The number of items in the whole collection.
    pub total: u32,
}

/// The view of [`BaseResponse`].
pub struct BaseResponseView {
    pub user: Seq<char>,
    pub total_pages: u32,
    pub page: u32,
    pub per_page: u32,
    pub total: u32,
}

impl View for BaseResponse {
    type V = BaseResponseView;

    open spec fn view(&self) -> BaseResponseView {
        BaseResponseView {
            user: self.user@,
            total_pages: self.total_pages,
            page: self.page,
            per_page: self.per_page,
            total: self.total,
        }
    }
}

/// An identifier with its display text, as artists and albums come with
/// recent plays.
#[derive(Debug, Clone)]
pub struct BaseMbidText {
    /// The identifier.
    pub mbid: String,
    /// The display text, under the name `#text`.
    pub text: String,
}

/// The view of [`BaseMbidText`].
pub struct BaseMbidTextView {
    pub mbid: Seq<char>,
    pub text: Seq<char>,
}

impl View for BaseMbidText {
    type V = BaseMbidTextView;

    open spec fn view(&self) -> BaseMbidTextView {
        BaseMbidTextView {
            mbid: self.mbid@,
            text: self.text@,
        }
    }
}

/// An identifier with an address and a name.
#[derive(Debug, Clone)]
pub struct BaseObject {
    pub mbid: String,
    pub url: String,
    pub name: String,
}

/// The view of [`BaseObject`].
pub struct BaseObjectView {
    pub mbid: Seq<char>,
    pub url: Seq<char>,
    pub name: Seq<char>,
}

impl View for BaseObject {
    type V = BaseObjectView;

    open spec fn view(&self) -> BaseObjectView {
        BaseObjectView {
            mbid: self.mbid@,
            url: self.url@,
            name: self.name@,
        }
    }
}

/// One variant of a picture.
#[derive(Debug, Clone)]
pub struct TrackImage {
    /// The size tag, such as `large`.
    pub size: String,
    /// The address of the picture, under the name `#text`.
    pub text: String,
}

/// The view of [`TrackImage`].
pub struct TrackImageView {
    pub size: Seq<char>,
    pub text: Seq<char>,
}

impl View for TrackImage {
    type V = TrackImageView;

    open spec fn view(&self) -> TrackImageView {
        TrackImageView {
            size: self.size@,
            text: self.text@,
        }
    }
}

/// Whether a track can be streamed, as loved and top tracks say it.
#[derive(Debug, Clone)]
pub struct Streamable {
    pub fulltrack: String,
    /// Under the name `#text`.
    pub text: String,
}

/// The view of [`Streamable`].
pub struct StreamableView {
    pub fulltrack: Seq<char>,
    pub text: Seq<char>,
}

impl View for Streamable {
    type V = StreamableView;

    open spec fn view(&self) -> StreamableView {
        StreamableView {
            fulltrack: self.fulltrack@,
            text: self.text@,
        }
    }
}

/// An artist with pictures.
#[derive(Debug, Clone)]
pub struct Artist {
    pub name: String,
    pub mbid: String,
    pub url: String,
    image: Vec<TrackImage>,
}

/// The view of [`Artist`].
pub struct ArtistView {
    pub name: Seq<char>,
    pub mbid: Seq<char>,
    pub url: Seq<char>,
    pub image: Seq<TrackImageView>,
}

impl View for Artist {
    type V = ArtistView;

    closed spec fn view(&self) -> ArtistView {
        ArtistView {
            name: self.name@,
            mbid: self.mbid@,
            url: self.url@,
            image: self.image@.map_values(|x: TrackImage| x@),
        }
    }
}

/// The attributes of one item of the recent plays.
#[derive(Debug, Clone)]
pub struct Attributes {
    /// `true` on the item that is playing now.
    pub nowplaying: String,
}

/// The view of [`Attributes`].
pub struct AttributesView {
    pub nowplaying: Seq<char>,
}

impl View for Attributes {
    type V = AttributesView;

    open spec fn view(&self) -> AttributesView {
        AttributesView {
            nowplaying: self.nowplaying@,
        }
    }
}

/// The attributes of one item of the top tracks.
#[derive(Debug, Clone)]
pub struct RankAttr {
    pub rank: String,
}

/// The view of [`RankAttr`].
pub struct RankAttrView {
    pub rank: Seq<char>,
}

impl View for RankAttr {
    type V = RankAttrView;

    open spec fn view(&self) -> RankAttrView {
        RankAttrView {
            rank: self.rank@,
        }
    }
}

/// A point in time as it arrives: the seconds since 1970 are written as
/// text.
#[derive(Debug, Clone)]
pub struct ApiDate {
    /// Seconds since 1970, as decimal text.
    pub uts: String,
    /// The same time for a reader, under the name `#text`.
    pub text: String,
}

/// The view of [`ApiDate`].
pub struct ApiDateView {
    pub uts: Seq<char>,
    pub text: Seq<char>,
}

impl View for ApiDate {
    type V = ApiDateView;

    open spec fn view(&self) -> ApiDateView {
        ApiDateView {
            uts: self.uts@,
            text: self.text@,
        }
    }
}

/// A point in time.
#[derive(Debug, Clone)]
pub struct Date {
    /// Seconds since 1970.
    pub uts: u32,
    /// The same time for a reader.
    pub text: String,
}

/// The view of [`Date`].
pub struct DateView {
    pub uts: u32,
    pub text: Seq<char>,
}

impl View for Date {
    type V = DateView;

    open spec fn view(&self) -> DateView {
        DateView {
            uts: self.uts,
            text: self.text@,
        }
    }
}

/// A recent play as it arrives.
#[derive(Debug, Clone)]
pub struct ApiRecentTrack {
    pub artist: BaseMbidText,
    /// `0` or `1`.
    pub streamable: String,
    pub image: Vec<TrackImage>,
    pub album: BaseMbidText,
    /// Under the name `@attr`.
    pub attr: Option<Attributes>,
    /// When the track was played; absent on the track that is playing now.
    pub date: Option<ApiDate>,
    pub name: String,
    pub mbid: String,
    pub url: String,
}

/// The view of [`ApiRecentTrack`].
pub struct ApiRecentTrackView {
    pub artist: BaseMbidTextView,
    pub streamable: Seq<char>,
    pub image: Seq<TrackImageView>,
    pub album: BaseMbidTextView,
    pub attr: Option<AttributesView>,
    pub date: Option<ApiDateView>,
    pub name: Seq<char>,
    pub mbid: Seq<char>,
    pub url: Seq<char>,
}

impl View for ApiRecentTrack {
    type V = ApiRecentTrackView;

    open spec fn view(&self) -> ApiRecentTrackView {
        ApiRecentTrackView {
            artist: self.artist@,
            streamable: self.streamable@,
            image: self.image@.map_values(|x: TrackImage| x@),
            album: self.album@,
            attr: match self.attr {
                Some(x) => Some(x@),
                None => None,
            },
            date: match self.date {
                Some(x) => Some(x@),
                None => None,
            },
            name: self.name@,
            mbid: self.mbid@,
            url: self.url@,
        }
    }
}

/// A recent play.
#[derive(Debug, Clone)]
pub struct RecentTrack {
    pub artist: BaseMbidText,
    pub streamable: bool,
    pub image: Vec<TrackImage>,
    pub album: BaseMbidText,
    pub attr: Option<Attributes>,
    /// When the track was played; absent on the track that is playing now.
    pub date: Option<Date>,
    pub name: String,
    pub mbid: String,
    pub url: String,
}

/// The view of [`RecentTrack`].
pub struct RecentTrackView {
    pub artist: BaseMbidTextView,
    pub streamable: bool,
    pub image: Seq<TrackImageView>,
    pub album: BaseMbidTextView,
    pub attr: Option<AttributesView>,
    pub date: Option<DateView>,
    pub name: Seq<char>,
    pub mbid: Seq<char>,
    pub url: Seq<char>,
}

impl View for RecentTrack {
    type V = RecentTrackView;

    open spec fn view(&self) -> RecentTrackView {
        RecentTrackView {
            artist: self.artist@,
            streamable: self.streamable,
            image: self.image@.map_values(|x: TrackImage| x@),
            album: self.album@,
            attr: match self.attr {
                Some(x) => Some(x@),
                None => None,
            },
            date: match self.date {
                Some(x) => Some(x@),
                None => None,
            },
            name: self.name@,
            mbid: self.mbid@,
            url: self.url@,
        }
    }
}

/// A recent play as it arrives where the extended form was asked for: the
/// artist and the album come with their addresses, the attributes as a map.
#[derive(Debug)]
pub struct ApiRecentTrackExtended {
    pub artist: BaseObject,
    /// `0` or `1`.
    pub streamable: String,
    pub image: Vec<TrackImage>,
    pub album: BaseObject,
    /// Under the name `@attr`.
    pub attr: Option<HashMap<String, String>>,
    pub date: Option<ApiDate>,
    pub name: String,
    pub mbid: String,
    pub url: String,
}

/// The view of [`ApiRecentTrackExtended`].
pub struct ApiRecentTrackExtendedView {
    pub artist: BaseObjectView,
    pub streamable: Seq<char>,
    pub image: Seq<TrackImageView>,
    pub album: BaseObjectView,
    pub attr: Option<Map<Seq<char>, Seq<char>>>,
    pub date: Option<ApiDateView>,
    pub name: Seq<char>,
    pub mbid: Seq<char>,
    pub url: Seq<char>,
}

impl View for ApiRecentTrackExtended {
    type V = ApiRecentTrackExtendedView;

    open spec fn view(&self) -> ApiRecentTrackExtendedView {
        ApiRecentTrackExtendedView {
            artist: self.artist@,
            streamable: self.streamable@,
            image: self.image@.map_values(|x: TrackImage| x@),
            album: self.album@,
            attr: match self.attr {
                Some(x) => Some(x.deep_view()),
                None => None,
            },
            date: match self.date {
                Some(x) => Some(x@),
                None => None,
            },
            name: self.name@,
            mbid: self.mbid@,
            url: self.url@,
        }
    }
}

/// A recent play in the extended form.
#[derive(Debug)]
pub struct RecentTrackExtended {
    pub artist: BaseObject,
    pub streamable: bool,
    pub image: Vec<TrackImage>,
    pub album: BaseObject,
    pub attr: Option<HashMap<String, String>>,
    pub date: Option<Date>,
    pub name: String,
    pub mbid: String,
    pub url: String,
}

/// The view of [`RecentTrackExtended`].
pub struct RecentTrackExtendedView {
    pub artist: BaseObjectView,
    pub streamable: bool,
    pub image: Seq<TrackImageView>,
    pub album: BaseObjectView,
    pub attr: Option<Map<Seq<char>, Seq<char>>>,
    pub date: Option<DateView>,
    pub name: Seq<char>,
    pub mbid: Seq<char>,
    pub url: Seq<char>,
}

impl View for RecentTrackExtended {
    type V = RecentTrackExtendedView;

    open spec fn view(&self) -> RecentTrackExtendedView {
        RecentTrackExtendedView {
            artist: self.artist@,
            streamable: self.streamable,
            image: self.image@.map_values(|x: TrackImage| x@),
            album: self.album@,
            attr: match self.attr {
                Some(x) => Some(x.deep_view()),
                None => None,
            },
            date: match self.date {
                Some(x) => Some(x@),
                None => None,
            },
            name: self.name@,
            mbid: self.mbid@,
            url: self.url@,
        }
    }
}

/// A loved track as it arrives.
#[derive(Debug, Clone)]
pub struct ApiLovedTrack {
    pub artist: BaseObject,
    /// When the track was marked.
    pub date: ApiDate,
    pub image: Vec<TrackImage>,
    pub streamable: Streamable,
    pub name: String,
    pub mbid: String,
    pub url: String,
}

/// The view of [`ApiLovedTrack`].
pub struct ApiLovedTrackView {
    pub artist: BaseObjectView,
    pub date: ApiDateView,
    pub image: Seq<TrackImageView>,
    pub streamable: StreamableView,
    pub name: Seq<char>,
    pub mbid: Seq<char>,
    pub url: Seq<char>,
}

impl View for ApiLovedTrack {
    type V = ApiLovedTrackView;

    open spec fn view(&self) -> ApiLovedTrackView {
        ApiLovedTrackView {
            artist: self.artist@,
            date: self.date@,
            image: self.image@.map_values(|x: TrackImage| x@),
            streamable: self.streamable@,
            name: self.name@,
            mbid: self.mbid@,
            url: self.url@,
        }
    }
}

/// A loved track.
#[derive(Debug, Clone)]
pub struct LovedTrack {
    pub artist: BaseObject,
    /// When the track was marked.
    pub date: Date,
    pub image: Vec<TrackImage>,
    pub streamable: Streamable,
    pub name: String,
    pub mbid: String,
    pub url: String,
}

/// The view of [`LovedTrack`].
pub struct LovedTrackView {
    pub artist: BaseObjectView,
    pub date: DateView,
    pub image: Seq<TrackImageView>,
    pub streamable: StreamableView,
    pub name: Seq<char>,
    pub mbid: Seq<char>,
    pub url: Seq<char>,
}

impl View for LovedTrack {
    type V = LovedTrackView;

    open spec fn view(&self) -> LovedTrackView {
        LovedTrackView {
            artist: self.artist@,
            date: self.date@,
            image: self.image@.map_values(|x: TrackImage| x@),
            streamable: self.streamable@,
            name: self.name@,
            mbid: self.mbid@,
            url: self.url@,
        }
    }
}

/// A top track as it arrives.
#[derive(Debug, Clone)]
pub struct ApiTopTrack {
    pub streamable: Streamable,
    pub mbid: String,
    pub name: String,
    pub image: Vec<TrackImage>,
    pub artist: BaseObject,
    pub url: String,
    /// Seconds, as decimal text.
    pub duration: String,
    /// Under the name `@attr`.
    pub attr: RankAttr,
    /// How often the track was played, as decimal text.
    pub playcount: String,
}

/// The view of [`ApiTopTrack`].
pub struct ApiTopTrackView {
    pub streamable: StreamableView,
    pub mbid: Seq<char>,
    pub name: Seq<char>,
    pub image: Seq<TrackImageView>,
    pub artist: BaseObjectView,
    pub url: Seq<char>,
    pub duration: Seq<char>,
    pub attr: RankAttrView,
    pub playcount: Seq<char>,
}

impl View for ApiTopTrack {
    type V = ApiTopTrackView;

    open spec fn view(&self) -> ApiTopTrackView {
        ApiTopTrackView {
            streamable: self.streamable@,
            mbid: self.mbid@,
            name: self.name@,
            image: self.image@.map_values(|x: TrackImage| x@),
            artist: self.artist@,
            url: self.url@,
            duration: self.duration@,
            attr: self.attr@,
            playcount: self.playcount@,
        }
    }
}

/// A top track.
#[derive(Debug, Clone)]
pub struct TopTrack {
    pub streamable: Streamable,
    pub mbid: String,
    pub name: String,
    pub image: Vec<TrackImage>,
    pub artist: BaseObject,
    pub url: String,
    /// Seconds.
    pub duration: u32,
    pub attr: RankAttr,
    /// How often the track was played.
    pub playcount: u32,
}

/// The view of [`TopTrack`].
pub struct TopTrackView {
    pub streamable: StreamableView,
    pub mbid: Seq<char>,
    pub name: Seq<char>,
    pub image: Seq<TrackImageView>,
    pub artist: BaseObjectView,
    pub url: Seq<char>,
    pub duration: u32,
    pub attr: RankAttrView,
    pub playcount: u32,
}

impl View for TopTrack {
    type V = TopTrackView;

    open spec fn view(&self) -> TopTrackView {
        TopTrackView {
            streamable: self.streamable@,
            mbid: self.mbid@,
            name: self.name@,
            image: self.image@.map_values(|x: TrackImage| x@),
            artist: self.artist@,
            url: self.url@,
            duration: self.duration,
            attr: self.attr@,
            playcount: self.playcount,
        }
    }
}

/// One page of the recent plays.
#[derive(Debug, Clone)]
pub struct RecentTracks {
    /// The items of the page, in the order of the service.
    pub track: Vec<ApiRecentTrack>,
    /// Under the name `@attr`.
    pub attr: ApiBaseResponse,
}

/// The view of [`RecentTracks`].
pub struct RecentTracksView {
    pub track: Seq<ApiRecentTrackView>,
    pub attr: ApiBaseResponseView,
}

impl View for RecentTracks {
    type V = RecentTracksView;

    open spec fn view(&self) -> RecentTracksView {
        RecentTracksView {
            track: self.track@.map_values(|x: ApiRecentTrack| x@),
            attr: self.attr@,
        }
    }
}

/// The body of a response with recent plays.
#[derive(Debug, Clone)]
pub struct UserRecentTracks {
    pub recenttracks: RecentTracks,
}

/// The view of [`UserRecentTracks`].
pub struct UserRecentTracksView {
    pub recenttracks: RecentTracksView,
}

impl View for UserRecentTracks {
    type V = UserRecentTracksView;

    open spec fn view(&self) -> UserRecentTracksView {
        UserRecentTracksView {
            recenttracks: self.recenttracks@,
        }
    }
}

/// One page of the loved tracks.
#[derive(Debug, Clone)]
pub struct LovedTracks {
    /// The items of the page, in the order of the service.
    pub track: Vec<ApiLovedTrack>,
    /// Under the name `@attr`.
    pub attr: ApiBaseResponse,
}

/// The view of [`LovedTracks`].
pub struct LovedTracksView {
    pub track: Seq<ApiLovedTrackView>,
    pub attr: ApiBaseResponseView,
}

impl View for LovedTracks {
    type V = LovedTracksView;

    open spec fn view(&self) -> LovedTracksView {
        LovedTracksView {
            track: self.track@.map_values(|x: ApiLovedTrack| x@),
            attr: self.attr@,
        }
    }
}

/// The body of a response with loved tracks.
#[derive(Debug, Clone)]
pub struct UserLovedTracks {
    pub lovedtracks: LovedTracks,
}

/// The view of [`UserLovedTracks`].
pub struct UserLovedTracksView {
    pub lovedtracks: LovedTracksView,
}

impl View for UserLovedTracks {
    type V = UserLovedTracksView;

    open spec fn view(&self) -> UserLovedTracksView {
        UserLovedTracksView {
            lovedtracks: self.lovedtracks@,
        }
    }
}

/// One page of the top tracks.
#[derive(Debug, Clone)]
pub struct TopTracks {
    /// The items of the page, in the order of the service.
    pub track: Vec<ApiTopTrack>,
    /// Under the name `@attr`.
    pub attr: ApiBaseResponse,
}

/// The view of [`TopTracks`].
pub struct TopTracksView {
    pub track: Seq<ApiTopTrackView>,
    pub attr: ApiBaseResponseView,
}

impl View for TopTracks {
    type V = TopTracksView;

    open spec fn view(&self) -> TopTracksView {
        TopTracksView {
            track: self.track@.map_values(|x: ApiTopTrack| x@),
            attr: self.attr@,
        }
    }
}

/// The body of a response with top tracks.
#[derive(Debug, Clone)]
pub struct UserTopTracks {
    pub toptracks: TopTracks,
}

/// The view of [`UserTopTracks`].
pub struct UserTopTracksView {
    pub toptracks: TopTracksView,
}

impl View for UserTopTracks {
    type V = UserTopTracksView;

    open spec fn view(&self) -> UserTopTracksView {
        UserTopTracksView {
            toptracks: self.toptracks@,
        }
    }
}

/// A result as the contracts see it: the value and the error by their views.
pub open spec fn result_view<T: View>(r: Result<T, LastFmError>) -> Result<T::V, LastFmErrorView> {
    match r {
        Ok(v) => Ok(v@),
        Err(e) => Err(e@),
    }
}

/// A result of a plain value as the contracts see it: the error by its view.
pub open spec fn plain_result<T>(r: Result<T, LastFmError>) -> Result<T, LastFmErrorView> {
    match r {
        Ok(v) => Ok(v),
        Err(e) => Err(e@),
    }
}

/// The truth value that `text` writes: `1` is true, `0` is false, and
/// nothing else is a truth value. The error names the text that is none.
pub open spec fn bool_of_text(text: Seq<char>) -> Result<bool, LastFmErrorView> {
    if text == seq!['1'] {
        Ok(true)
    } else if text == seq!['0'] {
        Ok(false)
    } else {
        Err(LastFmErrorView::Parse("Invalid boolean value: "@ + text))
    }
}

/// The number that `text` writes in decimal digits. The error names the text
/// that writes none, or one too large for 32 bits.
pub open spec fn u32_of_text(text: Seq<char>) -> Result<u32, LastFmErrorView> {
    match parsed_u32(text) {
        Some(n) => Ok(n),
        None => Err(LastFmErrorView::Parse("Invalid number: "@ + text)),
    }
}

/// Reads a truth value that is written as `0` or `1`.
pub fn bool_from_str(s: &str) -> (r: Result<bool, LastFmError>)
    ensures
        plain_result(r) == bool_of_text(s@),
{
    proof {
        reveal_strlit("1");
        reveal_strlit("0");
        assert("1"@ =~= seq!['1']);
        assert("0"@ =~= seq!['0']);
    }
    if str_eq(s, "1") {
        Ok(true)
    } else if str_eq(s, "0") {
        Ok(false)
    } else {
        Err(LastFmError::Parse(concat2("Invalid boolean value: ", s)))
    }
}

/// Reads a number that is written in decimal digits.
pub fn u32_from_str(s: &str) -> (r: Result<u32, LastFmError>)
    ensures
        plain_result(r) == u32_of_text(s@),
{
    match parse_u32(s) {
        Some(n) => Ok(n),
        None => Err(LastFmError::Parse(concat2("Invalid number: ", s))),
    }
}

/// The paging attributes that `api` writes; the first field that does not
/// convert, in the order total pages, page, page size, total, gives the
/// error.
pub open spec fn base_response_of(api: ApiBaseResponseView) -> Result<
    BaseResponseView,
    LastFmErrorView,
> {
    match u32_of_text(api.total_pages) {
        Err(e) => Err(e),
        Ok(total_pages) => match u32_of_text(api.page) {
            Err(e) => Err(e),
            Ok(page) => match u32_of_text(api.per_page) {
                Err(e) => Err(e),
                Ok(per_page) => match u32_of_text(api.total) {
                    Err(e) => Err(e),
                    Ok(total) => Ok(
                        BaseResponseView { user: api.user, total_pages, page, per_page, total },
                    ),
                },
            },
        },
    }
}

impl BaseResponse {
    /// Converts the paging attributes of a response.
    pub fn from(api: ApiBaseResponse) -> (r: Result<BaseResponse, LastFmError>)
        ensures
            result_view(r) == base_response_of(api@),
    {
        let total_pages = match u32_from_str(api.total_pages.as_str()) {
            Ok(n) => n,
            Err(e) => { return Err(e); },
        };
        let page = match u32_from_str(api.page.as_str()) {
            Ok(n) => n,
            Err(e) => { return Err(e); },
        };
        let per_page = match u32_from_str(api.per_page.as_str()) {
            Ok(n) => n,
            Err(e) => { return Err(e); },
        };
        let total = match u32_from_str(api.total.as_str()) {
            Ok(n) => n,
            Err(e) => { return Err(e); },
        };
        Ok(BaseResponse { user: api.user, total_pages, page, per_page, total })
    }
}

/// The point in time that `api` writes.
pub open spec fn date_of(api: ApiDateView) -> Result<DateView, LastFmErrorView> {
    match u32_of_text(api.uts) {
        Ok(uts) => Ok(DateView { uts, text: api.text }),
        Err(e) => Err(e),
    }
}

impl Date {
    /// Converts a point in time.
    pub fn from(api_date: ApiDate) -> (r: Result<Date, LastFmError>)
        ensures
            result_view(r) == date_of(api_date@),
    {
        match u32_from_str(api_date.uts.as_str()) {
            Ok(uts) => Ok(Date { uts, text: api_date.text }),
            Err(e) => Err(e),
        }
    }
}

/// The date that an optional `api` writes.
pub open spec fn optional_date_of(api: Option<ApiDateView>) -> Result<
    Option<DateView>,
    LastFmErrorView,
> {
    match api {
        None => Ok(None),
        Some(d) => match date_of(d) {
            Ok(date) => Ok(Some(date)),
            Err(e) => Err(e),
        },
    }
}

/// The recent play that `api` writes; of the fields that do not convert, the
/// streamable mark comes before the date.
pub open spec fn recent_track_of(api: ApiRecentTrackView) -> Result<
    RecentTrackView,
    LastFmErrorView,
> {
    match bool_of_text(api.streamable) {
        Err(e) => Err(e),
        Ok(streamable) => match optional_date_of(api.date) {
            Err(e) => Err(e),
            Ok(date) => Ok(
                RecentTrackView {
                    artist: api.artist,
                    streamable,
                    image: api.image,
                    album: api.album,
                    attr: api.attr,
                    date,
                    name: api.name,
                    mbid: api.mbid,
                    url: api.url,
                },
            ),
        },
    }
}

impl RecentTrack {
    /// Converts a recent play.
    pub fn from(api_track: ApiRecentTrack) -> (r: Result<RecentTrack, LastFmError>)
        ensures
            result_view(r) == recent_track_of(api_track@),
    {
        let streamable = match bool_from_str(api_track.streamable.as_str()) {
            Ok(b) => b,
            Err(e) => { return Err(e); },
        };
        let date = match api_track.date {
            None => None,
            Some(d) => match Date::from(d) {
                Ok(date) => Some(date),
                Err(e) => { return Err(e); },
            },
        };
        Ok(
            RecentTrack {
                artist: api_track.artist,
                streamable,
                image: api_track.image,
                album: api_track.album,
                attr: api_track.attr,
                date,
                name: api_track.name,
                mbid: api_track.mbid,
                url: api_track.url,
            },
        )
    }
}

/// Converting a recent play is a function of the play alone: two plays that
/// hold the same give the same, be it a play or an error, every time.
pub proof fn lemma_recent_track_from_twice(
    wire: ApiRecentTrack,
    copy: ApiRecentTrack,
    first: Result<RecentTrack, LastFmError>,
    second: Result<RecentTrack, LastFmError>,
)
    requires
        copy@ == wire@,
        result_view(first) == recent_track_of(wire@),
        result_view(second) == recent_track_of(copy@),
    ensures
        result_view(first) == result_view(second),
        first.is_ok() == second.is_ok(),
{
}

/// The loved track that `api` writes.
pub open spec fn loved_track_of(api: ApiLovedTrackView) -> Result<LovedTrackView, LastFmErrorView> {
    match date_of(api.date) {
        Err(e) => Err(e),
        Ok(date) => Ok(
            LovedTrackView {
                artist: api.artist,
                date,
                image: api.image,
                streamable: api.streamable,
                name: api.name,
                mbid: api.mbid,
                url: api.url,
            },
        ),
    }
}

impl LovedTrack {
    /// Converts a loved track.
    pub fn from(api_track: ApiLovedTrack) -> (r: Result<LovedTrack, LastFmError>)
        ensures
            result_view(r) == loved_track_of(api_track@),
    {
        match Date::from(api_track.date) {
            Err(e) => Err(e),
            Ok(date) => Ok(
                LovedTrack {
                    artist: api_track.artist,
                    date,
                    image: api_track.image,
                    streamable: api_track.streamable,
                    name: api_track.name,
                    mbid: api_track.mbid,
                    url: api_track.url,
                },
            ),
        }
    }
}

/// The top track that `api` writes; of the fields that do not convert, the
/// duration comes before the play count.
pub open spec fn top_track_of(api: ApiTopTrackView) -> Result<TopTrackView, LastFmErrorView> {
    match u32_of_text(api.duration) {
        Err(e) => Err(e),
        Ok(duration) => match u32_of_text(api.playcount) {
            Err(e) => Err(e),
            Ok(playcount) => Ok(
                TopTrackView {
                    streamable: api.streamable,
                    mbid: api.mbid,
                    name: api.name,
                    image: api.image,
                    artist: api.artist,
                    url: api.url,
                    duration,
                    attr: api.attr,
                    playcount,
                },
            ),
        },
    }
}

impl TopTrack {
    /// Converts a top track.
    pub fn from(api_track: ApiTopTrack) -> (r: Result<TopTrack, LastFmError>)
        ensures
            result_view(r) == top_track_of(api_track@),
    {
        let duration = match u32_from_str(api_track.duration.as_str()) {
            Ok(n) => n,
            Err(e) => { return Err(e); },
        };
        let playcount = match u32_from_str(api_track.playcount.as_str()) {
            Ok(n) => n,
            Err(e) => { return Err(e); },
        };
        Ok(
            TopTrack {
                streamable: api_track.streamable,
                mbid: api_track.mbid,
                name: api_track.name,
                image: api_track.image,
                artist: api_track.artist,
                url: api_track.url,
                duration,
                attr: api_track.attr,
                playcount,
            },
        )
    }
}

/// A record that may say when it happened.
pub trait Timestamped {
    /// When the record happened, in seconds since 1970, if it says so.
    spec fn timestamp(&self) -> Option<u32>;

    /// When the record happened, in seconds since 1970, if it says so.
    fn get_timestamp(&self) -> (t: Option<u32>)
        ensures
            t == self.timestamp(),
    ;
}

impl Timestamped for RecentTrack {
    open spec fn timestamp(&self) -> Option<u32> {
        match self.date {
            Some(d) => Some(d.uts),
            None => None,
        }
    }

    fn get_timestamp(&self) -> (t: Option<u32>) {
        match &self.date {
            Some(d) => Some(d.uts),
            None => None,
        }
    }
}

impl Timestamped for LovedTrack {
    open spec fn timestamp(&self) -> Option<u32> {
        Some(self.date.uts)
    }

    fn get_timestamp(&self) -> (t: Option<u32>) {
        Some(self.date.uts)
    }
}

impl UserRecentTracks {
    /// The number of items in the whole collection, as this page says it.
    pub fn total_tracks(&self) -> (r: Result<u32, LastFmError>)
        ensures
            plain_result(r) == u32_of_text(self@.recenttracks.attr.total),
    {
        u32_from_str(self.recenttracks.attr.total.as_str())
    }

    /// The items of the page.
    pub fn tracks(self) -> (items: Vec<ApiRecentTrack>)
        ensures
            items@.map_values(|x: ApiRecentTrack| x@) == self@.recenttracks.track,
    {
        self.recenttracks.track
    }
}

impl UserLovedTracks {
    /// The number of items in the whole collection, as this page says it.
    pub fn total_tracks(&self) -> (r: Result<u32, LastFmError>)
        ensures
            plain_result(r) == u32_of_text(self@.lovedtracks.attr.total),
    {
        u32_from_str(self.lovedtracks.attr.total.as_str())
    }

    /// The items of the page.
    pub fn tracks(self) -> (items: Vec<ApiLovedTrack>)
        ensures
            items@.map_values(|x: ApiLovedTrack| x@) == self@.lovedtracks.track,
    {
        self.lovedtracks.track
    }
}

impl UserTopTracks {
    /// The number of items in the whole collection, as this page says it.
    pub fn total_tracks(&self) -> (r: Result<u32, LastFmError>)
        ensures
            plain_result(r) == u32_of_text(self@.toptracks.attr.total),
    {
        u32_from_str(self.toptracks.attr.total.as_str())
    }

    /// The items of the page.
    pub fn tracks(self) -> (items: Vec<ApiTopTrack>)
        ensures
            items@.map_values(|x: ApiTopTrack| x@) == self@.toptracks.track,
    {
        self.toptracks.track
    }
}

} // verus!
