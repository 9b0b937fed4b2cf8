//! The handler: what to ask the remote service for, with which parameters,
//! and what to make of the records that come back.

use crate::analytics::{
    count_names, count_of, counted_names, distinct_names, lemma_occurring_is_distinct,
    occurrences, tallied,
};
use crate::error::{LastFmError, LastFmErrorView};
use crate::executor::{at_most, records_result, records_view, FetchRun, PageResponse};
use crate::normalizer::{best_image, best_image_of, CanonicalRecord, CanonicalRecordView};
use crate::planner::{
    batched, plan, planned_pages, PageRequest, TrackLimit, API_MAX_LIMIT, BATCH_WIDTH,
};
use crate::text::{
    decimal_digits, first_index, i64_to_string, lemma_first_index_is, signed_digits, str_eq,
    u32_to_string,
};
use crate::types::{plain_result, u32_of_text};
use crate::url_builder::{built, with_entries, with_entry, Pair, QueryParams, Url};
use vstd::prelude::*;

verus! {

/// The address of the remote service.
pub const BASE_URL: &'static str = "https://ws.audioscrobbler.com/2.0/";

/// The time range of a ranking.
#[derive(Debug, Clone, Copy)]
pub enum Period {
    Overall,
    Week,
    Month,
    ThreeMonth,
    SixMonth,
    TwelveMonth,
}

impl Period {
    /// The text that stands for the time range in a request.
    pub open spec fn api_text(self) -> Seq<char> {
        match self {
            Period::Overall => "overall"@,
            Period::Week => "7day"@,
            Period::Month => "1month"@,
            Period::ThreeMonth => "3month"@,
            Period::SixMonth => "6month"@,
            Period::TwelveMonth => "12month"@,
        }
    }

    /// The text that stands for the time range in a request.
    pub fn as_api_str(self) -> (s: &'static str)
        ensures
            s@ == self.api_text(),
    {
        match self {
            Period::Overall => "overall",
            Period::Week => "7day",
            Period::Month => "1month",
            Period::ThreeMonth => "3month",
            Period::SixMonth => "6month",
            Period::TwelveMonth => "12month",
        }
    }
}

/// The three kinds of collection that the remote service offers.
#[derive(Debug, Clone, Copy, PartialEq, Eq, Structural)]
pub enum ResourceKind {
    RecentPlays,
    LovedTracks,
    TopTracks,
}

impl ResourceKind {
    /// The name of the method that returns the collection.
    pub open spec fn method_name(self) -> Seq<char> {
        match self {
            ResourceKind::RecentPlays => "user.getrecenttracks"@,
            ResourceKind::LovedTracks => "user.getlovedtracks"@,
            ResourceKind::TopTracks => "user.gettoptracks"@,
        }
    }

    /// The name of the method that returns the collection.
    pub fn method(self) -> (s: &'static str)
        ensures
            s@ == self.method_name(),
    {
        match self {
            ResourceKind::RecentPlays => "user.getrecenttracks",
            ResourceKind::LovedTracks => "user.getlovedtracks",
            ResourceKind::TopTracks => "user.gettoptracks",
        }
    }
}

/// Whether a record says that it happened after `since`.
pub open spec fn is_newer(record: CanonicalRecordView, since: i64) -> bool {
    record.timestamp matches Some(t) && t > since
}

/// Those of `records` that happened after `since`, in their order.
pub open spec fn newer(records: Seq<CanonicalRecordView>, since: i64) -> Seq<CanonicalRecordView>
    decreases records.len(),
{
    if records.len() == 0 {
        Seq::empty()
    } else if is_newer(records.last(), since) {
        newer(records.drop_last(), since).push(records.last())
    } else {
        newer(records.drop_last(), since)
    }
}

/// Keeps the records that happened after `since`, in their order. A record
/// that does not say when it happened is dropped.
pub fn newer_than(records: Vec<CanonicalRecord>, since: i64) -> (kept: Vec<CanonicalRecord>)
    ensures
        records_view(kept@) == newer(records_view(records@), since),
{
    let ghost all = records_view(records@);
    let mut kept: Vec<CanonicalRecord> = Vec::new();
    assert(all.take(0) =~= Seq::<CanonicalRecordView>::empty());
    assert(records_view(kept@) =~= Seq::<CanonicalRecordView>::empty());
    for record in it: records
        invariant
            it.seq() == records@,
            all == records_view(records@),
            records_view(kept@) == newer(all.take(it.index() as int), since),
    {
        let ghost k = it.index() as int;
        assert(all.take(k + 1).drop_last() =~= all.take(k));
        assert(all.take(k + 1).last() == record@);
        let is_new = match record.timestamp {
            Some(t) => t as i64 > since,
            None => false,
        };
        if is_new {
            let ghost before = records_view(kept@);
            kept.push(record);
            assert(records_view(kept@) =~= before.push(record@));
        }
    }
    assert(all.take(all.len() as int) =~= all);
    kept
}

/// Every record that `newer` keeps happened after `since`, and `newer`
/// keeps no more records than it was given.
pub proof fn lemma_newer(records: Seq<CanonicalRecordView>, since: i64)
    ensures
        newer(records, since).len() <= records.len(),
        forall|i: int|
            0 <= i < newer(records, since).len() ==> is_newer(
                #[trigger] newer(records, since)[i],
                since,
            ),
    decreases records.len(),
{
    if records.len() > 0 {
        lemma_newer(records.drop_last(), since);
    }
}

/// What to fetch: which collection, how many items, with which filters, and
/// whether only what happened after some time is wanted.
#[derive(Debug)]
pub struct FetchJob {
    /// The kind of collection.
    pub kind: ResourceKind,
    /// How many items are wanted.
    pub limit: TrackLimit,
    /// The filters that go with every request.
    pub filters: QueryParams,
    /// Where set, only records that happened after this time are handed out.
    pub since: Option<i64>,
}

/// The parameters of the probe: the filters, with page size 1 and page 1.
pub open spec fn probe_entries(filters: Seq<Pair>) -> Seq<Pair> {
    with_entry(with_entry(filters, "limit"@, "1"@), "page"@, "1"@)
}

/// The parameters of a page request: the filters, with the page size and
/// the page number of the request.
pub open spec fn page_entries(filters: Seq<Pair>, request: PageRequest) -> Seq<Pair> {
    with_entry(
        with_entry(filters, "limit"@, decimal_digits(request.limit as nat)),
        "page"@,
        decimal_digits(request.page as nat),
    )
}

impl FetchJob {
    /// The parameters of the request that asks how many items there are: one
    /// item on page 1, with the filters of the job.
    pub fn probe_query(&self) -> (query: QueryParams)
        ensures
            query@ == probe_entries(self.filters@),
    {
        let mut query = self.filters.clone();
        query.insert("limit", "1");
        query.insert("page", "1");
        query
    }

    /// The parameters of one page request, with the filters of the job.
    pub fn page_query(&self, request: &PageRequest) -> (query: QueryParams)
        ensures
            query@ == page_entries(self.filters@, *request),
    {
        let mut query = self.filters.clone();
        query.insert("limit", u32_to_string(request.limit).as_str());
        query.insert("page", u32_to_string(request.page).as_str());
        query
    }

    /// Reads from the reply to the probe how many items are available.
    pub fn probe_total(probe: &PageResponse) -> (r: Result<u32, LastFmError>)
        ensures
            plain_result(r) == u32_of_text(probe@.attr.total),
    {
        probe.total()
    }

    /// Starts the fetch, given the reply to the probe: plans the pages for
    /// the items wanted out of those available, at most [`API_MAX_LIMIT`] on
    /// a page.
    pub fn begin(&self, probe: &PageResponse) -> (r: Result<FetchRun, LastFmError>)
        ensures
            match u32_of_text(probe@.attr.total) {
                Err(e) => r.is_err() && r.unwrap_err()@ == e,
                Ok(total) => {
                    &&& r.is_ok()
                    &&& r.unwrap().limit() == self.limit.effective(total)
                    &&& r.unwrap().batches() == batched(
                        planned_pages(self.limit.effective(total) as nat, API_MAX_LIMIT as nat),
                        BATCH_WIDTH as nat,
                    )
                    &&& r.unwrap().done() == 0
                    &&& r.unwrap().records() == Seq::<CanonicalRecordView>::empty()
                    &&& !r.unwrap().failed()
                },
            },
    {
        match Self::probe_total(probe) {
            Err(e) => Err(e),
            Ok(total) => Ok(FetchRun::new(plan(total, self.limit, API_MAX_LIMIT))),
        }
    }

    /// What the job hands out of the records of a finished fetch: all of
    /// them, or those that happened after the time set.
    pub open spec fn handed_out(&self, records: Seq<CanonicalRecordView>) -> Seq<
        CanonicalRecordView,
    > {
        match self.since {
            Some(t) => newer(records, t),
            None => records,
        }
    }

    /// Ends the fetch and hands out its records.
    pub fn finish(&self, run: FetchRun) -> (r: Result<Vec<CanonicalRecord>, LastFmError>)
        ensures
            records_result(r) == (if run.complete() {
                Ok::<Seq<CanonicalRecordView>, LastFmErrorView>(
                    self.handed_out(at_most(run.records(), run.limit() as nat)),
                )
            } else {
                Err(LastFmErrorView::Other("The fetch is not complete"@))
            }),
    {
        match run.finish() {
            Err(e) => Err(e),
            Ok(records) => match self.since {
                Some(t) => Ok(newer_than(records, t)),
                None => Ok(records),
            },
        }
    }
}

/// The parameters that go with every request: the key, the default page
/// size, the format, and whose collections are asked for.
pub open spec fn base_entries(username: Seq<char>, api_key: Seq<char>) -> Seq<Pair> {
    with_entry(
        with_entry(
            with_entry(
                with_entry(Seq::empty(), "api_key"@, api_key),
                "limit"@,
                decimal_digits(API_MAX_LIMIT as nat),
            ),
            "format"@,
            "json"@,
        ),
        "user"@,
        username,
    )
}

/// The handler for one user of the remote service.
#[derive(Debug)]
pub struct LastFMHandler {
    url: Url,
    base_options: QueryParams,
}

impl LastFMHandler {
    /// The address that requests go to.
    pub closed spec fn base_url(&self) -> Seq<char> {
        self.url.base()
    }

    /// The parameters that go with every request.
    pub closed spec fn base_options(&self) -> Seq<Pair> {
        self.base_options@
    }

    /// The well-formedness of a handler: its address has no parameters of
    /// its own.
    #[verifier::type_invariant]
    spec fn well_formed(&self) -> bool {
        self.url.params() == Seq::<Pair>::empty()
    }

    /// A handler for the collections of `username`. Without a key there is
    /// none: the error names the setting that is missing.
    pub fn new(username: &str, api_key: Option<&str>) -> (r: Result<LastFMHandler, LastFmError>)
        ensures
            match api_key {
                None => r.is_err() && r.unwrap_err()@ == LastFmErrorView::MissingEnvVar(
                    "LAST_FM_API_KEY"@,
                ),
                Some(key) => {
                    &&& r.is_ok()
                    &&& r.unwrap().base_url() == BASE_URL@
                    &&& r.unwrap().base_options() == base_entries(username@, key@)
                },
            },
    {
        let key = match api_key {
            Some(key) => key,
            None => {
                return Err(LastFmError::MissingEnvVar("LAST_FM_API_KEY".to_owned()));
            },
        };
        let mut base_options = QueryParams::new();
        base_options.insert("api_key", key);
        base_options.insert("limit", u32_to_string(API_MAX_LIMIT).as_str());
        base_options.insert("format", "json");
        base_options.insert("user", username);
        let url = Url::new(BASE_URL);
        Ok(LastFMHandler { url, base_options })
    }

    /// The address of one request: the base parameters, then the method,
    /// then the parameters of the call, a later value replacing an earlier
    /// one of the same name.
    pub fn request_url(&self, method: &str, params: &QueryParams) -> (address: String)
        ensures
            address@ == built(
                self.base_url(),
                with_entries(with_entry(self.base_options(), "method"@, method@), params@),
            ),
    {
        proof {
            use_type_invariant(self);
        }
        let mut final_params = self.base_options.clone();
        final_params.insert("method", method);
        final_params.extend(params);
        let url = self.url.clone().add_params(&final_params);
        proof {
            use_type_invariant(&final_params);
            lemma_with_entries_from_empty(final_params@);
        }
        url.build()
    }

    /// The address of the request that asks how many items there are for
    /// `job`.
    pub fn probe_url(&self, job: &FetchJob) -> (address: String)
        ensures
            address@ == built(
                self.base_url(),
                with_entries(
                    with_entry(self.base_options(), "method"@, job.kind.method_name()),
                    probe_entries(job.filters@),
                ),
            ),
    {
        self.request_url(job.kind.method(), &job.probe_query())
    }

    /// The address of one page request of `job`.
    pub fn page_url(&self, job: &FetchJob, request: &PageRequest) -> (address: String)
        ensures
            address@ == built(
                self.base_url(),
                with_entries(
                    with_entry(self.base_options(), "method"@, job.kind.method_name()),
                    page_entries(job.filters@, *request),
                ),
            ),
    {
        self.request_url(job.kind.method(), &job.page_query(request))
    }

    /// The loved tracks of the user.
    pub fn get_user_loved_tracks(&self, limit: TrackLimit) -> (job: FetchJob)
        ensures
            job.kind == ResourceKind::LovedTracks,
            job.limit == limit,
            job.filters@ == Seq::<Pair>::empty(),
            job.since.is_none(),
    {
        FetchJob {
            kind: ResourceKind::LovedTracks,
            limit,
            filters: QueryParams::new(),
            since: None,
        }
    }

    /// The recent plays of the user.
    pub fn get_user_recent_tracks(&self, limit: TrackLimit) -> (job: FetchJob)
        ensures
            job.kind == ResourceKind::RecentPlays,
            job.limit == limit,
            job.filters@ == Seq::<Pair>::empty(),
            job.since.is_none(),
    {
        FetchJob {
            kind: ResourceKind::RecentPlays,
            limit,
            filters: QueryParams::new(),
            since: None,
        }
    }

    /// The top tracks of the user, of the given time range where one is
    /// given.
    pub fn get_user_top_tracks(&self, limit: TrackLimit, period: Option<Period>) -> (job: FetchJob)
        ensures
            job.kind == ResourceKind::TopTracks,
            job.limit == limit,
            job.filters@ == (match period {
                Some(p) => with_entry(Seq::empty(), "period"@, p.api_text()),
                None => Seq::<Pair>::empty(),
            }),
            job.since.is_none(),
    {
        let mut filters = QueryParams::new();
        if let Some(p) = period {
            filters.insert("period", p.as_api_str());
        }
        FetchJob { kind: ResourceKind::TopTracks, limit, filters, since: None }
    }

    /// The recent plays of the user after `timestamp`: the remote service
    /// is asked for the plays from that time on, and of what it returns only
    /// the plays that are strictly later are handed out.
    pub fn get_user_recent_tracks_since(&self, timestamp: i64, limit: TrackLimit) -> (job: FetchJob)
        ensures
            job.kind == ResourceKind::RecentPlays,
            job.limit == limit,
            job.filters@ == with_entry(Seq::empty(), "from"@, signed_digits(timestamp as int)),
            job.since == Some(timestamp),
    {
        let mut filters = QueryParams::new();
        filters.insert("from", i64_to_string(timestamp).as_str());
        FetchJob { kind: ResourceKind::RecentPlays, limit, filters, since: Some(timestamp) }
    }

    /// The loved tracks of the user that were marked after `timestamp`. The
    /// remote service has no filter for them: all are fetched, and filtered
    /// here.
    pub fn get_user_loved_tracks_since(&self, timestamp: u32, limit: TrackLimit) -> (job: FetchJob)
        ensures
            job.kind == ResourceKind::LovedTracks,
            job.limit == limit,
            job.filters@ == Seq::<Pair>::empty(),
            job.since == Some(timestamp as i64),
    {
        FetchJob {
            kind: ResourceKind::LovedTracks,
            limit,
            filters: QueryParams::new(),
            since: Some(timestamp as i64),
        }
    }

    /// The items of a collection that happened after
    /// `previous_max_timestamp`: everything is asked for, from that time on
    /// where the remote service can filter, and only what is newer is
    /// handed out.
    pub fn update(&self, previous_max_timestamp: u32, resource: ResourceKind) -> (job: FetchJob)
        ensures
            job.kind == resource,
            job.limit == TrackLimit::Unlimited,
            job.filters@ == (if resource == ResourceKind::RecentPlays {
                with_entry(Seq::empty(), "from"@, decimal_digits(previous_max_timestamp as nat))
            } else {
                Seq::<Pair>::empty()
            }),
            job.since == Some(previous_max_timestamp as i64),
    {
        let mut filters = QueryParams::new();
        if resource == ResourceKind::RecentPlays {
            filters.insert("from", u32_to_string(previous_max_timestamp).as_str());
        }
        FetchJob {
            kind: resource,
            limit: TrackLimit::Unlimited,
            filters,
            since: Some(previous_max_timestamp as i64),
        }
    }

    /// The request that asks for the track that is playing now: the latest
    /// of the recent plays.
    pub fn is_currently_playing(&self) -> (job: FetchJob)
        ensures
            job.kind == ResourceKind::RecentPlays,
            job.limit == TrackLimit::Limited(1),
            job.filters@ == with_entry(Seq::empty(), "limit"@, "1"@),
            job.since.is_none(),
    {
        let mut filters = QueryParams::new();
        filters.insert("limit", "1");
        FetchJob {
            kind: ResourceKind::RecentPlays,
            limit: TrackLimit::Limited(1),
            filters,
            since: None,
        }
    }
}

/// Setting entries with distinct names on nothing gives those entries.
pub proof fn lemma_with_entries_from_empty(entries: Seq<Pair>)
    requires
        crate::url_builder::distinct_keys(entries),
    ensures
        with_entries(Seq::empty(), entries) == entries,
    decreases entries.len(),
{
    if entries.len() > 0 {
        let rest = entries.drop_last();
        lemma_with_entries_from_empty(rest);
        crate::url_builder::lemma_key_index_is(rest, entries.last().0, rest.len() as int);
        assert(rest.push(entries.last()) =~= entries);
    }
}

/// How often a track was played, with what is known of the track.
#[derive(Debug)]
pub struct TrackPlayInfo {
    /// The name of the track.
    pub name: String,
    /// How often the track occurs among the plays counted.
    pub play_count: u32,
    /// The name of the artist.
    pub artist: String,
    /// The name of the album.
    pub album: Option<String>,
    /// The address of the best picture.
    pub image_url: Option<String>,
    /// Whether the track is playing now.
    pub currently_playing: bool,
    /// When the track was played, in seconds since 1970.
    pub date: Option<u32>,
    /// The address of the track.
    pub url: String,
}

/// The view of [`TrackPlayInfo`].
pub struct TrackPlayInfoView {
    pub name: Seq<char>,
    pub play_count: u32,
    pub artist: Seq<char>,
    pub album: Option<Seq<char>>,
    pub image_url: Option<Seq<char>>,
    pub currently_playing: bool,
    pub date: Option<u32>,
    pub url: Seq<char>,
}

impl View for TrackPlayInfo {
    type V = TrackPlayInfoView;

    open spec fn view(&self) -> TrackPlayInfoView {
        TrackPlayInfoView {
            name: self.name@,
            play_count: self.play_count,
            artist: self.artist@,
            album: match self.album {
                Some(x) => Some(x@),
                None => None,
            },
            image_url: match self.image_url {
                Some(x) => Some(x@),
                None => None,
            },
            currently_playing: self.currently_playing,
            date: match self.date {
                Some(x) => Some(x),
                None => None,
            },
            url: self.url@,
        }
    }
}

/// The views of the play counts.
pub open spec fn infos_view(infos: Seq<TrackPlayInfo>) -> Seq<TrackPlayInfoView> {
    infos.map_values(|i: TrackPlayInfo| i@)
}

/// The names of the records, in order.
pub open spec fn record_names(records: Seq<CanonicalRecordView>) -> Seq<Seq<char>> {
    records.map_values(|r: CanonicalRecordView| r.name)
}

/// A count as a play count holds it: itself, or the largest number that a
/// play count can hold.
pub open spec fn capped(count: nat) -> u32 {
    if count > u32::MAX {
        u32::MAX
    } else {
        count as u32
    }
}

/// The play count of a track that was played `count` times, with what
/// `record` says of the track.
pub open spec fn play_info(record: CanonicalRecordView, count: nat) -> TrackPlayInfoView {
    TrackPlayInfoView {
        name: record.name,
        play_count: capped(count),
        artist: record.artist,
        album: record.album,
        image_url: best_image_of(record.images),
        currently_playing: record.now_playing == Some(true),
        date: record.timestamp,
        url: record.url,
    }
}

/// For each name among the records, the first record of that name, in the
/// order of the records.
pub open spec fn first_plays(records: Seq<CanonicalRecordView>) -> Seq<CanonicalRecordView>
    decreases records.len(),
{
    if records.len() == 0 {
        Seq::empty()
    } else {
        let before = first_plays(records.drop_last());
        if first_index(record_names(before), records.last().name) < before.len() {
            before
        } else {
            before.push(records.last())
        }
    }
}

/// The play counts of the records: one for each track name, in the order in
/// which the names first occur, with the number of records of that name and
/// what the first of them says of the track.
pub open spec fn play_counted(records: Seq<CanonicalRecordView>) -> Seq<TrackPlayInfoView> {
    play_infos(first_plays(records), record_names(records))
}

/// The play count of each of `firsts`, counted among `names`.
pub open spec fn play_infos(firsts: Seq<CanonicalRecordView>, names: Seq<Seq<char>>) -> Seq<
    TrackPlayInfoView,
> {
    firsts.map_values(|r: CanonicalRecordView| play_info(r, occurrences(names, r.name)))
}

/// The first plays name the tracks as the tally of the names does: each name
/// once, in the order in which the names first occur.
proof fn lemma_first_plays_names(records: Seq<CanonicalRecordView>)
    ensures
        record_names(first_plays(records)) == distinct_names(record_names(records)),
    decreases records.len(),
{
    let names = record_names(records);
    if records.len() > 0 {
        let rest = records.drop_last();
        lemma_first_plays_names(rest);
        assert(names.drop_last() =~= record_names(rest));
        assert(names.last() == records.last().name);
    }
    assert(record_names(first_plays(records)) =~= distinct_names(names));
}

/// The play counts name each track once, in the order in which the names
/// first occur among the records, and count each at least once.
pub proof fn lemma_play_counted(records: Seq<CanonicalRecordView>)
    ensures
        info_names(play_counted(records)) == distinct_names(record_names(records)),
        info_names(play_counted(records)).no_duplicates(),
        forall|i: int|
            0 <= i < play_counted(records).len() ==> (#[trigger] play_counted(records)[i]).play_count
                >= 1,
{
    let names = record_names(records);
    let firsts = first_plays(records);
    lemma_first_plays_names(records);
    crate::analytics::lemma_distinct_names(names);
    assert(info_names(play_counted(records)) =~= record_names(firsts));
    assert forall|i: int| 0 <= i < play_counted(records).len() implies (#[trigger] play_counted(
        records,
    )[i]).play_count >= 1 by {
        assert(record_names(firsts)[i] == firsts[i].name);
        assert(distinct_names(names)[i] == firsts[i].name);
    }
}

/// A name at some position occurs at least once.
proof fn lemma_occurs(names: Seq<Seq<char>>, k: int)
    requires
        0 <= k < names.len(),
    ensures
        occurrences(names, names[k]) > 0,
    decreases names.len(),
{
    if k < names.len() - 1 {
        lemma_occurs(names.drop_last(), k);
    }
}

/// A tally holds, for a name that occurs, the number of times it occurs.
proof fn lemma_tallied_count(names: Seq<Seq<char>>, name: Seq<char>)
    requires
        occurrences(names, name) > 0,
        names.len() <= usize::MAX,
    ensures
        count_of(tallied(names), name) == Some(occurrences(names, name) as usize),
{
    lemma_occurring_is_distinct(names, name);
    crate::text::lemma_first_index(distinct_names(names), name);
    assert(counted_names(tallied(names)) =~= distinct_names(names));
}

/// Counts the plays of each track among `tracks`, by the name of the track.
pub fn play_counts(tracks: Vec<CanonicalRecord>) -> (infos: Vec<TrackPlayInfo>)
    ensures
        infos_view(infos@) == play_counted(records_view(tracks@)),
{
    let ghost all = records_view(tracks@);
    let ghost all_names = record_names(all);
    let mut names: Vec<String> = Vec::new();
    let mut i: usize = 0;
    while i < tracks.len()
        invariant
            i <= tracks.len(),
            names.len() == i,
            all == records_view(tracks@),
            all_names == record_names(all),
            forall|j: int| 0 <= j < i ==> (#[trigger] names[j])@ == all_names[j],
        decreases tracks.len() - i,
    {
        names.push(tracks[i].name.clone());
        i = i + 1;
    }
    assert(names@.map_values(|n: String| n@) =~= all_names);
    let counts = count_names(&names);
    let mut infos: Vec<TrackPlayInfo> = Vec::new();
    assert(all.take(0) =~= Seq::<CanonicalRecordView>::empty());
    assert(infos_view(infos@) =~= Seq::<TrackPlayInfoView>::empty());
    for track in it: tracks
        invariant
            it.seq() == tracks@,
            all == records_view(tracks@),
            all_names == record_names(all),
            all_names.len() <= usize::MAX,
            counts@ == tallied(all_names),
            infos.len() == first_plays(all.take(it.index() as int)).len(),
            infos_view(infos@) == play_infos(first_plays(all.take(it.index() as int)), all_names),
    {
        let ghost k = it.index() as int;
        let ghost before = first_plays(all.take(k));
        let ghost shown = infos_view(infos@);
        assert(all.take(k + 1).drop_last() =~= all.take(k));
        assert(all.take(k + 1).last() == track@);
        let seen = position_named(&infos, track.name.as_str());
        assert(info_names(shown) =~= record_names(before));
        if seen == infos.len() {
            proof {
                assert(all_names[k] == track@.name);
                lemma_occurs(all_names, k);
                lemma_tallied_count(all_names, track@.name);
                crate::analytics::lemma_occurrences_bound(all_names, track@.name);
            }
            let count = match counts.get(track.name.as_str()) {
                Some(c) => c,
                None => 0,
            };
            let play_count: u32 = if count > u32::MAX as usize {
                u32::MAX
            } else {
                count as u32
            };
            let image_url = best_image(&track.images);
            assert(track@.images =~= track.images@.map_values(|x: crate::types::TrackImage| x@));
            let info = TrackPlayInfo {
                name: track.name,
                play_count,
                artist: track.artist,
                album: track.album,
                image_url,
                currently_playing: match track.now_playing {
                    Some(b) => b,
                    None => false,
                },
                date: track.timestamp,
                url: track.url,
            };
            assert(info@ == play_info(track@, occurrences(all_names, track@.name)));
            infos.push(info);
            proof {
                let after = first_plays(all.take(k + 1));
                assert(after == before.push(track@));
                assert(infos_view(infos@) =~= shown.push(info@));
                assert(play_infos(after, all_names) =~= play_infos(before, all_names).push(
                    play_info(track@, occurrences(all_names, track@.name)),
                ));
            }
        }
    }
    assert(all.take(all.len() as int) =~= all);
    infos
}

/// The names of the play counts, in order.
pub open spec fn info_names(infos: Seq<TrackPlayInfoView>) -> Seq<Seq<char>> {
    infos.map_values(|i: TrackPlayInfoView| i.name)
}

/// The position of the first play count of the track `name`, or the number
/// of play counts where there is none.
fn position_named(infos: &Vec<TrackPlayInfo>, name: &str) -> (i: usize)
    ensures
        i == first_index(info_names(infos_view(infos@)), name@),
        i <= infos.len(),
{
    let ghost names = info_names(infos_view(infos@));
    let mut i: usize = 0;
    while i < infos.len()
        invariant
            i <= infos.len(),
            names == info_names(infos_view(infos@)),
            forall|j: int| 0 <= j < i ==> #[trigger] names[j] != name@,
        decreases infos.len() - i,
    {
        assert(names[i as int] == infos[i as int].name@);
        if str_eq(infos[i].name.as_str(), name) {
            proof {
                lemma_first_index_is(names, name@, i as int);
            }
            return i;
        }
        i = i + 1;
    }
    proof {
        lemma_first_index_is(names, name@, i as int);
    }
    i
}

/// The track that is playing now, given the latest of the recent plays: the
/// first record, where there is one and it is marked as playing now.
pub fn playing_now(records: Vec<CanonicalRecord>) -> (track: Option<CanonicalRecord>)
    ensures
        match track {
            Some(t) => records@.len() > 0 && t@ == records@[0]@ && t@.now_playing == Some(true),
            None => records@.len() == 0 || records@[0]@.now_playing != Some(true),
        },
{
    let ghost all = records@;
    for record in it: records
        invariant
            it.seq() == all,
            it.index() == 0,
    {
        return match record.now_playing {
            Some(true) => Some(record),
            _ => None,
        };
    }
    None
}

} // verus!
