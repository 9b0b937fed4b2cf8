//! The fetch executor: takes the replies to the page requests of a plan,
//! batch by batch, and merges them into the records of the result. The
//! requests themselves are sent by the caller; what is decided here is what
//! runs next, when the fetch has failed, and what it returns.

use crate::error::{LastFmError, LastFmErrorView};
use crate::normalizer::{
    normalize, normalized, normalized_all, CanonicalRecord, CanonicalRecordView, WireRecord,
    WireRecordView,
};
use crate::planner::{
    batched, lemma_batched, lemma_planned_total, planned_pages, total_size, FetchPlan,
    PageRequest, TrackLimit, BATCH_WIDTH,
};
use crate::types::{
    base_response_of, plain_result, u32_of_text, ApiBaseResponse, ApiBaseResponseView,
    ApiLovedTrack, ApiLovedTrackView, ApiRecentTrack, ApiRecentTrackView, ApiTopTrack,
    ApiTopTrackView, BaseResponse, UserLovedTracks, UserRecentTracks, UserTopTracks,
};
use vstd::prelude::*;

verus! {

/// One page as it arrives: its items, and the paging attributes that every
/// response carries.
#[derive(Debug, Clone)]
pub struct PageResponse {
    /// The items of the page, in the order of the service.
    pub items: Vec<WireRecord>,
    /// The paging attributes.
    pub attr: ApiBaseResponse,
}

/// The view of [`PageResponse`].
pub struct PageResponseView {
    pub items: Seq<WireRecordView>,
    pub attr: ApiBaseResponseView,
}

impl View for PageResponse {
    type V = PageResponseView;

    open spec fn view(&self) -> PageResponseView {
        PageResponseView {
            items: self.items@.map_values(|x: WireRecord| x@),
            attr: self.attr@,
        }
    }
}

/// The views of the records.
pub open spec fn records_view(records: Seq<CanonicalRecord>) -> Seq<CanonicalRecordView> {
    records.map_values(|r: CanonicalRecord| r@)
}

/// A result of records as the contracts see it.
pub open spec fn records_result(r: Result<Vec<CanonicalRecord>, LastFmError>) -> Result<
    Seq<CanonicalRecordView>,
    LastFmErrorView,
> {
    match r {
        Ok(records) => Ok(records_view(records@)),
        Err(e) => Err(e@),
    }
}

/// The first `n` of `s`, or all of `s` where it has fewer.
pub open spec fn at_most<T>(s: Seq<T>, n: nat) -> Seq<T> {
    if n < s.len() {
        s.take(n as int)
    } else {
        s
    }
}

/// The records of one page that was asked for with page size `size`: the
/// paging attributes must convert, and then no more than `size` items are
/// taken and normalized, in order.
pub open spec fn page_records(page: PageResponseView, size: nat) -> Result<
    Seq<CanonicalRecordView>,
    LastFmErrorView,
> {
    match base_response_of(page.attr) {
        Err(e) => Err(e),
        Ok(_) => normalized_all(at_most(page.items, size)),
    }
}

/// Where all items normalize, there are as many records as items.
pub proof fn lemma_normalized_all_len(items: Seq<WireRecordView>)
    ensures
        normalized_all(items) matches Ok(records) ==> records.len() == items.len(),
    decreases items.len(),
{
    if items.len() > 0 {
        lemma_normalized_all_len(items.drop_last());
    }
}

impl PageResponse {
    /// The page that a body of recent plays holds.
    pub fn from_recent(body: UserRecentTracks) -> (page: PageResponse)
        ensures
            page@.attr == body@.recenttracks.attr,
            page@.items == body@.recenttracks.track.map_values(
                |w: ApiRecentTrackView| WireRecordView::Recent(w),
            ),
    {
        let ghost wire = body@.recenttracks.track;
        let attr = body.recenttracks.attr;
        let tracks = body.recenttracks.track;
        let mut items: Vec<WireRecord> = Vec::new();
        for track in it: tracks
            invariant
                it.seq().map_values(|x: ApiRecentTrack| x@) == wire,
                items.len() == it.index(),
                forall|j: int|
                    0 <= j < it.index() ==> (#[trigger] items[j])@ == WireRecordView::Recent(
                        wire[j],
                    ),
        {
            assert(wire[it.index() as int] == track@);
            items.push(WireRecord::Recent(track));
        }
        let page = PageResponse { items, attr };
        assert(page@.items =~= wire.map_values(|w: ApiRecentTrackView| WireRecordView::Recent(w)));
        page
    }

    /// The page that a body of loved tracks holds.
    pub fn from_loved(body: UserLovedTracks) -> (page: PageResponse)
        ensures
            page@.attr == body@.lovedtracks.attr,
            page@.items == body@.lovedtracks.track.map_values(
                |w: ApiLovedTrackView| WireRecordView::Loved(w),
            ),
    {
        let ghost wire = body@.lovedtracks.track;
        let attr = body.lovedtracks.attr;
        let tracks = body.lovedtracks.track;
        let mut items: Vec<WireRecord> = Vec::new();
        for track in it: tracks
            invariant
                it.seq().map_values(|x: ApiLovedTrack| x@) == wire,
                items.len() == it.index(),
                forall|j: int|
                    0 <= j < it.index() ==> (#[trigger] items[j])@ == WireRecordView::Loved(wire[j]),
        {
            assert(wire[it.index() as int] == track@);
            items.push(WireRecord::Loved(track));
        }
        let page = PageResponse { items, attr };
        assert(page@.items =~= wire.map_values(|w: ApiLovedTrackView| WireRecordView::Loved(w)));
        page
    }

    /// The page that a body of top tracks holds.
    pub fn from_top(body: UserTopTracks) -> (page: PageResponse)
        ensures
            page@.attr == body@.toptracks.attr,
            page@.items == body@.toptracks.track.map_values(
                |w: ApiTopTrackView| WireRecordView::Top(w),
            ),
    {
        let ghost wire = body@.toptracks.track;
        let attr = body.toptracks.attr;
        let tracks = body.toptracks.track;
        let mut items: Vec<WireRecord> = Vec::new();
        for track in it: tracks
            invariant
                it.seq().map_values(|x: ApiTopTrack| x@) == wire,
                items.len() == it.index(),
                forall|j: int|
                    0 <= j < it.index() ==> (#[trigger] items[j])@ == WireRecordView::Top(wire[j]),
        {
            assert(wire[it.index() as int] == track@);
            items.push(WireRecord::Top(track));
        }
        let page = PageResponse { items, attr };
        assert(page@.items =~= wire.map_values(|w: ApiTopTrackView| WireRecordView::Top(w)));
        page
    }

    /// The number of items in the whole collection, as this page says it.
    pub fn total(&self) -> (r: Result<u32, LastFmError>)
        ensures
            plain_result(r) == u32_of_text(self@.attr.total),
    {
        crate::types::u32_from_str(self.attr.total.as_str())
    }
}

/// Normalizes the items of a page that was asked for with page size
/// `page_size`. A page that holds more items than were asked for is cut to
/// that size first.
pub fn normalize_page(page: PageResponse, page_size: u32) -> (r: Result<
    Vec<CanonicalRecord>,
    LastFmError,
>)
    ensures
        records_result(r) == page_records(page@, page_size as nat),
{
    let ghost items = page@.items;
    match BaseResponse::from(page.attr) {
        Err(e) => { return Err(e); },
        Ok(_) => {},
    }
    let mut records: Vec<CanonicalRecord> = Vec::new();
    let wire = page.items;
    assert(items.take(0) =~= Seq::<WireRecordView>::empty());
    assert(records_view(records@) =~= Seq::<CanonicalRecordView>::empty());
    for item in it: wire
        invariant
            it.seq().map_values(|w: WireRecord| w@) == items,
            it.index() <= page_size,
            records.len() == it.index(),
            normalized_all(items.take(it.index() as int)) == Ok::<
                Seq<CanonicalRecordView>,
                LastFmErrorView,
            >(records_view(records@)),
            base_response_of(page@.attr).is_ok(),
            page@.items == items,
    {
        if records.len() >= page_size as usize {
            assert(at_most(items, page_size as nat) =~= items.take(it.index() as int));
            return Ok(records);
        }
        let ghost k = it.index() as int;
        assert(items[k] == item@);
        assert(items.take(k + 1).drop_last() =~= items.take(k));
        assert(items.take(k + 1).last() == items[k]);
        match normalize(item) {
            Err(e) => {
                proof {
                    lemma_error_stays(items, k + 1, at_most(items, page_size as nat).len() as int);
                    assert(at_most(items, page_size as nat) =~= items.take(
                        at_most(items, page_size as nat).len() as int,
                    ));
                }
                return Err(e);
            },
            Ok(record) => {
                let ghost before = records_view(records@);
                records.push(record);
                assert(records_view(records@) =~= before.push(record@));
            },
        }
    }
    assert(at_most(items, page_size as nat) =~= items.take(items.len() as int));
    Ok(records)
}

/// An error among the first `k` items is the error of any longer prefix.
proof fn lemma_error_stays(items: Seq<WireRecordView>, k: int, n: int)
    requires
        0 <= k <= n <= items.len(),
        normalized_all(items.take(k)).is_err(),
    ensures
        normalized_all(items.take(n)) == normalized_all(items.take(k)),
    decreases n - k,
{
    if k < n {
        lemma_error_stays(items, k, n - 1);
        assert(items.take(n).drop_last() =~= items.take(n - 1));
    }
}

/// The reply to one page request as the contracts see it: the page, or the
/// error with which the request failed.
pub type Reply = Result<PageResponseView, LastFmErrorView>;

/// The views of the replies to the requests of one batch.
pub open spec fn replies_view(replies: Seq<Result<PageResponse, LastFmError>>) -> Seq<Reply> {
    replies.map_values(
        |r: Result<PageResponse, LastFmError>|
            match r {
                Ok(page) => Ok(page@),
                Err(e) => Err(e@),
            },
    )
}

/// The views of the replies to the requests of all batches.
pub open spec fn all_replies_view(replies: Seq<Vec<Result<PageResponse, LastFmError>>>) -> Seq<
    Seq<Reply>,
> {
    replies.map_values(|b: Vec<Result<PageResponse, LastFmError>>| replies_view(b@))
}

/// What the reply to one request gives: its error, or the records of its
/// page.
pub open spec fn reply_records(request: PageRequest, reply: Reply) -> Result<
    Seq<CanonicalRecordView>,
    LastFmErrorView,
> {
    match reply {
        Err(e) => Err(e),
        Ok(page) => page_records(page, request.limit as nat),
    }
}

/// What the first `n` replies of a batch give: the records of their pages in
/// page order, or the error of the first reply that has one.
pub open spec fn records_upto(requests: Seq<PageRequest>, replies: Seq<Reply>, n: int) -> Result<
    Seq<CanonicalRecordView>,
    LastFmErrorView,
>
    decreases n,
{
    if n <= 0 {
        Ok(Seq::empty())
    } else {
        match records_upto(requests, replies, n - 1) {
            Err(e) => Err(e),
            Ok(records) => match reply_records(requests[n - 1], replies[n - 1]) {
                Err(e) => Err(e),
                Ok(page) => Ok(records + page),
            },
        }
    }
}

/// What the replies to a batch give. There must be one reply for each
/// request.
pub open spec fn batch_records(requests: Seq<PageRequest>, replies: Seq<Reply>) -> Result<
    Seq<CanonicalRecordView>,
    LastFmErrorView,
> {
    if requests.len() != replies.len() {
        Err(LastFmErrorView::Other("The replies do not match the batch"@))
    } else {
        records_upto(requests, replies, replies.len() as int)
    }
}

/// What the replies to the first `k` batches give: the records of all their
/// pages in page order, or the error of the first batch that has one. A
/// batch without replies has not run.
pub open spec fn merged_upto(batches: Seq<Seq<PageRequest>>, replies: Seq<Seq<Reply>>, k: int)
    -> Result<Seq<CanonicalRecordView>, LastFmErrorView>
    decreases k,
{
    if k <= 0 {
        Ok(Seq::empty())
    } else {
        match merged_upto(batches, replies, k - 1) {
            Err(e) => Err(e),
            Ok(records) => if k - 1 >= replies.len() {
                Err(LastFmErrorView::Other("The fetch is not complete"@))
            } else {
                match batch_records(batches[k - 1], replies[k - 1]) {
                    Err(e) => Err(e),
                    Ok(batch) => Ok(records + batch),
                }
            },
        }
    }
}

/// What a fetch returns: the records of all pages in page order, cut to the
/// number of items wanted; or the first error.
pub open spec fn fetched(batches: Seq<Seq<PageRequest>>, replies: Seq<Seq<Reply>>, limit: nat)
    -> Result<Seq<CanonicalRecordView>, LastFmErrorView> {
    match merged_upto(batches, replies, batches.len() as int) {
        Err(e) => Err(e),
        Ok(records) => Ok(at_most(records, limit)),
    }
}

/// An error among the first `k` replies is the error of the batch.
proof fn lemma_reply_error_stays(
    requests: Seq<PageRequest>,
    replies: Seq<Reply>,
    k: int,
    n: int,
)
    requires
        0 <= k <= n,
        records_upto(requests, replies, k).is_err(),
    ensures
        records_upto(requests, replies, n) == records_upto(requests, replies, k),
    decreases n - k,
{
    if k < n {
        lemma_reply_error_stays(requests, replies, k, n - 1);
    }
}

/// An error among the first `k` batches is the error of the fetch.
proof fn lemma_batch_error_stays(
    batches: Seq<Seq<PageRequest>>,
    replies: Seq<Seq<Reply>>,
    k: int,
    n: int,
)
    requires
        0 <= k <= n,
        merged_upto(batches, replies, k).is_err(),
    ensures
        merged_upto(batches, replies, n) == merged_upto(batches, replies, k),
    decreases n - k,
{
    if k < n {
        lemma_batch_error_stays(batches, replies, k, n - 1);
    }
}

/// A fetch under way: the plan, how many of its batches have been merged,
/// and the records so far.
#[derive(Debug)]
pub struct FetchRun {
    plan: FetchPlan,
    next: usize,
    records: Vec<CanonicalRecord>,
    failed: bool,
}

impl FetchRun {
    /// The batches of the plan.
    pub closed spec fn batches(&self) -> Seq<Seq<PageRequest>> {
        self.plan@
    }

    /// The number of items wanted.
    pub closed spec fn limit(&self) -> u32 {
        self.plan.limit()
    }

    /// The number of batches whose replies have been merged.
    pub closed spec fn done(&self) -> nat {
        self.next as nat
    }

    /// The records merged so far.
    pub closed spec fn records(&self) -> Seq<CanonicalRecordView> {
        records_view(self.records@)
    }

    /// Whether the fetch has failed.
    pub closed spec fn failed(&self) -> bool {
        self.failed
    }

    /// Whether a batch is waiting to be run.
    pub open spec fn active(&self) -> bool {
        !self.failed() && self.done() < self.batches().len()
    }

    /// Whether all batches have been merged.
    pub open spec fn complete(&self) -> bool {
        !self.failed() && self.done() >= self.batches().len()
    }

    /// What merging `replies` into the run gives: the records that they
    /// add, or the error with which the fetch fails.
    pub open spec fn step(&self, replies: Seq<Reply>) -> Result<
        Seq<CanonicalRecordView>,
        LastFmErrorView,
    > {
        if !self.active() {
            Err(LastFmErrorView::Other("No batch is waiting for replies"@))
        } else {
            batch_records(self.batches()[self.done() as int], replies)
        }
    }

    /// Starts a fetch: nothing is merged yet.
    pub fn new(plan: FetchPlan) -> (run: FetchRun)
        ensures
            run.batches() == plan@,
            run.limit() == plan.limit(),
            run.done() == 0,
            run.records() == Seq::<CanonicalRecordView>::empty(),
            !run.failed(),
    {
        let records: Vec<CanonicalRecord> = Vec::new();
        assert(records_view(records@) =~= Seq::<CanonicalRecordView>::empty());
        FetchRun { plan, next: 0, records, failed: false }
    }

    /// The batch to run now: the requests to send together. None once the
    /// fetch has failed or all batches are merged.
    pub fn current_batch(&self) -> (batch: Option<&Vec<PageRequest>>)
        ensures
            self.active() ==> batch.is_some() && batch.unwrap()@ == self.batches()[self.done() as int],
            !self.active() ==> batch.is_none(),
    {
        if self.failed {
            None
        } else {
            self.plan.batch(self.next)
        }
    }

    /// Whether all batches have been merged and none has failed.
    pub fn is_complete(&self) -> (b: bool)
        ensures
            b == self.complete(),
    {
        !self.failed && self.next >= self.plan.batch_count()
    }

    /// Whether the fetch has failed.
    pub fn has_failed(&self) -> (b: bool)
        ensures
            b == self.failed(),
    {
        self.failed
    }

    /// Merges the replies to the current batch, one reply for each request
    /// and in the order of the requests. Each page is cut to the size asked
    /// for and its items are normalized. If a request has failed, or a page
    /// does not convert, the fetch fails with the error of the first such
    /// reply, and no batch runs after it.
    pub fn absorb(&mut self, replies: Vec<Result<PageResponse, LastFmError>>) -> (r: Result<
        (),
        LastFmError,
    >)
        ensures
            final(self).batches() == old(self).batches(),
            final(self).limit() == old(self).limit(),
            match old(self).step(replies_view(replies@)) {
                Ok(added) => {
                    &&& r.is_ok()
                    &&& !final(self).failed()
                    &&& final(self).done() == old(self).done() + 1
                    &&& final(self).records() == old(self).records() + added
                },
                Err(e) => {
                    &&& r.is_err()
                    &&& r.unwrap_err()@ == e
                    &&& final(self).failed()
                    &&& !final(self).active()
                    &&& final(self).done() == old(self).done()
                    &&& final(self).records() == old(self).records()
                },
            },
    {
        let ghost views = replies_view(replies@);
        if self.failed || self.next >= self.plan.batch_count() {
            self.failed = true;
            return Err(LastFmError::Other("No batch is waiting for replies".to_owned()));
        }
        let batch = match self.plan.batch(self.next) {
            Some(b) => b,
            None => {
                self.failed = true;
                return Err(LastFmError::Other("No batch is waiting for replies".to_owned()));
            },
        };
        let count = replies.len();
        if count != batch.len() {
            self.failed = true;
            return Err(LastFmError::Other("The replies do not match the batch".to_owned()));
        }
        let ghost requests = batch@;
        let mut added: Vec<CanonicalRecord> = Vec::new();
        let mut i: usize = 0;
        assert(records_view(added@) =~= Seq::<CanonicalRecordView>::empty());
        for reply in it: replies
            invariant
                i == it.index(),
                it.seq() == replies@,
                replies@.len() == requests.len(),
                replies@.len() == count,
                requests == batch@,
                views == replies_view(replies@),
                records_upto(requests, views, i as int) == Ok::<
                    Seq<CanonicalRecordView>,
                    LastFmErrorView,
                >(records_view(added@)),
                self.plan == old(self).plan,
                self.next == old(self).next,
                self.records == old(self).records,
                !old(self).failed,
                !self.failed,
                old(self).next < old(self).plan@.len(),
                requests == old(self).plan@[old(self).next as int],
        {
            let request = batch[i];
            assert(views[i as int] == match reply {
                Ok(page) => Ok::<PageResponseView, LastFmErrorView>(page@),
                Err(e) => Err(e@),
            });
            let page = match reply {
                Ok(page) => page,
                Err(e) => {
                    proof {
                        lemma_reply_error_stays(requests, views, i + 1, views.len() as int);
                    }
                    self.failed = true;
                    return Err(e);
                },
            };
            let mut records = match normalize_page(page, request.limit) {
                Ok(records) => records,
                Err(e) => {
                    proof {
                        lemma_reply_error_stays(requests, views, i + 1, views.len() as int);
                    }
                    self.failed = true;
                    return Err(e);
                },
            };
            let ghost before = records_view(added@);
            let ghost more = records_view(records@);
            added.append(&mut records);
            assert(records_view(added@) =~= before + more);
            i = i + 1;
        }
        let ghost before = records_view(self.records@);
        let ghost more = records_view(added@);
        self.records.append(&mut added);
        assert(records_view(self.records@) =~= before + more);
        self.next = self.next + 1;
        Ok(())
    }

    /// Ends the fetch: once all batches are merged, the records in page
    /// order, cut to the number of items wanted.
    pub fn finish(self) -> (r: Result<Vec<CanonicalRecord>, LastFmError>)
        ensures
            records_result(r) == (if self.complete() {
                Ok::<Seq<CanonicalRecordView>, LastFmErrorView>(
                    at_most(self.records(), self.limit() as nat),
                )
            } else {
                Err(LastFmErrorView::Other("The fetch is not complete"@))
            }),
    {
        if self.failed || self.next < self.plan.batch_count() {
            return Err(LastFmError::Other("The fetch is not complete".to_owned()));
        }
        let limit = self.plan.effective_limit() as usize;
        let mut records = self.records;
        let ghost all = records_view(records@);
        if limit < records.len() {
            records.truncate(limit);
            assert(records_view(records@) =~= all.take(limit as int));
        }
        Ok(records)
    }
}

/// Runs a whole plan over replies that are already at hand: `replies` holds,
/// for each batch in order, one reply for each of its requests. The batches
/// are merged in order; after a batch that fails, no further replies are
/// looked at.
pub fn execute(plan: FetchPlan, replies: Vec<Vec<Result<PageResponse, LastFmError>>>) -> (r: Result<
    Vec<CanonicalRecord>,
    LastFmError,
>)
    ensures
        records_result(r) == fetched(plan@, all_replies_view(replies@), plan.limit() as nat),
{
    let ghost batches = plan@;
    let ghost views = all_replies_view(replies@);
    let ghost limit = plan.limit();
    let mut run = FetchRun::new(plan);
    let count = replies.len();
    let mut k: usize = 0;
    for batch_replies in it: replies
        invariant
            k == it.index(),
            it.seq() == replies@,
            replies@.len() == count,
            views == all_replies_view(replies@),
            batches == plan@,
            limit == plan.limit(),
            run.batches() == batches,
            run.limit() == limit,
            !run.failed(),
            run.done() == (if k <= batches.len() {
                k as nat
            } else {
                batches.len()
            }),
            merged_upto(batches, views, run.done() as int) == Ok::<
                Seq<CanonicalRecordView>,
                LastFmErrorView,
            >(run.records()),
    {
        if run.is_complete() {
            return run.finish();
        }
        assert(views[k as int] == replies_view(batch_replies@));
        match run.absorb(batch_replies) {
            Err(e) => {
                proof {
                    lemma_batch_error_stays(batches, views, k + 1, batches.len() as int);
                }
                return Err(e);
            },
            Ok(()) => {},
        }
        k = k + 1;
    }
    proof {
        if !run.complete() {
            lemma_batch_error_stays(batches, views, k + 1, batches.len() as int);
        }
    }
    run.finish()
}

/// Whether each page among the replies holds at least as many items as its
/// request asked for.
pub open spec fn full_pages(requests: Seq<PageRequest>, replies: Seq<Reply>) -> bool {
    forall|i: int|
        0 <= i < requests.len() && i < replies.len() ==> (#[trigger] replies[i] matches Ok(page)
            ==> page.items.len() >= requests[i].limit)
}

/// The page sizes of two lists of requests add up.
pub proof fn lemma_total_size_add(a: Seq<PageRequest>, b: Seq<PageRequest>)
    ensures
        total_size(a + b) == total_size(a) + total_size(b),
    decreases b.len(),
{
    if b.len() == 0 {
        assert(a + b =~= a);
    } else {
        lemma_total_size_add(a, b.drop_last());
        assert((a + b).drop_last() =~= a + b.drop_last());
    }
}

/// Full pages give as many records as their requests asked for.
proof fn lemma_upto_len(requests: Seq<PageRequest>, replies: Seq<Reply>, n: int)
    requires
        0 <= n <= requests.len(),
        requests.len() == replies.len(),
        full_pages(requests, replies),
        records_upto(requests, replies, n).is_ok(),
    ensures
        records_upto(requests, replies, n) matches Ok(records) ==> records.len() == total_size(
            requests.take(n),
        ),
    decreases n,
{
    if n > 0 {
        lemma_upto_len(requests, replies, n - 1);
        assert(requests.take(n).drop_last() =~= requests.take(n - 1));
        let page = replies[n - 1]->Ok_0;
        lemma_normalized_all_len(at_most(page.items, requests[n - 1].limit as nat));
    } else {
        assert(requests.take(0).len() == 0);
    }
}

/// Full pages in every batch give as many records as the requests of the
/// batches asked for.
proof fn lemma_merged_len(batches: Seq<Seq<PageRequest>>, replies: Seq<Seq<Reply>>, k: int)
    requires
        0 <= k <= batches.len(),
        forall|b: int| 0 <= b < k && b < replies.len() ==> full_pages(batches[b], #[trigger] replies[b]),
        merged_upto(batches, replies, k).is_ok(),
    ensures
        merged_upto(batches, replies, k) matches Ok(records) ==> records.len() == total_size(
            batches.take(k).flatten(),
        ),
    decreases k,
{
    if k > 0 {
        lemma_merged_len(batches, replies, k - 1);
        let requests = batches[k - 1];
        lemma_upto_len(requests, replies[k - 1], requests.len() as int);
        assert(requests.take(requests.len() as int) =~= requests);
        assert(batches.take(k) =~= batches.take(k - 1).push(requests));
        batches.take(k - 1).lemma_flatten_push(requests);
        lemma_total_size_add(batches.take(k - 1).flatten(), requests);
    } else {
        assert(batches.take(0) =~= Seq::<Seq<PageRequest>>::empty());
    }
}

/// The number of items that a fetch returns is never more than the smaller
/// of the number asked for and the number available, so none where either
/// is none; and it is that number where every page holds at least the
/// items that its request asked for.
pub proof fn lemma_fetched_count(
    total_available: u32,
    requested_limit: TrackLimit,
    max_page_size: u32,
    replies: Seq<Seq<Reply>>,
)
    requires
        max_page_size > 0,
    ensures
        ({
            let limit = requested_limit.effective(total_available);
            let batches = batched(
                planned_pages(limit as nat, max_page_size as nat),
                BATCH_WIDTH as nat,
            );
            &&& requested_limit matches TrackLimit::Limited(n) ==> limit == (if n <= total_available {
                n
            } else {
                total_available
            })
            &&& requested_limit is Unlimited ==> limit == total_available
            &&& fetched(batches, replies, limit as nat) matches Ok(records) ==> {
                &&& records.len() <= limit
                &&& (total_available == 0 || requested_limit == TrackLimit::Limited(0))
                    ==> records.len() == 0
                &&& (forall|b: int|
                    0 <= b < batches.len() && b < replies.len() ==> full_pages(
                        batches[b],
                        #[trigger] replies[b],
                    )) ==> records.len() == limit
            }
        }),
{
    let limit = requested_limit.effective(total_available);
    let pages = planned_pages(limit as nat, max_page_size as nat);
    let batches = batched(pages, BATCH_WIDTH as nat);
    if fetched(batches, replies, limit as nat).is_ok() {
        if forall|b: int|
            0 <= b < batches.len() && b < replies.len() ==> full_pages(
                batches[b],
                #[trigger] replies[b],
            ) {
            lemma_merged_len(batches, replies, batches.len() as int);
            assert(batches.take(batches.len() as int) =~= batches);
            lemma_batched(pages, BATCH_WIDTH as nat);
            lemma_planned_total(limit as nat, max_page_size as nat);
        }
    }
}

} // verus!
