//! The chunk planner: from the number of items wanted and the most that one
//! call may return, the ordered page requests that reach it, grouped into
//! batches that run together.

use vstd::prelude::*;

verus! {

/// The most items the remote service returns for one call.
pub const API_MAX_LIMIT: u32 = 1000;

/// How many page requests are in flight at once: the width of a batch.
pub const BATCH_WIDTH: usize = 5;

/// How many items a caller asks for.
#[derive(Debug, Clone, Copy)]
pub enum TrackLimit {
    Limited(u32),
    Unlimited,
}

impl TrackLimit {
    /// The number of items to fetch when `total` are available: the smaller
    /// of the two, or `total` when no limit was given.
    pub open spec fn effective(self, total: u32) -> u32 {
        match self {
            TrackLimit::Limited(l) => if l <= total { l } else { total },
            TrackLimit::Unlimited => total,
        }
    }

    /// Computes [`TrackLimit::effective`].
    pub fn effective_limit(self, total: u32) -> (r: u32)
        ensures
            r == self.effective(total),
    {
        match self {
            TrackLimit::Limited(l) => if l <= total { l } else { total },
            TrackLimit::Unlimited => total,
        }
    }
}

impl vstd::std_specs::convert::FromSpecImpl<Option<u32>> for TrackLimit {
    open spec fn obeys_from_spec() -> bool {
        true
    }

    open spec fn from_spec(opt: Option<u32>) -> TrackLimit {
        match opt {
            Some(limit) => TrackLimit::Limited(limit),
            None => TrackLimit::Unlimited,
        }
    }
}

impl From<Option<u32>> for TrackLimit {
    fn from(opt: Option<u32>) -> (limit: TrackLimit) {
        match opt {
            Some(limit) => TrackLimit::Limited(limit),
            None => TrackLimit::Unlimited,
        }
    }
}

/// One call to the remote service: which page, and how many items on it.
#[derive(Debug, Clone, Copy, PartialEq, Eq, Structural)]
pub struct PageRequest {
    /// The page number, counted from 1.
    pub page: u32,
    /// The page size asked for.
    pub limit: u32,
}

/// The least `n` with `n * b >= a`, for `b > 0`: `a / b` rounded up.
pub open spec fn ceil_div(a: nat, b: nat) -> nat {
    ((a + b - 1) / (b as int)) as nat
}

/// The number of page requests needed for `limit` items at `max` per page.
pub open spec fn page_count(limit: nat, max: nat) -> nat {
    ceil_div(limit, max)
}

/// The size of the page with index `i` (from 0): a full page while more than
/// a page is missing, else what is missing.
pub open spec fn page_size(limit: nat, max: nat, i: int) -> int {
    if limit - i * max < max {
        limit - i * max
    } else {
        max as int
    }
}

/// The page requests for `limit` items at `max` per page, in order.
pub open spec fn planned_pages(limit: nat, max: nat) -> Seq<PageRequest> {
    Seq::new(
        page_count(limit, max),
        |i: int| PageRequest { page: (i + 1) as u32, limit: page_size(limit, max, i) as u32 },
    )
}

/// The sum of the page sizes of `pages`.
pub open spec fn total_size(pages: Seq<PageRequest>) -> nat
    decreases pages.len(),
{
    if pages.len() == 0 {
        0
    } else {
        total_size(pages.drop_last()) + pages.last().limit as nat
    }
}

/// The number of batches of width `width` that hold `n` requests.
pub open spec fn batch_count(n: nat, width: nat) -> nat {
    ceil_div(n, width)
}

/// `pages` cut into consecutive batches of `width` requests; only the last
/// batch may hold fewer.
pub open spec fn batched(pages: Seq<PageRequest>, width: nat) -> Seq<Seq<PageRequest>> {
    Seq::new(
        batch_count(pages.len(), width),
        |b: int|
            pages.subrange(
                b * width,
                if (b + 1) * width <= pages.len() {
                    (b + 1) * width
                } else {
                    pages.len() as int
                },
            ),
    )
}

/// What a vector of batches stands for.
pub open spec fn batches_view(batches: Seq<Vec<PageRequest>>) -> Seq<Seq<PageRequest>> {
    batches.map_values(|b: Vec<PageRequest>| b@)
}

/// `ceil_div(a, b)` is the least number of parts of size `b` that cover `a`.
pub proof fn lemma_ceil_div(a: nat, b: nat)
    requires
        b > 0,
    ensures
        ceil_div(a, b) * b >= a,
        a > 0 ==> (ceil_div(a, b) - 1) * b < a,
        a == 0 ==> ceil_div(a, b) == 0,
        a > 0 ==> ceil_div(a, b) >= 1,
        ceil_div(a, b) <= a,
{
    let q = (a + b - 1) / (b as int);
    let r = (a + b - 1) % (b as int);
    assert(a + b - 1 == q * b + r && 0 <= r < b) by (nonlinear_arith)
        requires
            b > 0,
            q == (a + b - 1) / (b as int),
            r == (a + b - 1) % (b as int),
    ;
    assert(q >= 0) by (nonlinear_arith)
        requires
            b > 0,
            a + b - 1 >= 0,
            q == (a + b - 1) / (b as int),
    ;
    assert(q * b >= a);
    assert((q - 1) * b == q * b - b) by (nonlinear_arith);
    if a == 0 {
        assert(q == 0) by (nonlinear_arith)
            requires
                q * b + r == b - 1,
                0 <= r < b,
                q >= 0,
                b > 0,
        ;
    } else {
        assert(q >= 1) by (nonlinear_arith)
            requires
                q * b + r == a + b - 1,
                0 <= r < b,
                q >= 0,
                b > 0,
                a > 0,
        ;
    }
    assert(q <= a) by (nonlinear_arith)
        requires
            q * b + r == a + b - 1,
            0 <= r < b,
            q >= 0,
            b > 0,
    ;
}

/// Every planned page holds between 1 and `max` items, the pages are numbered
/// from 1, all but the last are full, and the last holds the rest.
pub proof fn lemma_planned_pages(limit: nat, max: nat)
    requires
        max > 0,
        limit <= u32::MAX,
        max <= u32::MAX,
    ensures
        planned_pages(limit, max).len() == page_count(limit, max),
        forall|i: int|
            0 <= i < page_count(limit, max) ==> {
                &&& (#[trigger] planned_pages(limit, max)[i]).page == i + 1
                &&& planned_pages(limit, max)[i].limit == page_size(limit, max, i)
                &&& 1 <= page_size(limit, max, i) <= max
                &&& i < page_count(limit, max) - 1 ==> page_size(limit, max, i) == max
                &&& i == page_count(limit, max) - 1 ==> page_size(limit, max, i) == limit - (
                page_count(limit, max) - 1) * max
            },
{
    lemma_ceil_div(limit, max);
    let n = page_count(limit, max);
    assert forall|i: int| 0 <= i < n implies {
        &&& (#[trigger] planned_pages(limit, max)[i]).page == i + 1
        &&& planned_pages(limit, max)[i].limit == page_size(limit, max, i)
        &&& 1 <= page_size(limit, max, i) <= max
        &&& i < n - 1 ==> page_size(limit, max, i) == max
        &&& i == n - 1 ==> page_size(limit, max, i) == limit - (n - 1) * max
    } by {
        assert(i * max <= (n - 1) * max) by (nonlinear_arith)
            requires
                0 <= i <= n - 1,
                max > 0,
        ;
        assert(n * max == (n - 1) * max + max) by (nonlinear_arith);
        assert(i * max >= 0) by (nonlinear_arith)
            requires
                0 <= i,
                max > 0,
        ;
        if i < n - 1 {
            assert((i + 1) * max <= (n - 1) * max) by (nonlinear_arith)
                requires
                    0 <= i + 1 <= n - 1,
                    max > 0,
            ;
            assert((i + 1) * max == i * max + max) by (nonlinear_arith);
        }
    }
}

/// The page sizes of the first `k` planned pages add up to `k` full pages, or
/// to `limit` once all pages are counted.
proof fn lemma_total_size_prefix(limit: nat, max: nat, k: int)
    requires
        max > 0,
        limit <= u32::MAX,
        max <= u32::MAX,
        0 <= k <= page_count(limit, max),
    ensures
        total_size(planned_pages(limit, max).take(k)) == (if k == page_count(limit, max) {
            limit as int
        } else {
            k * max
        }),
    decreases k,
{
    let pages = planned_pages(limit, max);
    lemma_planned_pages(limit, max);
    lemma_ceil_div(limit, max);
    if k == 0 {
        assert(pages.take(0).len() == 0);
        assert(0 * max == 0) by (nonlinear_arith);
    } else {
        lemma_total_size_prefix(limit, max, k - 1);
        assert(pages.take(k).drop_last() =~= pages.take(k - 1));
        assert(pages.take(k).last() == pages[k - 1]);
        assert((k - 1) * max + max == k * max) by (nonlinear_arith);
    }
}

/// The planned page sizes add up to the number of items wanted.
pub proof fn lemma_planned_total(limit: nat, max: nat)
    requires
        max > 0,
        limit <= u32::MAX,
        max <= u32::MAX,
    ensures
        total_size(planned_pages(limit, max)) == limit,
{
    let pages = planned_pages(limit, max);
    lemma_total_size_prefix(limit, max, page_count(limit, max) as int);
    assert(pages.take(pages.len() as int) =~= pages);
}

/// When no more is asked for than is available, and all of it fits on one
/// page, the plan is one request for page 1 with the size asked for, in one
/// batch. Nothing is planned for a request of no items.
pub proof fn lemma_single_page(requested_limit: u32, total_available: u32, max_page_size: u32)
    requires
        0 < requested_limit <= total_available <= max_page_size,
    ensures
        TrackLimit::Limited(requested_limit).effective(total_available) == requested_limit,
        planned_pages(requested_limit as nat, max_page_size as nat) == seq![
            PageRequest { page: 1, limit: requested_limit },
        ],
        batched(planned_pages(requested_limit as nat, max_page_size as nat), BATCH_WIDTH as nat)
            == seq![seq![PageRequest { page: 1, limit: requested_limit }]],
{
    let limit = requested_limit as nat;
    let max = max_page_size as nat;
    let pages = planned_pages(limit, max);
    lemma_planned_pages(limit, max);
    lemma_ceil_div(limit, max);
    assert(page_count(limit, max) == 1) by {
        let n = page_count(limit, max);
        if n >= 2 {
            assert((n - 1) * max >= max) by (nonlinear_arith)
                requires
                    n >= 2,
                    max > 0,
            ;
        }
    }
    assert(0 * max == 0) by (nonlinear_arith);
    assert(pages =~= seq![PageRequest { page: 1, limit: requested_limit }]);
    let groups = batched(pages, BATCH_WIDTH as nat);
    assert(groups.len() == 1);
    assert(groups[0] =~= pages);
    assert(groups =~= seq![pages]);
}

/// The first `k` batches, put end to end, are the requests before the
/// `k`-th batch.
proof fn lemma_batched_prefix(pages: Seq<PageRequest>, width: nat, k: int)
    requires
        width > 0,
        0 <= k <= batch_count(pages.len(), width),
    ensures
        batched(pages, width).take(k).flatten() =~= pages.take(
            if k * width <= pages.len() {
                k * width
            } else {
                pages.len() as int
            },
        ),
    decreases k,
{
    let groups = batched(pages, width);
    let n = pages.len();
    lemma_ceil_div(n, width);
    if k == 0 {
        assert(groups.take(0) =~= Seq::<Seq<PageRequest>>::empty());
        assert(0 * width == 0) by (nonlinear_arith);
    } else {
        lemma_batched_prefix(pages, width, k - 1);
        assert(groups.take(k) =~= groups.take(k - 1).push(groups[k - 1]));
        groups.take(k - 1).lemma_flatten_push(groups[k - 1]);
        assert((k - 1) * width <= (batch_count(n, width) - 1) * width) by (nonlinear_arith)
            requires
                0 <= k - 1 <= batch_count(n, width) - 1,
                width > 0,
        ;
        assert((k - 1) * width + width == k * width) by (nonlinear_arith);
        assert((k - 1) * width >= 0) by (nonlinear_arith)
            requires
                k >= 1,
                width > 0,
        ;
    }
}

/// Batching keeps every request, in order: the batches put end to end are
/// the requests. No batch is empty, none holds more than `width` requests,
/// and all but the last hold exactly `width`.
pub proof fn lemma_batched(pages: Seq<PageRequest>, width: nat)
    requires
        width > 0,
    ensures
        batched(pages, width).flatten() == pages,
        batched(pages, width).len() == ceil_div(pages.len(), width),
        forall|b: int|
            0 <= b < batched(pages, width).len() ==> 1 <= (#[trigger] batched(pages, width)[b]).len()
                <= width,
        forall|b: int|
            0 <= b < batched(pages, width).len() - 1 ==> (#[trigger] batched(pages, width)[b]).len()
                == width,
{
    let groups = batched(pages, width);
    let n = pages.len();
    let m = batch_count(n, width);
    lemma_ceil_div(n, width);
    lemma_batched_prefix(pages, width, m as int);
    assert(groups.take(m as int) =~= groups);
    assert(pages.take(n as int) =~= pages);
    assert forall|b: int| 0 <= b < groups.len() implies 1 <= (#[trigger] groups[b]).len() <= width
        && (b < groups.len() - 1 ==> groups[b].len() == width) by {
        assert(b * width <= (m - 1) * width) by (nonlinear_arith)
            requires
                0 <= b <= m - 1,
                width > 0,
        ;
        assert((b + 1) * width == b * width + width) by (nonlinear_arith);
        assert(b * width >= 0) by (nonlinear_arith)
            requires
                b >= 0,
                width > 0,
        ;
        if b < m - 1 {
            assert((b + 1) * width <= (m - 1) * width) by (nonlinear_arith)
                requires
                    0 <= b + 1 <= m - 1,
                    width > 0,
            ;
        }
    }
}

/// The plan invariant: the page sizes add up to the number of items wanted,
/// and the number of pages is that number divided by the page size, rounded
/// up. That many pages are needed and no more: they reach the number
/// wanted, and one page fewer would not. The batches hold the same requests,
/// so their sizes add up to the same number.
pub proof fn lemma_plan_invariant(effective_limit: u32, max_page_size: u32)
    requires
        max_page_size > 0,
    ensures
        total_size(planned_pages(effective_limit as nat, max_page_size as nat)) == effective_limit,
        planned_pages(effective_limit as nat, max_page_size as nat).len() == ceil_div(
            effective_limit as nat,
            max_page_size as nat,
        ),
        ceil_div(effective_limit as nat, max_page_size as nat) * max_page_size >= effective_limit,
        effective_limit > 0 ==> (ceil_div(effective_limit as nat, max_page_size as nat) - 1)
            * max_page_size < effective_limit,
        effective_limit == 0 ==> planned_pages(effective_limit as nat, max_page_size as nat).len()
            == 0,
        total_size(
            batched(
                planned_pages(effective_limit as nat, max_page_size as nat),
                BATCH_WIDTH as nat,
            ).flatten(),
        ) == effective_limit,
{
    lemma_batched(
        planned_pages(effective_limit as nat, max_page_size as nat),
        BATCH_WIDTH as nat,
    );
    lemma_planned_total(effective_limit as nat, max_page_size as nat);
    lemma_planned_pages(effective_limit as nat, max_page_size as nat);
    lemma_ceil_div(effective_limit as nat, max_page_size as nat);
}

/// An ordered list of page requests, grouped into batches of at most
/// [`BATCH_WIDTH`] requests. A plan is always the one that [`plan`] computes
/// for its limit and page size.
#[derive(Debug)]
pub struct FetchPlan {
    effective_limit: u32,
    max_page_size: u32,
    batches: Vec<Vec<PageRequest>>,
}

impl View for FetchPlan {
    type V = Seq<Seq<PageRequest>>;

    /// The batches, in the order in which they run.
    closed spec fn view(&self) -> Seq<Seq<PageRequest>> {
        batches_view(self.batches@)
    }
}

impl FetchPlan {
    /// What holds of every plan: it is the one computed for its limit and
    /// page size.
    #[verifier::type_invariant]
    pub open spec fn well_formed(&self) -> bool {
        &&& self.page_cap() > 0
        &&& self@ == batched(self.pages(), BATCH_WIDTH as nat)
    }

    /// The number of items that the plan fetches.
    pub closed spec fn limit(&self) -> u32 {
        self.effective_limit
    }

    /// The page size that the plan was made for.
    pub closed spec fn page_cap(&self) -> u32 {
        self.max_page_size
    }

    /// All page requests of the plan, in page order.
    pub open spec fn pages(&self) -> Seq<PageRequest> {
        planned_pages(self.limit() as nat, self.page_cap() as nat)
    }

    /// The number of items that the plan fetches.
    pub fn effective_limit(&self) -> (n: u32)
        ensures
            n == self.limit(),
    {
        self.effective_limit
    }

    /// The page size that the plan was made for.
    pub fn max_page_size(&self) -> (n: u32)
        ensures
            n == self.page_cap(),
    {
        self.max_page_size
    }

    /// The number of batches.
    pub fn batch_count(&self) -> (n: usize)
        ensures
            n == self@.len(),
    {
        self.batches.len()
    }

    /// All page requests of the plan, in page order.
    pub fn requests(&self) -> (all: Vec<PageRequest>)
        ensures
            all@ == self.pages(),
    {
        proof {
            use_type_invariant(self);
            lemma_batched(self.pages(), BATCH_WIDTH as nat);
        }
        let mut all: Vec<PageRequest> = Vec::new();
        let mut b: usize = 0;
        assert(self@.take(0) =~= Seq::<Seq<PageRequest>>::empty());
        while b < self.batches.len()
            invariant
                b <= self.batches.len(),
                self@ == batches_view(self.batches@),
                all@ == self@.take(b as int).flatten(),
            decreases self.batches.len() - b,
        {
            let batch = &self.batches[b];
            let ghost before = all@;
            let mut i: usize = 0;
            while i < batch.len()
                invariant
                    i <= batch.len(),
                    all@ == before + batch@.take(i as int),
                decreases batch.len() - i,
            {
                all.push(batch[i]);
                assert(all@ =~= before + batch@.take(i + 1));
                i = i + 1;
            }
            proof {
                assert(batch@.take(i as int) =~= batch@);
                assert(self@.take(b + 1) =~= self@.take(b as int).push(batch@));
                self@.take(b as int).lemma_flatten_push(batch@);
            }
            b = b + 1;
        }
        assert(self@.take(b as int) =~= self@);
        all
    }

    /// The batch with index `index`, if there is one.
    pub fn batch(&self, index: usize) -> (b: Option<&Vec<PageRequest>>)
        ensures
            index < self@.len() ==> b.is_some() && b.unwrap()@ == self@[index as int],
            index >= self@.len() ==> b.is_none(),
    {
        if index < self.batches.len() {
            Some(&self.batches[index])
        } else {
            None
        }
    }
}

/// Plans the page requests that fetch `requested_limit` items out of
/// `total_available`, at most `max_page_size` on a page.
pub fn plan(total_available: u32, requested_limit: TrackLimit, max_page_size: u32) -> (p: FetchPlan)
    requires
        max_page_size > 0,
    ensures
        p.limit() == requested_limit.effective(total_available),
        p.page_cap() == max_page_size,
        p@ == batched(p.pages(), BATCH_WIDTH as nat),
{
    let limit = requested_limit.effective_limit(total_available);
    let ghost pages = planned_pages(limit as nat, max_page_size as nat);
    let ghost count = page_count(limit as nat, max_page_size as nat);
    let mut batches: Vec<Vec<PageRequest>> = Vec::new();
    let mut current: Vec<PageRequest> = Vec::new();
    let mut fetched: u32 = 0;
    let mut page: u32 = 0;
    proof {
        lemma_planned_pages(limit as nat, max_page_size as nat);
        lemma_ceil_div(limit as nat, max_page_size as nat);
        assert(0 * max_page_size == 0) by (nonlinear_arith);
    }
    while fetched < limit
        invariant
            max_page_size > 0,
            pages == planned_pages(limit as nat, max_page_size as nat),
            count == page_count(limit as nat, max_page_size as nat),
            pages.len() == count,
            count <= limit,
            page <= count,
            fetched == (if page == count {
                limit as int
            } else {
                page * max_page_size
            }),
            page == batches.len() * BATCH_WIDTH + current.len(),
            current.len() < BATCH_WIDTH,
            forall|b: int|
                0 <= b < batches.len() ==> (#[trigger] batches[b])@ == pages.subrange(
                    b * BATCH_WIDTH,
                    (b + 1) * BATCH_WIDTH,
                ),
            current@ == pages.subrange(batches.len() * BATCH_WIDTH, page as int),
        decreases limit - fetched,
    {
        proof {
            lemma_planned_pages(limit as nat, max_page_size as nat);
            lemma_ceil_div(limit as nat, max_page_size as nat);
            assert(pages[page as int].limit == page_size(
                limit as nat,
                max_page_size as nat,
                page as int,
            ));
            assert((page + 1) * max_page_size == page * max_page_size + max_page_size)
                by (nonlinear_arith);
        }
        let remaining = limit - fetched;
        let size = if remaining < max_page_size {
            remaining
        } else {
            max_page_size
        };
        page = page + 1;
        let request = PageRequest { page, limit: size };
        assert(request == pages[page - 1]);
        current.push(request);
        fetched = fetched + size;
        assert(current@ =~= pages.subrange(batches.len() * BATCH_WIDTH, page as int));
        if current.len() == BATCH_WIDTH {
            batches.push(current);
            current = Vec::new();
            assert(current@ =~= pages.subrange(batches.len() * BATCH_WIDTH, page as int));
        }
    }
    proof {
        lemma_ceil_div(limit as nat, max_page_size as nat);
        if page != count {
            assert(page * max_page_size <= (count - 1) * max_page_size) by (nonlinear_arith)
                requires
                    0 <= page <= count - 1,
                    max_page_size > 0,
            ;
        }
        assert(page == count);
    }
    if current.len() > 0 {
        batches.push(current);
    }
    proof {
        let expected = batched(pages, BATCH_WIDTH as nat);
        assert(batches_view(batches@).len() == expected.len());
        assert forall|b: int| 0 <= b < expected.len() implies batches_view(batches@)[b]
            == expected[b] by {
            assert(batches_view(batches@)[b] == batches[b]@);
        }
        assert(batches_view(batches@) =~= expected);
    }
    FetchPlan { effective_limit: limit, max_page_size, batches }
}

} // verus!
