//! The job runner's decisions: which pages to fetch, which posts to
//! download, when to stop, and which baseline is safe to persist.
//!
//! The runner itself (searching, downloading, reporting) performs I/O and
//! awaits; it drives a [`JobRunner`], which holds every decision.

use vstd::prelude::*;

use crate::downloader::{DownloadOutcome, DownloadStatus};
use crate::model::{Post, SearchQuery};
use crate::sanitize::{normalize_tag, normalized_tag};
use crate::text::owned;

verus! {

/// Lifecycle state of a single post during a job.
#[derive(Debug, Clone, Copy, PartialEq, Eq, Structural)]
pub enum PostStatus {
    Queued,
    Downloading,
    Saved,
    Skipped,
    Failed,
    Cancelled,
}

/// Per-post metadata for rendering a thumbnail grid.
#[derive(Debug, Clone)]
pub struct PostInfo {
    pub post_id: i64,
    pub sample_url: Option<String>,
    pub preview_url: String,
    pub original_url: String,
    pub width: u32,
    pub height: u32,
    pub status: PostStatus,
}

/// A status transition of one post.
#[derive(Debug, Clone, Copy, PartialEq, Eq, Structural)]
pub struct PostStatusEvent {
    pub post_id: i64,
    pub status: PostStatus,
}

/// Page-level aggregate counts of a job.
#[derive(Debug, Clone, Copy, PartialEq, Eq, Structural)]
pub struct JobProgress {
    pub current_page: u32,
    pub fetched: u32,
    pub saved: u32,
    pub skipped: u32,
    pub failed: u32,
    pub cancelled: u32,
}

impl Default for JobProgress {
    fn default() -> (r: Self)
        ensures
            r == (JobProgress {
                current_page: 0,
                fetched: 0,
                saved: 0,
                skipped: 0,
                failed: 0,
                cancelled: 0,
            }),
    {
        JobProgress { current_page: 0, fetched: 0, saved: 0, skipped: 0, failed: 0, cancelled: 0 }
    }
}

impl JobProgress {
    /// Counts one post of a hand-picked download: the outcome's status, or
    /// a failure for a task lost before reporting (`None`).
    pub fn tally(&mut self, status: Option<&DownloadStatus>)
        requires
            old(self).fetched < u32::MAX,
            old(self).saved < u32::MAX,
            old(self).skipped < u32::MAX,
            old(self).failed < u32::MAX,
            old(self).cancelled < u32::MAX,
        ensures
            final(self).current_page == old(self).current_page,
            final(self).fetched == old(self).fetched + 1,
            final(self).saved == old(self).saved + if status matches Some(s) && s is Saved {
                1int
            } else {
                0
            },
            final(self).skipped == old(self).skipped + if status matches Some(s) && s is SkippedDuplicate {
                1int
            } else {
                0
            },
            final(self).failed == old(self).failed + if status is None || (status matches Some(s)
                && s is Failed) {
                1int
            } else {
                0
            },
            final(self).cancelled == old(self).cancelled + if status matches Some(s) && s is Cancelled {
                1int
            } else {
                0
            },
    {
        match status {
            Some(DownloadStatus::Saved) => self.saved = self.saved + 1,
            Some(DownloadStatus::SkippedDuplicate) => self.skipped = self.skipped + 1,
            Some(DownloadStatus::Cancelled) => self.cancelled = self.cancelled + 1,
            Some(DownloadStatus::Failed(_)) => self.failed = self.failed + 1,
            None => self.failed = self.failed + 1,
        }
        self.fetched = self.fetched + 1;
    }
}

/// Messages emitted while a job runs. The page-level aggregate is
/// stale-tolerant (it may be dropped); per-post messages are not.
#[derive(Debug, Clone)]
pub enum JobMessage {
    /// Page-level aggregate counts.
    PageProgress(JobProgress),
    /// Emitted once per page after candidate filtering.
    PostsDiscovered(Vec<PostInfo>),
    /// Emitted on every status transition of an individual post.
    PostStatus(PostStatusEvent),
}

/// What a finished job reports.
#[derive(Debug)]
pub struct JobOutcome {
    pub progress: JobProgress,
    /// `last_seen_post_id` value the caller can safely persist. Failed posts
    /// will *not* advance past their own id, so the next incremental run
    /// retries them.
    pub safe_last_post_id: i64,
    pub outcomes: Vec<DownloadOutcome>,
}

/// A download job for one tag.
#[derive(Debug)]
pub struct DownloadJob {
    pub raw_tag: String,
    /// `None` = full sweep. Otherwise the new-post baseline.
    pub since_post_id: Option<i64>,
    pub max_pages: u32,
    /// After we cross `since_post_id`, keep paging this many more pages to
    /// recover from any earlier transient failures. Default: 2.
    pub incremental_lookback_pages: u32,
    pub query_extra: SearchQuery,
}

impl DownloadJob {
    /// A full-sweep job of at most 500 pages with a 2-page lookback.
    pub fn new(raw_tag: String) -> (r: Self)
        ensures
            r.raw_tag == raw_tag,
            r.since_post_id is None,
            r.max_pages == 500,
            r.incremental_lookback_pages == 2,
            r.query_extra.tags@.len() == 0,
            r.query_extra.min_score is None,
            r.query_extra.min_width is None,
            r.query_extra.min_height is None,
            r.query_extra.ratings@.len() == 0,
            r.query_extra.limit == 0,
    {
        DownloadJob {
            raw_tag,
            since_post_id: None,
            max_pages: 500,
            incremental_lookback_pages: 2,
            query_extra: SearchQuery::default(),
        }
    }
}

// ---------------------------------------------------------------------------
// Safe baseline
// ---------------------------------------------------------------------------

/// Whether entry `i` of `s` succeeded (or was skipped) and lies below every
/// failed id.
pub open spec fn below_all_failures(s: Seq<(i64, bool)>, i: int) -> bool {
    &&& s[i].1
    &&& forall|j: int| 0 <= j < s.len() && !s[j].1 ==> s[i].0 < #[trigger] s[j].0
}

/// `r` is the safe baseline of `baseline` and the per-post results `s`
/// (`(post_id, succeeded_or_skipped)`): the largest id among the successes
/// that lie below every failed id, never less than `baseline`.
pub open spec fn is_safe_baseline(baseline: i64, s: Seq<(i64, bool)>, r: i64) -> bool {
    &&& r >= baseline
    &&& r == baseline || exists|i: int|
        0 <= i < s.len() && below_all_failures(s, i) && #[trigger] s[i].0 == r
    &&& forall|i: int| 0 <= i < s.len() && below_all_failures(s, i) ==> #[trigger] s[i].0 <= r
}

/// `safe_last_post_id` algorithm:
///
/// - If any post failed, take the maximum `post_id` strictly less than the
///   minimum failed id, among posts that succeeded or were skipped.
/// - Otherwise, take the maximum `post_id` of all successful/skipped posts.
/// - If nothing was processed, keep the original `baseline`.
/// - The result never goes backward (always `>= baseline`).
pub fn compute_safe_baseline(baseline: i64, id_status: &[(i64, bool)]) -> (r: i64)
    ensures
        is_safe_baseline(baseline, id_status@, r),
{
    let n = id_status.len();
    let mut min_failed: Option<i64> = None;
    let mut i: usize = 0;
    while i < n
        invariant
            n == id_status@.len(),
            i <= n,
            match min_failed {
                Some(m) => (exists|j: int| 0 <= j < i && !id_status@[j].1 && id_status@[j].0 == m)
                    && forall|j: int| 0 <= j < i && !id_status@[j].1 ==> m <= #[trigger] id_status@[j].0,
                None => forall|j: int| 0 <= j < i ==> #[trigger] id_status@[j].1,
            },
        decreases n - i,
    {
        let (id, ok) = id_status[i];
        if !ok {
            match min_failed {
                Some(m) => {
                    if id < m {
                        min_failed = Some(id);
                    }
                },
                None => {
                    min_failed = Some(id);
                },
            }
        }
        i = i + 1;
    }
    let mut best: Option<i64> = None;
    let mut k: usize = 0;
    while k < n
        invariant
            n == id_status@.len(),
            k <= n,
            match min_failed {
                Some(m) => (exists|j: int| 0 <= j < n && !id_status@[j].1 && id_status@[j].0 == m)
                    && forall|j: int| 0 <= j < n && !id_status@[j].1 ==> m <= #[trigger] id_status@[j].0,
                None => forall|j: int| 0 <= j < n ==> #[trigger] id_status@[j].1,
            },
            match best {
                Some(b) => exists|j: int|
                    0 <= j < k && below_all_failures(id_status@, j) && #[trigger] id_status@[j].0
                        == b,
                None => true,
            },
            forall|j: int|
                0 <= j < k && below_all_failures(id_status@, j) ==> (best matches Some(b) && #[trigger] id_status@[j].0 <= b),
        decreases n - k,
    {
        let (id, ok) = id_status[k];
        let eligible = ok && match min_failed {
            Some(m) => id < m,
            None => true,
        };
        proof {
            if eligible {
                assert(below_all_failures(id_status@, k as int));
            } else {
                if below_all_failures(id_status@, k as int) {
                    if let Some(m) = min_failed {
                        let j = choose|j: int| 0 <= j < n && !id_status@[j].1 && id_status@[j].0 == m;
                        assert(id_status@[k as int].0 < id_status@[j].0);
                    }
                }
            }
        }
        if eligible {
            match best {
                Some(b) => {
                    if id > b {
                        best = Some(id);
                    }
                },
                None => {
                    best = Some(id);
                },
            }
        }
        k = k + 1;
    }
    match best {
        Some(b) => {
            if b > baseline {
                b
            } else {
                baseline
            }
        },
        None => baseline,
    }
}

/// A safe baseline never moves backward and never passes a failed post:
/// every failed id stays above it, unless it is the old baseline itself.
pub proof fn law_safe_baseline_keeps_failures(baseline: i64, s: Seq<(i64, bool)>, r: i64)
    requires
        is_safe_baseline(baseline, s, r),
    ensures
        r >= baseline,
        forall|j: int| 0 <= j < s.len() && !s[j].1 ==> r == baseline || r < #[trigger] s[j].0,
{
    if r != baseline {
        let i = choose|i: int| 0 <= i < s.len() && below_all_failures(s, i) && #[trigger] s[i].0 == r;
        assert forall|j: int| 0 <= j < s.len() && !s[j].1 implies r < #[trigger] s[j].0 by {
            assert(s[i].0 < s[j].0);
        }
    }
}

/// Exactly one value is the safe baseline of given results.
pub proof fn law_safe_baseline_unique(baseline: i64, s: Seq<(i64, bool)>, r1: i64, r2: i64)
    requires
        is_safe_baseline(baseline, s, r1),
        is_safe_baseline(baseline, s, r2),
    ensures
        r1 == r2,
{
    if r1 != baseline {
        let i = choose|i: int| 0 <= i < s.len() && below_all_failures(s, i) && #[trigger] s[i].0 == r1;
        assert(s[i].0 <= r2);
    }
    if r2 != baseline {
        let i = choose|i: int| 0 <= i < s.len() && below_all_failures(s, i) && #[trigger] s[i].0 == r2;
        assert(s[i].0 <= r1);
    }
}

// ---------------------------------------------------------------------------
// Per-post helpers
// ---------------------------------------------------------------------------

/// The grid status that a download outcome ends in.
pub open spec fn final_post_status(s: DownloadStatus) -> PostStatus {
    match s {
        DownloadStatus::Saved => PostStatus::Saved,
        DownloadStatus::SkippedDuplicate => PostStatus::Skipped,
        DownloadStatus::Cancelled => PostStatus::Cancelled,
        DownloadStatus::Failed(_) => PostStatus::Failed,
    }
}

/// The grid status that a download outcome ends in.
pub fn post_status_of(s: &DownloadStatus) -> (r: PostStatus)
    ensures
        r == final_post_status(*s),
{
    match s {
        DownloadStatus::Saved => PostStatus::Saved,
        DownloadStatus::SkippedDuplicate => PostStatus::Skipped,
        DownloadStatus::Cancelled => PostStatus::Cancelled,
        DownloadStatus::Failed(_) => PostStatus::Failed,
    }
}

fn copy_string(s: &String) -> (r: String)
    ensures
        r@ == s@,
{
    owned(s.as_str())
}

/// The grid entry of a post: its thumbnails and `Skipped` when it is
/// already on disk, `Queued` otherwise.
pub fn post_info(p: &Post, on_disk: bool) -> (r: PostInfo)
    ensures
        r.post_id == p.post_id,
        match p.variants.sample {
            Some(v) => r.sample_url matches Some(u) && u@ == v.url@,
            None => r.sample_url is None,
        },
        r.preview_url@ == p.variants.preview.url@,
        r.original_url@ == p.variants.original.url@,
        r.width == p.width,
        r.height == p.height,
        r.status == if on_disk {
            PostStatus::Skipped
        } else {
            PostStatus::Queued
        },
{
    let sample_url = match &p.variants.sample {
        Some(v) => Some(copy_string(&v.url)),
        None => None,
    };
    PostInfo {
        post_id: p.post_id,
        sample_url,
        preview_url: copy_string(&p.variants.preview.url),
        original_url: copy_string(&p.variants.original.url),
        width: p.width,
        height: p.height,
        status: if on_disk {
            PostStatus::Skipped
        } else {
            PostStatus::Queued
        },
    }
}

/// Whether `q` is the query for one page of a job with extra query
/// `extra`: `extra` with `tag` in front, and 100 results per page when
/// `extra` sets no limit.
pub open spec fn is_page_query(extra: SearchQuery, tag: Seq<char>, q: SearchQuery) -> bool {
    &&& q.tags@.len() == extra.tags@.len() + 1
    &&& q.tags@[0]@ == tag
    &&& forall|i: int| 0 <= i < extra.tags@.len() ==> #[trigger] q.tags@[i + 1]@ == extra.tags@[i]@
    &&& q.min_score == extra.min_score
    &&& q.min_width == extra.min_width
    &&& q.min_height == extra.min_height
    &&& q.ratings@ == extra.ratings@
    &&& q.limit == if extra.limit == 0 {
        100
    } else {
        extra.limit
    }
}

/// The query for one page of a job: the job's extra query with the
/// normalized tag in front, and 100 results per page when it sets no limit.
pub fn page_query(job: &DownloadJob, normalized_tag: &str) -> (q: SearchQuery)
    ensures
        is_page_query(job.query_extra, normalized_tag@, q),
{
    let extra = &job.query_extra;
    let mut tags: Vec<String> = Vec::new();
    tags.push(owned(normalized_tag));
    let mut i: usize = 0;
    while i < extra.tags.len()
        invariant
            i <= extra.tags@.len(),
            tags@.len() == i + 1,
            tags@[0]@ == normalized_tag@,
            forall|k: int| 0 <= k < i ==> #[trigger] tags@[k + 1]@ == extra.tags@[k]@,
        decreases extra.tags.len() - i,
    {
        tags.push(copy_string(&extra.tags[i]));
        i = i + 1;
    }
    let mut ratings = Vec::new();
    let mut j: usize = 0;
    while j < extra.ratings.len()
        invariant
            j <= extra.ratings@.len(),
            ratings@ == extra.ratings@.take(j as int),
        decreases extra.ratings.len() - j,
    {
        ratings.push(extra.ratings[j]);
        assert(extra.ratings@.take(j + 1) =~= extra.ratings@.take(j as int).push(extra.ratings@[j as int]));
        j = j + 1;
    }
    assert(extra.ratings@.take(j as int) =~= extra.ratings@);
    SearchQuery {
        tags,
        min_score: extra.min_score,
        min_width: extra.min_width,
        min_height: extra.min_height,
        ratings,
        limit: if extra.limit == 0 {
            100
        } else {
            extra.limit
        },
    }
}

// ---------------------------------------------------------------------------
// The page loop
// ---------------------------------------------------------------------------

/// What to do with a fetched page.
#[derive(Debug, Clone)]
pub enum PageDecision {
    /// The job is over.
    Stop,
    /// Caught up with the baseline; the page counts towards the lookback
    /// and the next page is fetched.
    Lookback,
    /// Download these posts (indices into the page, in page order).
    Download(Vec<usize>),
}

/// The kind of a page decision.
#[derive(Debug, Clone, Copy, PartialEq, Eq, Structural)]
pub enum PageKind {
    Stop,
    Lookback,
    Download,
}

/// The kind of a page decision.
pub open spec fn decision_kind(d: PageDecision) -> PageKind {
    match d {
        PageDecision::Stop => PageKind::Stop,
        PageDecision::Lookback => PageKind::Lookback,
        PageDecision::Download(_) => PageKind::Download,
    }
}

/// What a fetched page leads to: an empty page ends the job; in an
/// incremental job a page with nothing above the baseline counts towards
/// the lookback, and the lookback-th such page ends the job; any other page
/// is downloaded. The blacklist plays no part.
pub open spec fn page_kind(
    incremental: bool,
    baseline: i64,
    caught_up: u32,
    lookback: u32,
    posts: Seq<Post>,
) -> PageKind {
    if posts.len() == 0 {
        PageKind::Stop
    } else if incremental && !any_above(posts, baseline) {
        if caught_up + 1 >= lookback {
            PageKind::Stop
        } else {
            PageKind::Lookback
        }
    } else {
        PageKind::Download
    }
}

/// Whether some post of the page lies above the baseline.
pub open spec fn any_above(posts: Seq<Post>, baseline: i64) -> bool {
    exists|i: int| 0 <= i < posts.len() && #[trigger] posts[i].post_id > baseline
}

/// Whether post `i` of the page is downloaded: above the baseline and not
/// blacklisted.
pub open spec fn is_candidate(posts: Seq<Post>, blacklisted: Seq<bool>, baseline: i64, i: int) -> bool {
    posts[i].post_id > baseline && !blacklisted[i]
}

/// The indices below `n` of the candidates, in order.
pub open spec fn candidates_upto(posts: Seq<Post>, blacklisted: Seq<bool>, baseline: i64, n: nat) -> Seq<usize>
    decreases n,
{
    if n == 0 {
        Seq::empty()
    } else {
        let prev = candidates_upto(posts, blacklisted, baseline, (n - 1) as nat);
        if is_candidate(posts, blacklisted, baseline, n - 1) {
            prev.push((n - 1) as usize)
        } else {
            prev
        }
    }
}

/// The candidates of a page, in page order.
pub open spec fn candidates(posts: Seq<Post>, blacklisted: Seq<bool>, baseline: i64) -> Seq<usize> {
    candidates_upto(posts, blacklisted, baseline, posts.len())
}

/// The decisions of one job, driven page by page by the runner.
pub struct JobRunner {
    /// Posts at or below this id are not downloaded.
    pub baseline: i64,
    /// Whether the job is an incremental update (`since_post_id` set).
    pub incremental: bool,
    pub max_pages: u32,
    pub lookback_pages: u32,
    /// The next page to fetch, from 1.
    pub page: u32,
    /// Fetched pages that lay entirely at or below the baseline.
    pub pages_after_caught_up: u32,
    pub progress: JobProgress,
    /// `(post_id, saved_or_skipped)` of every post that was not cancelled.
    pub id_status: Vec<(i64, bool)>,
    pub outcomes: Vec<DownloadOutcome>,
    /// The search query of every page: the normalized tag in front of the
    /// job's extra query.
    pub query: SearchQuery,
    /// Ids of the current page's candidates that have no outcome yet.
    pub pending: Vec<i64>,
    /// Ids of every candidate handed out so far.
    pub issued: Ghost<Set<i64>>,
}

/// The `(post_id, ok)` entries that the outcomes contribute to the safe
/// baseline: cancelled posts contribute nothing.
pub open spec fn status_entries(outcomes: Seq<DownloadOutcome>) -> Seq<(i64, bool)>
    decreases outcomes.len(),
{
    if outcomes.len() == 0 {
        Seq::empty()
    } else {
        let prev = status_entries(outcomes.drop_last());
        let o = outcomes.last();
        match o.status {
            DownloadStatus::Saved => prev.push((o.post_id, true)),
            DownloadStatus::SkippedDuplicate => prev.push((o.post_id, true)),
            DownloadStatus::Failed(_) => prev.push((o.post_id, false)),
            DownloadStatus::Cancelled => prev,
        }
    }
}

impl JobRunner {
    /// The runner's invariant: the page counter starts at 1 and only
    /// lookback pages count as caught up; the baseline entries are those of
    /// the recorded outcomes.
    pub open spec fn wf(&self) -> bool {
        &&& 1 <= self.page
        &&& self.pages_after_caught_up < self.page
        &&& self.id_status@ == status_entries(self.outcomes@)
        &&& forall|id: i64| #[trigger] self.issued@.contains(id) ==> id > self.baseline
        &&& forall|k: int|
            0 <= k < self.outcomes@.len() ==> self.issued@.contains(
                (#[trigger] self.outcomes@[k]).post_id,
            )
        &&& forall|k: int| 0 <= k < self.pending@.len() ==> self.issued@.contains(#[trigger] self.pending@[k])
    }

    /// A runner for `job`, before its first page.
    pub fn new(job: &DownloadJob) -> (r: Self)
        ensures
            r.wf(),
            r.baseline == match job.since_post_id {
                Some(b) => b,
                None => 0,
            },
            r.incremental == job.since_post_id is Some,
            r.max_pages == job.max_pages,
            r.lookback_pages == job.incremental_lookback_pages,
            r.page == 1,
            r.pages_after_caught_up == 0,
            r.progress == (JobProgress {
                current_page: 0,
                fetched: 0,
                saved: 0,
                skipped: 0,
                failed: 0,
                cancelled: 0,
            }),
            r.outcomes@.len() == 0,
            r.pending@.len() == 0,
            r.issued@ == Set::<i64>::empty(),
            is_page_query(job.query_extra, normalized_tag(job.raw_tag@), r.query),
    {
        let normalized = normalize_tag(job.raw_tag.as_str());
        let query = page_query(job, normalized.as_str());
        let r = JobRunner {
            baseline: match job.since_post_id {
                Some(b) => b,
                None => 0,
            },
            incremental: job.since_post_id.is_some(),
            max_pages: job.max_pages,
            lookback_pages: job.incremental_lookback_pages,
            page: 1,
            pages_after_caught_up: 0,
            progress: JobProgress::default(),
            id_status: Vec::new(),
            outcomes: Vec::new(),
            query,
            pending: Vec::new(),
            issued: Ghost(Set::empty()),
        };
        assert(r.id_status@ =~= status_entries(r.outcomes@));
        r
    }

    /// Whether another page is fetched: not when the job was cancelled, nor
    /// past `max_pages`.
    pub fn should_fetch(&self, cancelled: bool) -> (r: bool)
        ensures
            r == (!cancelled && self.page <= self.max_pages),
    {
        !cancelled && self.page <= self.max_pages
    }

    /// Decides what to do with a fetched page. `blacklisted[i]` tells
    /// whether post `i` matches the blacklist.
    ///
    /// The baseline check is the termination condition; the blacklist is
    /// only a per-page filter and never ends a job.
    pub fn on_page(&mut self, posts: &Vec<Post>, blacklisted: &Vec<bool>) -> (d: PageDecision)
        requires
            old(self).wf(),
            posts@.len() == blacklisted@.len(),
            old(self).page < u32::MAX,
        ensures
            final(self).wf(),
            final(self).baseline == old(self).baseline,
            final(self).incremental == old(self).incremental,
            final(self).max_pages == old(self).max_pages,
            final(self).lookback_pages == old(self).lookback_pages,
            final(self).progress == old(self).progress,
            final(self).id_status@ == old(self).id_status@,
            final(self).outcomes@ == old(self).outcomes@,
            final(self).query == old(self).query,
            decision_kind(d) == page_kind(
                old(self).incremental,
                old(self).baseline,
                old(self).pages_after_caught_up,
                old(self).lookback_pages,
                posts@,
            ),
            d matches PageDecision::Download(c) ==> c@ == candidates(
                posts@,
                blacklisted@,
                old(self).baseline,
            ) && final(self).pending@.len() == c@.len() && (forall|k: int|
                0 <= k < c@.len() ==> #[trigger] final(self).pending@[k] == posts@[c@[k] as int].post_id)
                && final(self).issued@ == old(self).issued@.union(final(self).pending@.to_set()),
            !(d is Download) ==> final(self).pending@ == old(self).pending@ && final(self).issued@
                == old(self).issued@,
            d is Lookback ==> final(self).page == old(self).page + 1
                && final(self).pages_after_caught_up == old(self).pages_after_caught_up + 1,
            !(d is Lookback) ==> final(self).page == old(self).page
                && final(self).pages_after_caught_up == old(self).pages_after_caught_up,
    {
        if posts.len() == 0 {
            return PageDecision::Stop;
        }
        let baseline = self.baseline;
        let mut above = false;
        let mut cands: Vec<usize> = Vec::new();
        let mut ids: Vec<i64> = Vec::new();
        let mut i: usize = 0;
        while i < posts.len()
            invariant
                posts@.len() == blacklisted@.len(),
                i <= posts@.len(),
                above == exists|k: int| 0 <= k < i && #[trigger] posts@[k].post_id > baseline,
                cands@ == candidates_upto(posts@, blacklisted@, baseline, i as nat),
                ids@.len() == cands@.len(),
                forall|k: int| 0 <= k < cands@.len() ==> #[trigger] ids@[k] == posts@[cands@[k] as int].post_id,
                forall|k: int| 0 <= k < ids@.len() ==> #[trigger] ids@[k] > baseline,
            decreases posts.len() - i,
        {
            let id = posts[i].post_id;
            if id > baseline {
                above = true;
                if !blacklisted[i] {
                    cands.push(i);
                    ids.push(id);
                }
            }
            i = i + 1;
        }
        if !above && self.incremental {
            let caught_up = self.pages_after_caught_up + 1;
            if caught_up >= self.lookback_pages {
                return PageDecision::Stop;
            }
            self.pages_after_caught_up = caught_up;
            self.page = self.page + 1;
            return PageDecision::Lookback;
        }
        let ghost old_issued = self.issued@;
        let ghost new_issued = old_issued.union(ids@.to_set());
        assert forall|id: i64| #[trigger] new_issued.contains(id) implies id > baseline by {
            if !old_issued.contains(id) {
                assert(ids@.contains(id));
            }
        }
        self.pending = ids;
        self.issued = Ghost(new_issued);
        assert forall|k: int| 0 <= k < self.pending@.len() implies self.issued@.contains(
            #[trigger] self.pending@[k],
        ) by {
            assert(self.pending@.to_set().contains(self.pending@[k]));
        }
        PageDecision::Download(cands)
    }

    /// Whether another outcome can be counted without a counter
    /// overflowing.
    pub fn can_record(&self) -> (r: bool)
        ensures
            r == (self.progress.saved < u32::MAX && self.progress.skipped < u32::MAX
                && self.progress.failed < u32::MAX && self.progress.cancelled < u32::MAX),
    {
        self.progress.saved < u32::MAX && self.progress.skipped < u32::MAX && self.progress.failed
            < u32::MAX && self.progress.cancelled < u32::MAX
    }

    /// The position of `id` among the pending candidates, if it is one.
    fn pending_index(&self, id: i64) -> (r: Option<usize>)
        ensures
            r matches Some(i) ==> i < self.pending@.len() && self.pending@[i as int] == id,
            r is None ==> !self.pending@.contains(id),
    {
        let mut i: usize = 0;
        while i < self.pending.len()
            invariant
                i <= self.pending@.len(),
                forall|k: int| 0 <= k < i ==> #[trigger] self.pending@[k] != id,
            decreases self.pending.len() - i,
        {
            if self.pending[i] == id {
                return Some(i);
            }
            i = i + 1;
        }
        None
    }

    /// Counts a finished download of a pending candidate: saved and skipped
    /// posts count as successes for the baseline, failed ones as failures,
    /// cancelled ones not at all. An outcome for a post that is not a
    /// pending candidate of the current page is refused (`false`) and
    /// changes nothing.
    pub fn record(&mut self, outcome: DownloadOutcome) -> (accepted: bool)
        requires
            old(self).wf(),
            old(self).progress.saved < u32::MAX,
            old(self).progress.skipped < u32::MAX,
            old(self).progress.failed < u32::MAX,
            old(self).progress.cancelled < u32::MAX,
        ensures
            final(self).wf(),
            accepted == old(self).pending@.contains(outcome.post_id),
            final(self).page == old(self).page,
            final(self).pages_after_caught_up == old(self).pages_after_caught_up,
            final(self).baseline == old(self).baseline,
            final(self).incremental == old(self).incremental,
            final(self).max_pages == old(self).max_pages,
            final(self).lookback_pages == old(self).lookback_pages,
            final(self).query == old(self).query,
            final(self).issued@ == old(self).issued@,
            !accepted ==> final(self).outcomes@ == old(self).outcomes@ && final(self).progress
                == old(self).progress && final(self).pending@ == old(self).pending@,
            accepted ==> exists|i: int|
                0 <= i < old(self).pending@.len() && old(self).pending@[i] == outcome.post_id
                    && final(self).pending@ == old(self).pending@.remove(i),
            accepted ==> final(self).outcomes@ == old(self).outcomes@.push(outcome),
            accepted ==> final(self).progress.current_page == old(self).progress.current_page,
            accepted ==> final(self).progress.fetched == old(self).progress.fetched,
            accepted ==> final(self).progress.saved == old(self).progress.saved + if outcome.status
                is Saved {
                1int
            } else {
                0
            },
            accepted ==> final(self).progress.skipped == old(self).progress.skipped + if outcome.status
                is SkippedDuplicate {
                1int
            } else {
                0
            },
            accepted ==> final(self).progress.failed == old(self).progress.failed + if outcome.status
                is Failed {
                1int
            } else {
                0
            },
            accepted ==> final(self).progress.cancelled == old(self).progress.cancelled + if outcome.status
                is Cancelled {
                1int
            } else {
                0
            },
    {
        let id = outcome.post_id;
        let idx = match self.pending_index(id) {
            Some(i) => i,
            None => return false,
        };
        let ghost old_outcomes = self.outcomes@;
        let ghost old_pending = self.pending@;
        assert(self.issued@.contains(old_pending[idx as int]));
        self.pending.remove(idx);
        assert forall|k: int| 0 <= k < self.pending@.len() implies self.issued@.contains(
            #[trigger] self.pending@[k],
        ) by {
            if k < idx {
                assert(self.pending@[k] == old_pending[k]);
            } else {
                assert(self.pending@[k] == old_pending[k + 1]);
            }
        }
        match &outcome.status {
            DownloadStatus::Saved => {
                self.progress.saved = self.progress.saved + 1;
                self.id_status.push((id, true));
            },
            DownloadStatus::SkippedDuplicate => {
                self.progress.skipped = self.progress.skipped + 1;
                self.id_status.push((id, true));
            },
            DownloadStatus::Cancelled => {
                self.progress.cancelled = self.progress.cancelled + 1;
            },
            DownloadStatus::Failed(_) => {
                self.progress.failed = self.progress.failed + 1;
                self.id_status.push((id, false));
            },
        }
        self.outcomes.push(outcome);
        assert(self.outcomes@.drop_last() =~= old_outcomes);
        assert forall|k: int| 0 <= k < self.outcomes@.len() implies self.issued@.contains(
            (#[trigger] self.outcomes@[k]).post_id,
        ) by {
            if k < old_outcomes.len() {
                assert(self.outcomes@[k] == old_outcomes[k]);
            }
        }
        true
    }

    /// Counts a download task that was lost before reporting an outcome, as
    /// a failure without an id.
    pub fn record_lost_task(&mut self)
        requires
            old(self).wf(),
            old(self).progress.failed < u32::MAX,
        ensures
            final(self).wf(),
            final(self).progress == (JobProgress { failed: (old(self).progress.failed + 1) as u32, ..old(self).progress }),
            final(self).outcomes@ == old(self).outcomes@,
            final(self).id_status@ == old(self).id_status@,
            final(self).page == old(self).page,
            final(self).pages_after_caught_up == old(self).pages_after_caught_up,
            final(self).baseline == old(self).baseline,
            final(self).incremental == old(self).incremental,
            final(self).max_pages == old(self).max_pages,
            final(self).lookback_pages == old(self).lookback_pages,
            final(self).query == old(self).query,
            final(self).pending@ == old(self).pending@,
            final(self).issued@ == old(self).issued@,
    {
        self.progress.failed = self.progress.failed + 1;
    }

    /// Closes a downloaded page of `fetched` posts: counts them, records the
    /// page as the current one, and moves to the next.
    pub fn finish_page(&mut self, fetched: usize)
        requires
            old(self).wf(),
            old(self).page < u32::MAX,
            old(self).progress.fetched + fetched <= u32::MAX,
        ensures
            final(self).wf(),
            final(self).progress == (JobProgress {
                fetched: (old(self).progress.fetched + fetched) as u32,
                current_page: old(self).page,
                ..old(self).progress
            }),
            final(self).page == old(self).page + 1,
            final(self).pages_after_caught_up == old(self).pages_after_caught_up,
            final(self).outcomes@ == old(self).outcomes@,
            final(self).id_status@ == old(self).id_status@,
            final(self).baseline == old(self).baseline,
            final(self).incremental == old(self).incremental,
            final(self).max_pages == old(self).max_pages,
            final(self).lookback_pages == old(self).lookback_pages,
            final(self).query == old(self).query,
            final(self).pending@.len() == 0,
            final(self).issued@ == old(self).issued@,
    {
        self.pending = Vec::new();
        self.progress.fetched = self.progress.fetched + fetched as u32;
        self.progress.current_page = self.page;
        self.page = self.page + 1;
    }

    /// The job's result: its counts, the safe baseline of its outcomes, and
    /// the outcomes.
    pub fn finish(self) -> (r: JobOutcome)
        requires
            self.wf(),
        ensures
            r.progress == self.progress,
            r.outcomes@ == self.outcomes@,
            is_safe_baseline(self.baseline, status_entries(self.outcomes@), r.safe_last_post_id),
            forall|k: int|
                0 <= k < r.outcomes@.len() ==> self.issued@.contains((#[trigger] r.outcomes@[k]).post_id)
                    && r.outcomes@[k].post_id > self.baseline,
    {
        let safe = compute_safe_baseline(self.baseline, self.id_status.as_slice());
        JobOutcome { progress: self.progress, safe_last_post_id: safe, outcomes: self.outcomes }
    }
}

/// The blacklist never ends a job: a non-empty page with a post above the
/// baseline is always downloaded (perhaps none of it, when all of it is
/// blacklisted), and in a full sweep every non-empty page is.
pub proof fn law_blacklist_never_terminates(
    incremental: bool,
    baseline: i64,
    caught_up: u32,
    lookback: u32,
    posts: Seq<Post>,
)
    requires
        posts.len() > 0,
        any_above(posts, baseline) || !incremental,
    ensures
        page_kind(incremental, baseline, caught_up, lookback, posts) == PageKind::Download,
{
}

/// An incremental job ends after the `lookback`-th fetched page that lies
/// entirely at or below the baseline (or the first, when `lookback` is at
/// most 1); before that, such pages are passed over.
pub proof fn law_lookback_window(
    baseline: i64,
    caught_up: u32,
    lookback: u32,
    posts: Seq<Post>,
)
    requires
        posts.len() > 0,
        !any_above(posts, baseline),
    ensures
        page_kind(true, baseline, caught_up, lookback, posts) == if caught_up + 1 >= lookback {
            PageKind::Stop
        } else {
            PageKind::Lookback
        },
        page_kind(false, baseline, caught_up, lookback, posts) == PageKind::Download,
{
}

/// The candidates of a page are exactly its posts above the baseline that
/// are not blacklisted, in page order, each once.
pub proof fn law_candidates_exact(posts: Seq<Post>, blacklisted: Seq<bool>, baseline: i64, n: nat)
    requires
        n <= posts.len() <= usize::MAX,
        posts.len() == blacklisted.len(),
    ensures
        forall|k: int|
            0 <= k < candidates_upto(posts, blacklisted, baseline, n).len() ==> {
                let c = #[trigger] candidates_upto(posts, blacklisted, baseline, n)[k];
                c < n && is_candidate(posts, blacklisted, baseline, c as int)
            },
        forall|i: int|
            0 <= i < n && is_candidate(posts, blacklisted, baseline, i) ==> #[trigger] candidates_upto(
                posts,
                blacklisted,
                baseline,
                n,
            ).contains(i as usize),
        forall|a: int, b: int|
            0 <= a < b < candidates_upto(posts, blacklisted, baseline, n).len() ==> #[trigger] candidates_upto(
                posts,
                blacklisted,
                baseline,
                n,
            )[a] < #[trigger] candidates_upto(posts, blacklisted, baseline, n)[b],
    decreases n,
{
    if n > 0 {
        law_candidates_exact(posts, blacklisted, baseline, (n - 1) as nat);
        let prev = candidates_upto(posts, blacklisted, baseline, (n - 1) as nat);
        let cur = candidates_upto(posts, blacklisted, baseline, n);
        if is_candidate(posts, blacklisted, baseline, n - 1) {
            assert(cur == prev.push((n - 1) as usize));
            assert forall|i: int|
                0 <= i < n && is_candidate(posts, blacklisted, baseline, i) implies #[trigger] cur.contains(
                i as usize,
            ) by {
                if i < n - 1 {
                    assert(prev.contains(i as usize));
                    let k = choose|k: int| 0 <= k < prev.len() && prev[k] == i as usize;
                    assert(cur[k] == prev[k]);
                } else {
                    assert(cur[cur.len() - 1] == (n - 1) as usize);
                }
            }
        } else {
            assert(cur == prev);
        }
    }
}

/// A non-empty page with at least one post above the baseline (not
/// necessarily every post) is downloaded, in an incremental job as in a full
/// sweep: only a page with no post above the baseline counts towards the
/// lookback window.
pub proof fn law_page_with_a_new_post_is_downloaded(
    incremental: bool,
    baseline: i64,
    caught_up: u32,
    lookback: u32,
    posts: Seq<Post>,
    i: int,
)
    requires
        0 <= i < posts.len(),
        posts[i].post_id > baseline,
    ensures
        page_kind(incremental, baseline, caught_up, lookback, posts) == PageKind::Download,
{
    assert(posts[i].post_id > baseline);
}

/// In an incremental job, a non-empty page whose every post lies at or below
/// the baseline is caught up: it ends the job when it is the lookback-th
/// such page, and is skipped over otherwise.
pub proof fn law_old_page_is_caught_up(
    baseline: i64,
    caught_up: u32,
    lookback: u32,
    posts: Seq<Post>,
)
    requires
        posts.len() > 0,
        forall|i: int| 0 <= i < posts.len() ==> (#[trigger] posts[i]).post_id <= baseline,
    ensures
        page_kind(true, baseline, caught_up, lookback, posts) == if caught_up + 1 >= lookback {
            PageKind::Stop
        } else {
            PageKind::Lookback
        },
{
    if any_above(posts, baseline) {
        let i = choose|i: int| 0 <= i < posts.len() && #[trigger] posts[i].post_id > baseline;
        assert(posts[i].post_id <= baseline);
    }
}

/// The posts a page downloads are exactly those above the baseline that are
/// not blacklisted, in page order, each once.
pub proof fn law_candidates_are_new_unblocked_posts(
    posts: Seq<Post>,
    blacklisted: Seq<bool>,
    baseline: i64,
)
    requires
        posts.len() == blacklisted.len() <= usize::MAX,
    ensures
        forall|k: int|
            0 <= k < candidates(posts, blacklisted, baseline).len() ==> {
                let c = #[trigger] candidates(posts, blacklisted, baseline)[k] as int;
                c < posts.len() && posts[c].post_id > baseline && !blacklisted[c]
            },
        forall|i: int|
            0 <= i < posts.len() && posts[i].post_id > baseline && !blacklisted[i]
                ==> #[trigger] candidates(posts, blacklisted, baseline).contains(i as usize),
        forall|a: int, b: int|
            0 <= a < b < candidates(posts, blacklisted, baseline).len() ==> #[trigger] candidates(
                posts,
                blacklisted,
                baseline,
            )[a] < #[trigger] candidates(posts, blacklisted, baseline)[b],
{
    law_candidates_exact(posts, blacklisted, baseline, posts.len());
    assert forall|i: int|
        0 <= i < posts.len() && posts[i].post_id > baseline && !blacklisted[i]
            implies #[trigger] candidates(posts, blacklisted, baseline).contains(i as usize) by {
        assert(is_candidate(posts, blacklisted, baseline, i));
    }
}

/// When every outcome is saved or skipped, each one is a success entry of
/// the baseline, in order.
proof fn lemma_all_ok_entries(os: Seq<DownloadOutcome>)
    requires
        forall|k: int|
            0 <= k < os.len() ==> (#[trigger] os[k]).status is Saved || os[k].status is SkippedDuplicate,
    ensures
        status_entries(os).len() == os.len(),
        forall|k: int| 0 <= k < os.len() ==> #[trigger] status_entries(os)[k] == (os[k].post_id, true),
    decreases os.len(),
{
    if os.len() > 0 {
        let t = os.drop_last();
        assert forall|k: int| 0 <= k < t.len() implies (#[trigger] t[k]).status is Saved
            || t[k].status is SkippedDuplicate by {
            assert(t[k] == os[k]);
        }
        lemma_all_ok_entries(t);
        let last = os.last();
        assert(os[os.len() - 1] == last);
        assert(status_entries(os) == status_entries(t).push((last.post_id, true)));
        assert forall|k: int| 0 <= k < os.len() implies #[trigger] status_entries(os)[k] == (
            os[k].post_id,
            true,
        ) by {
            if k < t.len() {
                assert(t[k] == os[k]);
            }
        }
    }
}

/// After a job whose every outcome is saved or skipped (nothing failed or
/// was cancelled), the safe baseline is the larger of the old baseline and
/// the largest post id of the outcomes: a saved post always advances it.
pub proof fn law_all_saved_baseline_is_max(baseline: i64, outcomes: Seq<DownloadOutcome>, r: i64)
    requires
        forall|k: int|
            0 <= k < outcomes.len() ==> (#[trigger] outcomes[k]).status is Saved
                || outcomes[k].status is SkippedDuplicate,
        is_safe_baseline(baseline, status_entries(outcomes), r),
    ensures
        r >= baseline,
        forall|k: int| 0 <= k < outcomes.len() ==> (#[trigger] outcomes[k]).post_id <= r,
        r == baseline || exists|k: int| 0 <= k < outcomes.len() && (#[trigger] outcomes[k]).post_id == r,
{
    lemma_all_ok_entries(outcomes);
    let s = status_entries(outcomes);
    assert forall|k: int| 0 <= k < outcomes.len() implies (#[trigger] outcomes[k]).post_id <= r by {
        assert(s[k] == (outcomes[k].post_id, true));
        assert forall|j: int| 0 <= j < s.len() && !s[j].1 implies s[k].0 < #[trigger] s[j].0 by {
            assert(s[j] == (outcomes[j].post_id, true));
        }
        assert(below_all_failures(s, k));
    }
    if r != baseline {
        let i = choose|i: int| 0 <= i < s.len() && below_all_failures(s, i) && #[trigger] s[i].0 == r;
        assert(s[i] == (outcomes[i].post_id, true));
        assert(outcomes[i].post_id == r);
    }
}

/// A failed outcome is a failure entry of the baseline.
proof fn lemma_failed_entry(os: Seq<DownloadOutcome>, k: int)
    requires
        0 <= k < os.len(),
        os[k].status is Failed,
    ensures
        exists|j: int|
            0 <= j < status_entries(os).len() && #[trigger] status_entries(os)[j] == (
                os[k].post_id,
                false,
            ),
    decreases os.len(),
{
    let t = os.drop_last();
    if k < os.len() - 1 {
        assert(t[k] == os[k]);
        lemma_failed_entry(t, k);
        let j = choose|j: int|
            0 <= j < status_entries(t).len() && #[trigger] status_entries(t)[j] == (t[k].post_id, false);
        assert(status_entries(os)[j] == status_entries(t)[j]);
    } else {
        assert(os.last() == os[k]);
        let e = status_entries(os);
        assert(e[e.len() - 1] == (os[k].post_id, false));
    }
}

/// A post that failed holds the baseline back: the safe baseline stays
/// below its id, unless it is the old baseline itself, so the next run
/// tries the post again.
pub proof fn law_failed_post_holds_baseline(
    baseline: i64,
    outcomes: Seq<DownloadOutcome>,
    r: i64,
    k: int,
)
    requires
        0 <= k < outcomes.len(),
        outcomes[k].status is Failed,
        is_safe_baseline(baseline, status_entries(outcomes), r),
    ensures
        r == baseline || r < outcomes[k].post_id,
{
    lemma_failed_entry(outcomes, k);
    let s = status_entries(outcomes);
    let j = choose|j: int| 0 <= j < s.len() && #[trigger] s[j] == (outcomes[k].post_id, false);
    law_safe_baseline_keeps_failures(baseline, s, r);
    assert(!s[j].1);
    assert(s[j].0 == outcomes[k].post_id);
    assert(r == baseline || r < s[j].0);
}

} // verus!
