//! What the desktop shell decides: which ratings to ask for, which posts
//! the blacklist hides, and what its commands and events carry.

use vstd::prelude::*;

use crate::config::{Settings, Subscription};
use crate::job::{DownloadJob, JobProgress};
use crate::model::{Rating, SearchQuery};
use crate::sanitize::{normalize_tag, normalized_tag};
use crate::text::{
    decimal_text, has_prefix, int_to_decimal, lowercase_of, owned, starts_with, str_eq, to_lowercase,
};

verus! {

// ---------------------------------------------------------------------------
// Ratings and blacklist
// ---------------------------------------------------------------------------

/// The rating a settings entry names, compared in lowercase.
pub open spec fn rating_named(name: Seq<char>) -> Option<Rating> {
    let l = lowercase_of(name);
    if l == "safe"@ {
        Some(Rating::Safe)
    } else if l == "questionable"@ {
        Some(Rating::Questionable)
    } else if l == "explicit"@ {
        Some(Rating::Explicit)
    } else {
        None
    }
}

/// The ratings named by the settings entries, in order; unknown names are
/// dropped.
pub open spec fn ratings_named(names: Seq<String>) -> Seq<Rating>
    decreases names.len(),
{
    if names.len() == 0 {
        Seq::empty()
    } else {
        let prev = ratings_named(names.drop_last());
        match rating_named(names.last()@) {
            Some(r) => prev.push(r),
            None => prev,
        }
    }
}

/// The ratings to search for, from the settings' default ratings.
pub fn ratings_from_settings(settings: &Settings) -> (r: Vec<Rating>)
    ensures
        r@ == ratings_named(settings.default_ratings@),
{
    let names = &settings.default_ratings;
    let mut out: Vec<Rating> = Vec::new();
    let mut i: usize = 0;
    while i < names.len()
        invariant
            i <= names@.len(),
            out@ == ratings_named(names@.take(i as int)),
        decreases names.len() - i,
    {
        assert(names@.take(i + 1).drop_last() =~= names@.take(i as int));
        let l = to_lowercase(names[i].as_str());
        if str_eq(l.as_str(), "safe") {
            out.push(Rating::Safe);
        } else if str_eq(l.as_str(), "questionable") {
            out.push(Rating::Questionable);
        } else if str_eq(l.as_str(), "explicit") {
            out.push(Rating::Explicit);
        }
        i = i + 1;
    }
    assert(names@.take(i as int) =~= names@);
    out
}

/// The user's blacklist, normalized: trimmed, lowercased, empty entries
/// dropped.
/// The download job of a subscription: its tag, the settings' ratings,
/// and, for an incremental update, its baseline.
pub fn job_for(sub: &Subscription, settings: &Settings, incremental: bool) -> (r: DownloadJob)
    ensures
        r.raw_tag@ == sub.tag@,
        r.since_post_id == if incremental {
            Some(sub.last_seen_post_id)
        } else {
            None
        },
        r.max_pages == 500,
        r.incremental_lookback_pages == 2,
        r.query_extra.tags@.len() == 0,
        r.query_extra.min_score is None,
        r.query_extra.min_width is None,
        r.query_extra.min_height is None,
        r.query_extra.ratings@ == ratings_named(settings.default_ratings@),
        r.query_extra.limit == 0,
{
    let mut job = DownloadJob::new(owned(sub.tag.as_str()));
    if incremental {
        job.since_post_id = Some(sub.last_seen_post_id);
    }
    job.query_extra.ratings = ratings_from_settings(settings);
    job
}

/// The query of a preview page: the normalized tag, the settings'
/// ratings, 100 posts per page.
pub fn preview_query(settings: &Settings, normalized_tag: &str) -> (q: SearchQuery)
    ensures
        q.tags@.len() == 1,
        q.tags@[0]@ == normalized_tag@,
        q.ratings@ == ratings_named(settings.default_ratings@),
        q.min_score is None,
        q.min_width is None,
        q.min_height is None,
        q.limit == 100,
{
    let mut tags: Vec<String> = Vec::new();
    tags.push(owned(normalized_tag));
    SearchQuery {
        tags,
        min_score: None,
        min_width: None,
        min_height: None,
        ratings: ratings_from_settings(settings),
        limit: 100,
    }
}

/// A hand-picked download needs at least one post.
pub fn require_selection(post_ids: &Vec<i64>) -> (r: Result<(), String>)
    ensures
        post_ids@.len() > 0 <==> r is Ok,
        r matches Err(m) ==> m@ == "no posts selected"@,
{
    if post_ids.len() == 0 {
        Err(String::from_str("no posts selected"))
    } else {
        Ok(())
    }
}

/// Whether a download of `subscription_id` is running, given the
/// subscription ids of the running jobs.
pub fn already_running(running: &Vec<String>, subscription_id: &str) -> (r: bool)
    ensures
        r == exists|i: int| 0 <= i < running@.len() && (#[trigger] running@[i])@ == subscription_id@,
{
    let mut i: usize = 0;
    while i < running.len()
        invariant
            i <= running@.len(),
            forall|k: int| 0 <= k < i ==> (#[trigger] running@[k])@ != subscription_id@,
        decreases running.len() - i,
    {
        if str_eq(running[i].as_str(), subscription_id) {
            return true;
        }
        i = i + 1;
    }
    false
}

#[derive(Debug, Clone)]
pub struct Blacklist {
    pub entries: Vec<String>,
}

/// The normalized blacklist entries, in order.
pub open spec fn blacklist_entries(list: Seq<String>) -> Seq<Seq<char>>
    decreases list.len(),
{
    if list.len() == 0 {
        Seq::empty()
    } else {
        let prev = blacklist_entries(list.drop_last());
        let n = normalized_tag(list.last()@);
        if n.len() > 0 {
            prev.push(n)
        } else {
            prev
        }
    }
}

/// Whether a post with these tags is hidden: one of its tags, lowercased,
/// equals an entry.
pub open spec fn blacklisted(entries: Seq<Seq<char>>, tags: Seq<String>) -> bool {
    exists|i: int, j: int|
        0 <= i < tags.len() && 0 <= j < entries.len() && lowercase_of(#[trigger] tags[i]@)
            == #[trigger] entries[j]
}

/// Builds the blacklist from the settings' entries.
pub fn make_blacklist(blacklist: Vec<String>) -> (r: Blacklist)
    ensures
        r.entries@.map_values(|e: String| e@) == blacklist_entries(blacklist@),
{
    let mut entries: Vec<String> = Vec::new();
    let mut i: usize = 0;
    while i < blacklist.len()
        invariant
            i <= blacklist@.len(),
            entries@.map_values(|e: String| e@) == blacklist_entries(blacklist@.take(i as int)),
        decreases blacklist.len() - i,
    {
        assert(blacklist@.take(i + 1).drop_last() =~= blacklist@.take(i as int));
        let n = normalize_tag(blacklist[i].as_str());
        if !n.as_str().is_empty() {
            let ghost before = entries@;
            entries.push(n);
            assert(entries@.map_values(|e: String| e@) =~= before.map_values(|e: String| e@).push(
                normalized_tag(blacklist@[i as int]@),
            ));
        }
        i = i + 1;
    }
    assert(blacklist@.take(i as int) =~= blacklist@);
    Blacklist { entries }
}

impl Blacklist {
    /// Whether a post with these tags is hidden (never, with no entries).
    pub fn matches(&self, tags: &[String]) -> (r: bool)
        ensures
            r == blacklisted(self.entries@.map_values(|e: String| e@), tags@),
    {
        let ghost es = self.entries@.map_values(|e: String| e@);
        if self.entries.len() == 0 {
            return false;
        }
        let mut i: usize = 0;
        while i < tags.len()
            invariant
                i <= tags@.len(),
                es == self.entries@.map_values(|e: String| e@),
                forall|a: int, b: int|
                    0 <= a < i && 0 <= b < es.len() ==> lowercase_of(#[trigger] tags@[a]@)
                        != #[trigger] es[b],
            decreases tags.len() - i,
        {
            let low = to_lowercase(tags[i].as_str());
            let mut j: usize = 0;
            while j < self.entries.len()
                invariant
                    i < tags@.len(),
                    j <= self.entries@.len(),
                    es == self.entries@.map_values(|e: String| e@),
                    low@ == lowercase_of(tags@[i as int]@),
                    forall|b: int| 0 <= b < j ==> low@ != #[trigger] es[b],
                decreases self.entries.len() - j,
            {
                if str_eq(low.as_str(), self.entries[j].as_str()) {
                    assert(lowercase_of(tags@[i as int]@) == es[j as int]);
                    return true;
                }
                j = j + 1;
            }
            i = i + 1;
        }
        false
    }
}

// ---------------------------------------------------------------------------
// Commands
// ---------------------------------------------------------------------------

/// A subscription as the UI lists it.
#[derive(Debug, Clone)]
pub struct SubscriptionDto {
    pub id: String,
    pub provider: String,
    pub provider_display_name: String,
    pub tag: String,
    pub normalized_tag: String,
    pub display_name: Option<String>,
    pub last_run_at: Option<i64>,
    pub last_seen_post_id: i64,
    pub created_at: i64,
}

impl SubscriptionDto {
    /// The listing of a subscription, with its board's display name.
    pub fn from(sub: Subscription, provider_display_name: String) -> (r: Self)
        ensures
            r == (SubscriptionDto {
                id: sub.id,
                provider: sub.provider,
                provider_display_name,
                tag: sub.tag,
                normalized_tag: sub.normalized_tag,
                display_name: sub.display_name,
                last_run_at: sub.last_run_at,
                last_seen_post_id: sub.last_seen_post_id,
                created_at: sub.created_at,
            }),
    {
        SubscriptionDto {
            id: sub.id,
            provider: sub.provider,
            provider_display_name,
            tag: sub.tag,
            normalized_tag: sub.normalized_tag,
            display_name: sub.display_name,
            last_run_at: sub.last_run_at,
            last_seen_post_id: sub.last_seen_post_id,
            created_at: sub.created_at,
        }
    }
}

/// The answer to a started download.
#[derive(Debug, Clone)]
pub struct StartDownloadResp {
    pub job_id: String,
}

/// The answer to a started batch.
#[derive(Debug, Clone)]
pub struct StartBatchResp {
    pub batch_id: String,
    pub total: u32,
}

/// The answer to a preview page.
#[derive(Debug, Clone)]
pub struct PreviewResp {
    pub job_id: String,
    pub page: u32,
    pub returned: u32,
    /// `true` when this page came back full (== limit). A non-full page
    /// means the next page would be empty.
    pub has_more: bool,
}

impl PreviewResp {
    /// The answer for a preview page that returned `returned` of `limit`
    /// posts.
    pub fn new(job_id: String, page: u32, returned: u32, limit: u32) -> (r: Self)
        ensures
            r == (PreviewResp { job_id, page, returned, has_more: returned == limit }),
    {
        PreviewResp { job_id, page, returned, has_more: returned == limit }
    }
}

/// The page a preview shows: the requested one, page 1 by default, never 0.
pub fn preview_page(page: Option<u32>) -> (r: u32)
    ensures
        r == match page {
            Some(p) => if p >= 1 {
                p
            } else {
                1
            },
            None => 1,
        },
{
    match page {
        Some(p) => if p >= 1 {
            p
        } else {
            1
        },
        None => 1,
    }
}

/// A running job as the UI lists it.
#[derive(Debug, Clone)]
pub struct ActiveJobDto {
    pub job_id: String,
    pub subscription_id: String,
    pub tag: String,
    pub current_page: u32,
    pub fetched: u32,
    pub saved: u32,
    pub skipped: u32,
    pub failed: u32,
    pub cancelled: u32,
}

impl ActiveJobDto {
    /// The listing of a running job with its latest counts.
    pub fn new(job_id: String, subscription_id: String, tag: String, p: &JobProgress) -> (r: Self)
        ensures
            r == (ActiveJobDto {
                job_id,
                subscription_id,
                tag,
                current_page: p.current_page,
                fetched: p.fetched,
                saved: p.saved,
                skipped: p.skipped,
                failed: p.failed,
                cancelled: p.cancelled,
            }),
    {
        ActiveJobDto {
            job_id,
            subscription_id,
            tag,
            current_page: p.current_page,
            fetched: p.fetched,
            saved: p.saved,
            skipped: p.skipped,
            failed: p.failed,
            cancelled: p.cancelled,
        }
    }
}

/// The page of a post on its board: `https://yande.re/post/show/<id>` or
/// `https://konachan.com/post/show/<id>`.
pub open spec fn post_page(provider: Seq<char>, post_id: i64) -> Option<Seq<char>> {
    if provider == "yande"@ {
        Some("https://yande.re/post/show/"@ + decimal_text(post_id as int))
    } else if provider == "konachan"@ {
        Some("https://konachan.com/post/show/"@ + decimal_text(post_id as int))
    } else {
        None
    }
}

/// The URL of a post's page, or `unknown provider: <provider>`.
pub fn post_page_url(provider: &str, post_id: i64) -> (r: Result<String, String>)
    ensures
        match post_page(provider@, post_id) {
            Some(u) => r matches Ok(x) && x@ == u,
            None => r matches Err(m) && m@ == "unknown provider: "@ + provider@,
        },
{
    let base = if str_eq(provider, "yande") {
        "https://yande.re/post/show/"
    } else if str_eq(provider, "konachan") {
        "https://konachan.com/post/show/"
    } else {
        let mut m = String::from_str("unknown provider: ");
        m.append(provider);
        return Err(m);
    };
    let mut u = String::from_str(base);
    let id = int_to_decimal(post_id);
    u.append(id.as_str());
    Ok(u)
}

/// Only `http://` and `https://` URLs are opened in the browser.
pub fn is_openable_url(url: &str) -> (r: bool)
    ensures
        r == (has_prefix(url@, "http://"@) || has_prefix(url@, "https://"@)),
{
    starts_with(url, "http://") || starts_with(url, "https://")
}

/// The identifiable User-Agent: `yande-dl/<version> (+https://github.com/KenDev099/yande-dl)`.
pub fn user_agent(version: &str) -> (r: String)
    ensures
        r@ == "yande-dl/"@ + version@ + " (+https://github.com/KenDev099/yande-dl)"@,
{
    let mut r = String::from_str("yande-dl/");
    r.append(version);
    r.append(" (+https://github.com/KenDev099/yande-dl)");
    r
}

// ---------------------------------------------------------------------------
// Events
// ---------------------------------------------------------------------------

/// Page-level progress of a job.
#[derive(Debug, Clone)]
pub struct DownloadProgressEvent {
    pub job_id: String,
    pub subscription_id: String,
    pub current_page: u32,
    pub fetched: u32,
    pub saved: u32,
    pub skipped: u32,
    pub failed: u32,
    pub cancelled: u32,
}

impl DownloadProgressEvent {
    /// The progress event of a job with these counts.
    pub fn new(job_id: String, subscription_id: String, p: &JobProgress) -> (r: Self)
        ensures
            r == (DownloadProgressEvent {
                job_id,
                subscription_id,
                current_page: p.current_page,
                fetched: p.fetched,
                saved: p.saved,
                skipped: p.skipped,
                failed: p.failed,
                cancelled: p.cancelled,
            }),
    {
        DownloadProgressEvent {
            job_id,
            subscription_id,
            current_page: p.current_page,
            fetched: p.fetched,
            saved: p.saved,
            skipped: p.skipped,
            failed: p.failed,
            cancelled: p.cancelled,
        }
    }
}

/// Posts found on a page.
#[derive(Debug, Clone)]
pub struct PostsDiscoveredEvent {
    pub job_id: String,
    pub subscription_id: String,
    pub posts: Vec<crate::job::PostInfo>,
}

/// A post's status change.
#[derive(Debug, Clone)]
pub struct PostStatusUpdateEvent {
    pub job_id: String,
    pub subscription_id: String,
    pub post_id: i64,
    pub status: crate::job::PostStatus,
}

/// A finished job.
#[derive(Debug, Clone)]
pub struct DownloadCompletedEvent {
    pub job_id: String,
    pub subscription_id: String,
    pub total_saved: u32,
    pub total_skipped: u32,
    pub total_failed: u32,
    pub total_cancelled: u32,
    pub safe_last_post_id: i64,
}

impl DownloadCompletedEvent {
    /// The completion event of a job with these final counts.
    pub fn new(job_id: String, subscription_id: String, p: &JobProgress, safe_last_post_id: i64) -> (r:
        Self)
        ensures
            r == (DownloadCompletedEvent {
                job_id,
                subscription_id,
                total_saved: p.saved,
                total_skipped: p.skipped,
                total_failed: p.failed,
                total_cancelled: p.cancelled,
                safe_last_post_id,
            }),
    {
        DownloadCompletedEvent {
            job_id,
            subscription_id,
            total_saved: p.saved,
            total_skipped: p.skipped,
            total_failed: p.failed,
            total_cancelled: p.cancelled,
            safe_last_post_id,
        }
    }
}

/// Progress of a batch update.
#[derive(Debug, Clone)]
pub struct BatchProgressEvent {
    pub batch_id: String,
    pub current_index: u32,
    pub total: u32,
    pub current_subscription_id: Option<String>,
}

/// A finished batch update.
#[derive(Debug, Clone)]
pub struct BatchCompletedEvent {
    pub batch_id: String,
    pub processed: u32,
    pub total: u32,
    pub cancelled: bool,
}

/// A message for the user: `kind` is `info`, `success`, `warning` or
/// `error`.
#[derive(Debug, Clone)]
pub struct NotificationEvent {
    pub kind: String,
    pub message: String,
}

impl NotificationEvent {
    /// An error notification.
    pub fn error(message: String) -> (r: Self)
        ensures
            r.kind@ == "error"@,
            r.message == message,
    {
        NotificationEvent { kind: String::from_str("error"), message }
    }

    /// A warning notification.
    pub fn warning(message: String) -> (r: Self)
        ensures
            r.kind@ == "warning"@,
            r.message == message,
    {
        NotificationEvent { kind: String::from_str("warning"), message }
    }

    /// An informational notification.
    pub fn info(message: String) -> (r: Self)
        ensures
            r.kind@ == "info"@,
            r.message == message,
    {
        NotificationEvent { kind: String::from_str("info"), message }
    }

    /// A success notification.
    pub fn success(message: String) -> (r: Self)
        ensures
            r.kind@ == "success"@,
            r.message == message,
    {
        NotificationEvent { kind: String::from_str("success"), message }
    }
}

/// A post is hidden exactly when one of its tags, lowercased, equals a
/// blacklist entry: a tag that merely contains or starts with an entry does
/// not hide it.
pub proof fn law_blacklist_matches_whole_tags(entries: Seq<Seq<char>>, tags: Seq<String>)
    ensures
        (exists|i: int, j: int|
            0 <= i < tags.len() && 0 <= j < entries.len() && lowercase_of(#[trigger] tags[i]@)
                == #[trigger] entries[j]) ==> blacklisted(entries, tags),
        (forall|i: int, j: int|
            0 <= i < tags.len() && 0 <= j < entries.len() ==> lowercase_of(#[trigger] tags[i]@)
                != #[trigger] entries[j]) ==> !blacklisted(entries, tags),
{
}

/// The blacklist's entries are the given words, trimmed and lowercased, with
/// the empty ones left out: a word that only extends an entry is not one.
pub proof fn law_blacklist_entries_are_normalized_words(list: Seq<String>, k: int)
    requires
        0 <= k < list.len(),
    ensures
        normalized_tag(list[k]@).len() > 0 ==> blacklist_entries(list).contains(
            normalized_tag(list[k]@),
        ),
        forall|e: Seq<char>|
            #[trigger] blacklist_entries(list).contains(e) ==> e.len() > 0 && exists|i: int|
                0 <= i < list.len() && normalized_tag(#[trigger] list[i]@) == e,
    decreases list.len(),
{
    let t = list.drop_last();
    let n = normalized_tag(list[k]@);
    if k < list.len() - 1 {
        assert(t[k] == list[k]);
        law_blacklist_entries_are_normalized_words(t, k);
        if n.len() > 0 {
            let prev = blacklist_entries(t);
            let j = choose|j: int| 0 <= j < prev.len() && prev[j] == n;
            let cur = blacklist_entries(list);
            assert(cur[j] == prev[j]);
            assert(cur.contains(n));
        }
    } else if n.len() > 0 {
        let cur = blacklist_entries(list);
        assert(list.last() == list[k]);
        assert(cur[cur.len() - 1] == n);
    }
    if t.len() > 0 {
        law_blacklist_entries_are_normalized_words(t, 0);
    }
    assert forall|e: Seq<char>|
        #[trigger] blacklist_entries(list).contains(e) implies e.len() > 0 && exists|i: int|
            0 <= i < list.len() && normalized_tag(#[trigger] list[i]@) == e by {
        let prev = blacklist_entries(t);
        if prev.contains(e) {
            let i = choose|i: int| 0 <= i < t.len() && normalized_tag(#[trigger] t[i]@) == e;
            assert(list[i] == t[i]);
        } else {
            assert(list[list.len() - 1] == list.last());
        }
    }
}

} // verus!
