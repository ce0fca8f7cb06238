//! What the desktop shell keeps and decides between jobs: the cache of
//! previewed posts that a hand-picked download reads from, and the walk of a
//! batch update through the subscriptions.

use vstd::prelude::*;

use crate::commands::BatchCompletedEvent;
use crate::model::Post;
use crate::text::{owned, str_eq};

verus! {

// ---------------------------------------------------------------------------
// The preview cache
// ---------------------------------------------------------------------------

/// Posts that previews have shown in this session, each under the id of the
/// subscription it was previewed for.
#[derive(Debug, Clone)]
pub struct PreviewCache {
    pub entries: Vec<(String, Post)>,
}

/// The key of a cache entry: subscription id and post id.
pub open spec fn entry_key(e: (String, Post)) -> (Seq<char>, i64) {
    (e.0@, e.1.post_id)
}

/// No key occurs twice among the entries.
pub open spec fn keys_unique(s: Seq<(String, Post)>) -> bool {
    forall|i: int, j: int|
        0 <= i < s.len() && 0 <= j < s.len() && i != j ==> entry_key(#[trigger] s[i])
            != entry_key(#[trigger] s[j])
}

/// What the entries hold: the post stored under each key (a later entry
/// wins over an earlier one with the same key).
pub open spec fn cache_map(s: Seq<(String, Post)>) -> Map<(Seq<char>, i64), Post>
    decreases s.len(),
{
    if s.len() == 0 {
        Map::empty()
    } else {
        cache_map(s.drop_last()).insert(entry_key(s.last()), s.last().1)
    }
}

/// `m` after storing each post of `posts`, in order, under `sub`.
pub open spec fn page_put(m: Map<(Seq<char>, i64), Post>, sub: Seq<char>, posts: Seq<Post>) -> Map<
    (Seq<char>, i64),
    Post,
>
    decreases posts.len(),
{
    if posts.len() == 0 {
        m
    } else {
        page_put(m, sub, posts.drop_last()).insert((sub, posts.last().post_id), posts.last())
    }
}

/// A key is stored exactly when some entry carries it.
proof fn lemma_cache_map_dom(s: Seq<(String, Post)>, k: (Seq<char>, i64))
    ensures
        cache_map(s).dom().contains(k) <==> exists|i: int|
            0 <= i < s.len() && entry_key(#[trigger] s[i]) == k,
    decreases s.len(),
{
    if s.len() > 0 {
        lemma_cache_map_dom(s.drop_last(), k);
        if cache_map(s.drop_last()).dom().contains(k) {
            let i = choose|i: int| 0 <= i < s.drop_last().len() && entry_key(#[trigger] s.drop_last()[i]) == k;
            assert(s[i] == s.drop_last()[i]);
        }
        if exists|i: int| 0 <= i < s.len() && entry_key(#[trigger] s[i]) == k {
            let i = choose|i: int| 0 <= i < s.len() && entry_key(#[trigger] s[i]) == k;
            if i < s.len() - 1 {
                assert(s.drop_last()[i] == s[i]);
            }
        }
    }
}

/// With unique keys, the post stored under an entry's key is that entry's.
proof fn lemma_cache_map_at(s: Seq<(String, Post)>, i: int)
    requires
        keys_unique(s),
        0 <= i < s.len(),
    ensures
        cache_map(s).dom().contains(entry_key(s[i])),
        cache_map(s)[entry_key(s[i])] == s[i].1,
    decreases s.len(),
{
    if i < s.len() - 1 {
        let t = s.drop_last();
        assert(t[i] == s[i]);
        assert(keys_unique(t)) by {
            assert forall|a: int, b: int|
                0 <= a < t.len() && 0 <= b < t.len() && a != b implies entry_key(#[trigger] t[a])
                != entry_key(#[trigger] t[b]) by {
                assert(t[a] == s[a] && t[b] == s[b]);
            }
        }
        lemma_cache_map_at(t, i);
        assert(entry_key(s[i]) != entry_key(s[s.len() - 1]));
    }
}

/// Replacing the entry of a key replaces the post stored under it.
proof fn lemma_cache_map_update(s: Seq<(String, Post)>, i: int, e: (String, Post))
    requires
        keys_unique(s),
        0 <= i < s.len(),
        entry_key(e) == entry_key(s[i]),
    ensures
        cache_map(s.update(i, e)) == cache_map(s).insert(entry_key(e), e.1),
    decreases s.len(),
{
    let n = s.len() - 1;
    let u = s.update(i, e);
    if i == n {
        assert(u.drop_last() =~= s.drop_last());
        assert(cache_map(u) =~= cache_map(s).insert(entry_key(e), e.1));
    } else {
        let t = s.drop_last();
        assert(u.drop_last() =~= t.update(i, e));
        assert(t[i] == s[i]);
        assert(keys_unique(t)) by {
            assert forall|a: int, b: int|
                0 <= a < t.len() && 0 <= b < t.len() && a != b implies entry_key(#[trigger] t[a])
                != entry_key(#[trigger] t[b]) by {
                assert(t[a] == s[a] && t[b] == s[b]);
            }
        }
        lemma_cache_map_update(t, i, e);
        assert(u.last() == s.last());
        assert(entry_key(s[i]) != entry_key(s[n]));
        assert(cache_map(u) =~= cache_map(s).insert(entry_key(e), e.1));
    }
}

impl PreviewCache {
    /// The cache's contents.
    pub open spec fn view(&self) -> Map<(Seq<char>, i64), Post> {
        cache_map(self.entries@)
    }

    /// The cache's invariant: one entry per key.
    pub open spec fn wf(&self) -> bool {
        keys_unique(self.entries@)
    }

    /// An empty cache.
    pub fn new() -> (r: Self)
        ensures
            r.wf(),
            r.view() == Map::<(Seq<char>, i64), Post>::empty(),
    {
        PreviewCache { entries: Vec::new() }
    }

    /// The index of the entry under (`sub`, `id`), if there is one.
    fn find(&self, sub: &str, id: i64) -> (r: Option<usize>)
        ensures
            r matches Some(i) ==> i < self.entries@.len() && entry_key(self.entries@[i as int])
                == (sub@, id),
            r is None ==> forall|j: int|
                0 <= j < self.entries@.len() ==> entry_key(#[trigger] self.entries@[j]) != (
                sub@,
                id,
            ),
    {
        let mut i: usize = 0;
        while i < self.entries.len()
            invariant
                i <= self.entries@.len(),
                forall|j: int| 0 <= j < i ==> entry_key(#[trigger] self.entries@[j]) != (sub@, id),
            decreases self.entries.len() - i,
        {
            let e = &self.entries[i];
            if e.1.post_id == id && str_eq(e.0.as_str(), sub) {
                return Some(i);
            }
            i = i + 1;
        }
        None
    }

    /// Stores `post` under (`sub`, its id), replacing what was there.
    pub fn put(&mut self, sub: &str, post: Post)
        requires
            old(self).wf(),
        ensures
            final(self).wf(),
            final(self).view() == old(self).view().insert((sub@, post.post_id), post),
    {
        let id = post.post_id;
        let e = (owned(sub), post);
        let ghost old_entries = self.entries@;
        match self.find(sub, id) {
            Some(i) => {
                proof {
                    lemma_cache_map_update(old_entries, i as int, e);
                }
                self.entries.set(i, e);
                assert forall|a: int, b: int|
                    0 <= a < self.entries@.len() && 0 <= b < self.entries@.len() && a
                        != b implies entry_key(#[trigger] self.entries@[a]) != entry_key(
                    #[trigger] self.entries@[b],
                ) by {
                    if a != i && b != i {
                        assert(self.entries@[a] == old_entries[a]);
                        assert(self.entries@[b] == old_entries[b]);
                    } else if a == i {
                        assert(self.entries@[b] == old_entries[b]);
                        assert(entry_key(old_entries[b]) != entry_key(old_entries[i as int]));
                    } else {
                        assert(self.entries@[a] == old_entries[a]);
                        assert(entry_key(old_entries[a]) != entry_key(old_entries[i as int]));
                    }
                }
            },
            None => {
                self.entries.push(e);
                assert(self.entries@.drop_last() =~= old_entries);
                assert forall|a: int, b: int|
                    0 <= a < self.entries@.len() && 0 <= b < self.entries@.len() && a
                        != b implies entry_key(#[trigger] self.entries@[a]) != entry_key(
                    #[trigger] self.entries@[b],
                ) by {
                    let n = old_entries.len() as int;
                    if a < n && b < n {
                        assert(self.entries@[a] == old_entries[a]);
                        assert(self.entries@[b] == old_entries[b]);
                    } else if a == n {
                        assert(self.entries@[b] == old_entries[b]);
                    } else {
                        assert(self.entries@[a] == old_entries[a]);
                    }
                }
            },
        }
    }

    /// Stores the posts of a previewed page under `sub`, in page order (of
    /// two posts with one id, the later one stays).
    pub fn put_page(&mut self, sub: &str, posts: Vec<Post>)
        requires
            old(self).wf(),
        ensures
            final(self).wf(),
            final(self).view() == page_put(old(self).view(), sub@, posts@),
    {
        let ghost all = posts@;
        let ghost start = self.view();
        let n: usize = posts.len();
        assert(all.len() == n);
        let mut rest = posts;
        let mut k: usize = 0;
        while rest.len() > 0
            invariant
                self.wf(),
                k <= all.len() <= usize::MAX,
                rest@ == all.skip(k as int),
                self.view() == page_put(start, sub@, all.take(k as int)),
            decreases rest.len(),
        {
            let p = rest.remove(0);
            assert(p == all[k as int]);
            assert(all.take(k + 1).drop_last() =~= all.take(k as int));
            self.put(sub, p);
            assert(rest@ =~= all.skip(k + 1));
            k = k + 1;
        }
        assert(all.take(k as int) =~= all);
    }

    /// The cached posts for `ids` under `sub`, in the order of `ids`; an
    /// error when any of them was not previewed.
    pub fn select(&self, sub: &str, ids: &Vec<i64>) -> (r: Result<Vec<&Post>, String>)
        requires
            self.wf(),
        ensures
            r is Ok <==> forall|j: int|
                0 <= j < ids@.len() ==> self.view().dom().contains((sub@, #[trigger] ids@[j])),
            r matches Ok(v) ==> v@.len() == ids@.len() && forall|j: int|
                0 <= j < ids@.len() ==> *(#[trigger] v@[j]) == self.view()[(sub@, ids@[j])],
            r matches Err(m) ==> m@ == "preview-cache miss; run preview first"@,
    {
        let mut out: Vec<&Post> = Vec::new();
        let mut j: usize = 0;
        while j < ids.len()
            invariant
                self.wf(),
                j <= ids@.len(),
                out@.len() == j,
                forall|a: int|
                    0 <= a < j ==> self.view().dom().contains((sub@, #[trigger] ids@[a])),
                forall|a: int|
                    0 <= a < j ==> *(#[trigger] out@[a]) == self.view()[(sub@, ids@[a])],
            decreases ids.len() - j,
        {
            let id = ids[j];
            match self.find(sub, id) {
                Some(i) => {
                    proof {
                        lemma_cache_map_at(self.entries@, i as int);
                    }
                    out.push(&self.entries[i].1);
                },
                None => {
                    proof {
                        lemma_cache_map_dom(self.entries@, (sub@, id));
                    }
                    return Err(String::from_str("preview-cache miss; run preview first"));
                },
            }
            j = j + 1;
        }
        Ok(out)
    }
}

/// After a page is stored, each of its posts can be selected again: its key
/// is in the cache and holds that post, unless a later post of the page has
/// the same id (then the later one is held).
pub proof fn law_page_read_back(
    m: Map<(Seq<char>, i64), Post>,
    sub: Seq<char>,
    posts: Seq<Post>,
    j: int,
)
    requires
        0 <= j < posts.len(),
    ensures
        page_put(m, sub, posts).dom().contains((sub, posts[j].post_id)),
        (forall|l: int| j < l < posts.len() ==> (#[trigger] posts[l]).post_id != posts[j].post_id)
            ==> page_put(m, sub, posts)[(sub, posts[j].post_id)] == posts[j],
    decreases posts.len(),
{
    if j < posts.len() - 1 {
        let t = posts.drop_last();
        assert(t[j] == posts[j]);
        law_page_read_back(m, sub, t, j);
        if forall|l: int| j < l < posts.len() ==> (#[trigger] posts[l]).post_id != posts[j].post_id {
            assert forall|l: int| j < l < t.len() implies (#[trigger] t[l]).post_id != t[j].post_id by {
                assert(t[l] == posts[l]);
            }
            assert(posts[posts.len() - 1].post_id != posts[j].post_id);
        }
    }
}

/// Storing a page under `sub` leaves every key of another subscription, or
/// of a post id the page does not hold, as it was.
pub proof fn law_page_keeps_other_keys(
    m: Map<(Seq<char>, i64), Post>,
    sub: Seq<char>,
    posts: Seq<Post>,
    k: (Seq<char>, i64),
)
    requires
        k.0 != sub || forall|l: int| 0 <= l < posts.len() ==> (#[trigger] posts[l]).post_id != k.1,
    ensures
        page_put(m, sub, posts).dom().contains(k) == m.dom().contains(k),
        m.dom().contains(k) ==> page_put(m, sub, posts)[k] == m[k],
    decreases posts.len(),
{
    if posts.len() > 0 {
        let t = posts.drop_last();
        if k.0 == sub {
            assert forall|l: int| 0 <= l < t.len() implies (#[trigger] t[l]).post_id != k.1 by {
                assert(t[l] == posts[l]);
            }
            assert(posts[posts.len() - 1].post_id != k.1);
        }
        law_page_keeps_other_keys(m, sub, t, k);
    }
}

// ---------------------------------------------------------------------------
// Batch updates
// ---------------------------------------------------------------------------

/// What a batch update does with its next subscription.
#[derive(Debug, Clone, Copy, PartialEq, Eq, Structural)]
pub enum BatchAction {
    /// The batch was cancelled: nothing more is downloaded.
    Stop,
    /// The subscription is passed over: its board is unknown, or it is
    /// being downloaded already.
    Skip,
    /// The subscription at this position is downloaded.
    Run(u32),
}

/// A batch update's walk through the subscriptions, in order.
#[derive(Debug, Clone, Copy, PartialEq, Eq, Structural)]
pub struct BatchRunner {
    pub total: u32,
    /// The position of the next subscription.
    pub next: u32,
    /// How many subscriptions were downloaded.
    pub processed: u32,
}

impl BatchRunner {
    /// Downloads are counted among the subscriptions walked so far.
    pub open spec fn wf(&self) -> bool {
        self.processed <= self.next <= self.total
    }

    /// A batch over `total` subscriptions, before the first.
    pub fn new(total: u32) -> (r: Self)
        ensures
            r.wf(),
            r == (BatchRunner { total, next: 0, processed: 0 }),
    {
        BatchRunner { total, next: 0, processed: 0 }
    }

    /// Whether a subscription is left.
    pub fn has_next(&self) -> (r: bool)
        ensures
            r == (self.next < self.total),
    {
        self.next < self.total
    }

    /// Decides on the next subscription: stop when the batch was
    /// cancelled; pass it over when its board is unknown or it is being
    /// downloaded already; else download it, counting it as processed.
    pub fn step(&mut self, cancelled: bool, known_provider: bool, already_running: bool) -> (a:
        BatchAction)
        requires
            old(self).wf(),
            old(self).next < old(self).total,
        ensures
            final(self).wf(),
            final(self).total == old(self).total,
            cancelled ==> a == BatchAction::Stop && *final(self) == *old(self),
            !cancelled && (!known_provider || already_running) ==> a == BatchAction::Skip
                && final(self).next == old(self).next + 1 && final(self).processed == old(
                self,
            ).processed,
            !cancelled && known_provider && !already_running ==> a == BatchAction::Run(
                old(self).next,
            ) && final(self).next == old(self).next + 1 && final(self).processed == old(
                self,
            ).processed + 1,
    {
        if cancelled {
            return BatchAction::Stop;
        }
        let index = self.next;
        self.next = self.next + 1;
        if !known_provider || already_running {
            BatchAction::Skip
        } else {
            self.processed = self.processed + 1;
            BatchAction::Run(index)
        }
    }

    /// The event that ends the batch.
    pub fn completed(&self, batch_id: String, cancelled: bool) -> (r: BatchCompletedEvent)
        ensures
            r == (BatchCompletedEvent {
                batch_id,
                processed: self.processed,
                total: self.total,
                cancelled,
            }),
    {
        BatchCompletedEvent { batch_id, processed: self.processed, total: self.total, cancelled }
    }
}

} // verus!
