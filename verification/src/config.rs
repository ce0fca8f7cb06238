//! Subscriptions (`tags.json`) and settings (`settings.json`): their
//! contents and every change made to them. Reading and writing the files
//! is the caller's.

use vstd::prelude::*;

use crate::sanitize::{normalize_tag, normalized_tag};
use crate::text::{decimal_text, int_to_decimal, lemma_trim_idempotent, str_eq, trim, trim_ws};

verus! {

// ---------------------------------------------------------------------------
// Outside calls
// ---------------------------------------------------------------------------

/// Whether `c` is a lowercase hex digit.
pub open spec fn is_lower_hex_char(c: char) -> bool {
    ('0' <= c <= '9') || ('a' <= c <= 'f')
}

/// The hyphenated lowercase text of a version-4 UUID:
/// `xxxxxxxx-xxxx-4xxx-yxxx-xxxxxxxxxxxx`.
pub open spec fn is_v4_uuid_text(s: Seq<char>) -> bool {
    &&& s.len() == 36
    &&& forall|i: int|
        0 <= i < 36 ==> if i == 8 || i == 13 || i == 18 || i == 23 {
            #[trigger] s[i] == '-'
        } else {
            is_lower_hex_char(s[i])
        }
    &&& s[14] == '4'
}

/// `uuid::Uuid::new_v4()` as text (`to_string`).
///
/// Claimed of the outside function: the text is a hyphenated lowercase
/// version-4 UUID (its `Display` writes `LowerHex` of the hyphenated form;
/// `new_v4` sets the version nibble to 4). Which UUID it is rests on chance
/// and is not stated.
#[verifier::external_body]
fn new_uuid_text() -> (r: String)
    ensures
        is_v4_uuid_text(r@),
{
    uuid::Uuid::new_v4().to_string()
}

// ---------------------------------------------------------------------------
// Subscriptions
// ---------------------------------------------------------------------------

/// A saved tag on a board.
#[derive(Debug, Clone)]
pub struct Subscription {
    pub id: String,
    pub provider: String,
    /// User's original input (trimmed) — displayed verbatim in the UI.
    pub tag: String,
    /// `normalize_tag(tag)`. Used for folder names and dedup keying.
    pub normalized_tag: String,
    /// Optional user-defined alias. Shown as primary label when set; falls
    /// back to `tag` otherwise.
    pub display_name: Option<String>,
    pub last_run_at: Option<i64>,
    pub last_seen_post_id: i64,
    pub created_at: i64,
}

/// An alias as it is stored: trimmed, and absent when empty.
pub open spec fn normalized_display_name(input: Option<Seq<char>>) -> Option<Seq<char>> {
    match input {
        Some(s) => if trim_ws(s).len() > 0 {
            Some(trim_ws(s))
        } else {
            None
        },
        None => None,
    }
}

/// The view of an optional text.
pub open spec fn opt_view(s: Option<String>) -> Option<Seq<char>> {
    match s {
        Some(x) => Some(x@),
        None => None,
    }
}

/// Trim + collapse-to-None on empty so the on-disk form is consistent.
pub fn normalize_display_name(input: Option<String>) -> (r: Option<String>)
    ensures
        opt_view(r) == normalized_display_name(opt_view(input)),
{
    match input {
        Some(s) => {
            let t = trim(s.as_str());
            if t.as_str().is_empty() {
                None
            } else {
                Some(t)
            }
        },
        None => None,
    }
}

/// What a freshly created subscription holds, but for its id and creation
/// time.
pub open spec fn fresh_subscription(
    s: Subscription,
    provider: Seq<char>,
    raw_tag: Seq<char>,
    display_name: Option<Seq<char>>,
) -> bool {
    &&& is_v4_uuid_text(s.id@)
    &&& s.provider@ == provider
    &&& s.tag@ == trim_ws(raw_tag)
    &&& s.normalized_tag@ == normalized_tag(raw_tag)
    &&& opt_view(s.display_name) == normalized_display_name(display_name)
    &&& s.last_run_at is None
    &&& s.last_seen_post_id == 0
}

impl Subscription {
    /// A new subscription without alias, created at `now` (Unix seconds).
    pub fn new(provider: &str, raw_tag: &str, now: i64) -> (r: Self)
        ensures
            fresh_subscription(r, provider@, raw_tag@, None),
            r.created_at == now,
    {
        Self::new_with_display_name(provider, raw_tag, None, now)
    }

    /// A new subscription: a fresh random id, the trimmed tag, its
    /// normalized form, the normalized alias, no run yet, baseline 0, and
    /// `now` (Unix seconds) as creation time.
    pub fn new_with_display_name(
        provider: &str,
        raw_tag: &str,
        display_name: Option<String>,
        now: i64,
    ) -> (r: Self)
        ensures
            fresh_subscription(r, provider@, raw_tag@, opt_view(display_name)),
            r.created_at == now,
    {
        let normalized = normalize_tag(raw_tag);
        Subscription {
            id: new_uuid_text(),
            provider: String::from_str(provider),
            tag: trim(raw_tag),
            normalized_tag: normalized,
            display_name: normalize_display_name(display_name),
            last_run_at: None,
            last_seen_post_id: 0,
            created_at: now,
        }
    }

    /// A field-by-field copy.
    pub fn duplicate(&self) -> (r: Self)
        ensures
            r == *self,
    {
        Subscription {
            id: self.id.clone(),
            provider: self.provider.clone(),
            tag: self.tag.clone(),
            normalized_tag: self.normalized_tag.clone(),
            display_name: match &self.display_name {
                Some(d) => Some(d.clone()),
                None => None,
            },
            last_run_at: self.last_run_at,
            last_seen_post_id: self.last_seen_post_id,
            created_at: self.created_at,
        }
    }
}

/// The contents of `tags.json`.
#[derive(Debug, Clone)]
pub struct TagsFile {
    pub version: u32,
    pub subscriptions: Vec<Subscription>,
}

impl Default for TagsFile {
    fn default() -> (r: Self)
        ensures
            r.version == 1,
            r.subscriptions@.len() == 0,
    {
        TagsFile { version: 1, subscriptions: Vec::new() }
    }
}

/// How an imported file is combined with the current subscriptions.
#[derive(Debug, Clone, Copy, PartialEq, Eq, Structural)]
pub enum ImportMode {
    Replace,
    Merge,
}

/// What an import did.
#[derive(Debug, Clone, Copy, PartialEq, Eq, Structural)]
pub struct ImportReport {
    pub added: usize,
    pub skipped: usize,
    pub removed: usize,
}

impl Default for ImportReport {
    fn default() -> (r: Self)
        ensures
            r == (ImportReport { added: 0, skipped: 0, removed: 0 }),
    {
        ImportReport { added: 0, skipped: 0, removed: 0 }
    }
}

/// On-disk export shape. Carries only what's portable across machines —
/// provider/tag/displayName. Internal bookkeeping (id, baseline, timestamps)
/// is reset on import so the new device starts fresh.
#[derive(Debug, Clone)]
pub struct ExportSubscription {
    pub provider: String,
    pub tag: String,
    pub display_name: Option<String>,
}

/// The export file.
#[derive(Debug, Clone)]
pub struct ExportFile {
    pub version: u32,
    pub subscriptions: Vec<ExportSubscription>,
}

/// Why a subscription could not be added.
#[derive(Debug, Clone, Copy, PartialEq, Eq, Structural)]
pub enum TagsError {
    /// The tag is empty or only whitespace.
    EmptyTag,
}

impl TagsError {
    /// The error's message.
    pub fn message(&self) -> (r: String)
        ensures
            r@ == "tag must not be empty"@,
    {
        String::from_str("tag must not be empty")
    }
}

/// Whether two subscriptions share their dedup key: provider and
/// normalized tag.
pub open spec fn same_key(a: Subscription, provider: Seq<char>, normalized: Seq<char>) -> bool {
    a.provider@ == provider && a.normalized_tag@ == normalized
}

/// No two subscriptions share a dedup key.
pub open spec fn unique_keys(subs: Seq<Subscription>) -> bool {
    forall|i: int, j: int|
        0 <= i < j < subs.len() ==> !same_key(
            #[trigger] subs[i],
            #[trigger] subs[j].provider@,
            subs[j].normalized_tag@,
        )
}

/// The first index at or after `k` whose id is `id`.
pub open spec fn first_with_id(subs: Seq<Subscription>, id: Seq<char>, k: nat) -> Option<int>
    decreases subs.len() - k,
{
    if k >= subs.len() {
        None
    } else if subs[k as int].id@ == id {
        Some(k as int)
    } else {
        first_with_id(subs, id, k + 1)
    }
}

/// The first index at or after `k` with the given dedup key.
pub open spec fn first_with_key(
    subs: Seq<Subscription>,
    provider: Seq<char>,
    normalized: Seq<char>,
    k: nat,
) -> Option<int>
    decreases subs.len() - k,
{
    if k >= subs.len() {
        None
    } else if same_key(subs[k as int], provider, normalized) {
        Some(k as int)
    } else {
        first_with_key(subs, provider, normalized, k + 1)
    }
}

proof fn lemma_first_with_key(subs: Seq<Subscription>, provider: Seq<char>, normalized: Seq<char>, k: nat)
    requires
        k <= subs.len(),
    ensures
        first_with_key(subs, provider, normalized, k) matches Some(i) ==> k <= i < subs.len()
            && same_key(subs[i], provider, normalized),
        first_with_key(subs, provider, normalized, k) is None ==> forall|j: int|
            k <= j < subs.len() ==> !same_key(#[trigger] subs[j], provider, normalized),
    decreases subs.len() - k,
{
    if k < subs.len() {
        lemma_first_with_key(subs, provider, normalized, k + 1);
    }
}

proof fn lemma_first_with_id(subs: Seq<Subscription>, id: Seq<char>, k: nat)
    requires
        k <= subs.len(),
    ensures
        first_with_id(subs, id, k) matches Some(i) ==> k <= i < subs.len() && subs[i].id@ == id,
        first_with_id(subs, id, k) is None ==> forall|j: int|
            k <= j < subs.len() ==> (#[trigger] subs[j]).id@ != id,
    decreases subs.len() - k,
{
    if k < subs.len() {
        lemma_first_with_id(subs, id, k + 1);
    }
}

/// The subscriptions whose id is not `id`, in order.
pub open spec fn without_id(subs: Seq<Subscription>, id: Seq<char>) -> Seq<Subscription>
    decreases subs.len(),
{
    if subs.len() == 0 {
        subs
    } else {
        let prev = without_id(subs.drop_last(), id);
        if subs.last().id@ == id {
            prev
        } else {
            prev.push(subs.last())
        }
    }
}

/// The portable part of a subscription.
pub open spec fn portable(s: Subscription) -> (Seq<char>, Seq<char>, Option<Seq<char>>) {
    (s.provider@, s.tag@, opt_view(s.display_name))
}

/// The portable part of an export entry.
pub open spec fn portable_export(e: ExportSubscription) -> (Seq<char>, Seq<char>, Option<Seq<char>>) {
    (e.provider@, e.tag@, opt_view(e.display_name))
}

/// The subscriptions after a merge of `imported` into `current`: each
/// imported subscription is appended unless one with its key is already
/// there (counting those appended before it).
pub open spec fn merged(current: Seq<Subscription>, imported: Seq<Subscription>) -> Seq<Subscription>
    decreases imported.len(),
{
    if imported.len() == 0 {
        current
    } else {
        let prev = merged(current, imported.drop_last());
        let s = imported.last();
        if first_with_key(prev, s.provider@, s.normalized_tag@, 0) is Some {
            prev
        } else {
            prev.push(s)
        }
    }
}

impl TagsFile {
    /// The index of the first subscription with id `id`.
    pub fn find_index(&self, id: &str) -> (r: Option<usize>)
        ensures
            r matches Some(i) ==> first_with_id(self.subscriptions@, id@, 0) == Some(i as int)
                && i < self.subscriptions@.len() && self.subscriptions@[i as int].id@ == id@,
            r is None ==> first_with_id(self.subscriptions@, id@, 0) is None,
    {
        proof {
            lemma_first_with_id(self.subscriptions@, id@, 0);
        }
        let mut i: usize = 0;
        while i < self.subscriptions.len()
            invariant
                i <= self.subscriptions@.len(),
                first_with_id(self.subscriptions@, id@, 0) == first_with_id(
                    self.subscriptions@,
                    id@,
                    i as nat,
                ),
            decreases self.subscriptions.len() - i,
        {
            if str_eq(self.subscriptions[i].id.as_str(), id) {
                return Some(i);
            }
            i = i + 1;
        }
        None
    }

    /// The index of the first subscription with the given dedup key.
    pub fn find_key(&self, provider: &str, normalized: &str) -> (r: Option<usize>)
        ensures
            r matches Some(i) ==> first_with_key(self.subscriptions@, provider@, normalized@, 0)
                == Some(i as int),
            r is None ==> first_with_key(self.subscriptions@, provider@, normalized@, 0) is None,
            r matches Some(i) ==> i < self.subscriptions@.len(),
    {
        proof {
            lemma_first_with_key(self.subscriptions@, provider@, normalized@, 0);
        }
        let mut i: usize = 0;
        while i < self.subscriptions.len()
            invariant
                i <= self.subscriptions@.len(),
                first_with_key(self.subscriptions@, provider@, normalized@, 0) == first_with_key(
                    self.subscriptions@,
                    provider@,
                    normalized@,
                    i as nat,
                ),
            decreases self.subscriptions.len() - i,
        {
            let s = &self.subscriptions[i];
            if str_eq(s.provider.as_str(), provider) && str_eq(
                s.normalized_tag.as_str(),
                normalized,
            ) {
                return Some(i);
            }
            i = i + 1;
        }
        None
    }

    /// Adds a subscription, unless one for this (provider, normalized tag)
    /// already exists: then the existing one is returned unchanged — the
    /// display name is NOT overwritten on dedup hits. The flag says whether
    /// the file changed. An empty (or whitespace) tag is refused.
    pub fn add_with_display_name(
        &mut self,
        provider: &str,
        raw_tag: &str,
        display_name: Option<String>,
        now: i64,
    ) -> (r: Result<(Subscription, bool), TagsError>)
        ensures
            final(self).version == old(self).version,
            trim_ws(raw_tag@).len() == 0 ==> r == Err::<(Subscription, bool), TagsError>(
                TagsError::EmptyTag,
            ) && final(self).subscriptions@ == old(self).subscriptions@,
            trim_ws(raw_tag@).len() > 0 ==> match first_with_key(
                old(self).subscriptions@,
                provider@,
                normalized_tag(raw_tag@),
                0,
            ) {
                Some(i) => r == Ok::<(Subscription, bool), TagsError>(
                    (old(self).subscriptions@[i], false),
                ) && final(self).subscriptions@ == old(self).subscriptions@,
                None => r matches Ok((s, changed)) && changed && fresh_subscription(
                    s,
                    provider@,
                    raw_tag@,
                    opt_view(display_name),
                ) && s.created_at == now && final(self).subscriptions@ == old(self).subscriptions@.push(s),
            },
    {
        let t = trim(raw_tag);
        if t.as_str().is_empty() {
            return Err(TagsError::EmptyTag);
        }
        let normalized = normalize_tag(raw_tag);
        match self.find_key(provider, normalized.as_str()) {
            Some(i) => Ok((self.subscriptions[i].duplicate(), false)),
            None => {
                let sub = Subscription::new_with_display_name(provider, raw_tag, display_name, now);
                let copy = sub.duplicate();
                self.subscriptions.push(sub);
                Ok((copy, true))
            },
        }
    }

    /// Adds a subscription without alias (see `add_with_display_name`).
    pub fn add(&mut self, provider: &str, raw_tag: &str, now: i64) -> (r: Result<(Subscription, bool), TagsError>)
        ensures
            final(self).version == old(self).version,
            trim_ws(raw_tag@).len() == 0 ==> r == Err::<(Subscription, bool), TagsError>(
                TagsError::EmptyTag,
            ) && final(self).subscriptions@ == old(self).subscriptions@,
            trim_ws(raw_tag@).len() > 0 ==> match first_with_key(
                old(self).subscriptions@,
                provider@,
                normalized_tag(raw_tag@),
                0,
            ) {
                Some(i) => r == Ok::<(Subscription, bool), TagsError>(
                    (old(self).subscriptions@[i], false),
                ) && final(self).subscriptions@ == old(self).subscriptions@,
                None => r matches Ok((s, changed)) && changed && fresh_subscription(
                    s,
                    provider@,
                    raw_tag@,
                    None,
                ) && s.created_at == now && final(self).subscriptions@ == old(self).subscriptions@.push(s),
            },
    {
        self.add_with_display_name(provider, raw_tag, None, now)
    }

    /// Sets or clears the display name of the first subscription with id
    /// `id`. Passing `None` (or an empty/whitespace string) clears the alias.
    /// Returns the updated subscription, or `None` when there is none with
    /// that id (and the file is unchanged).
    pub fn update_display_name(&mut self, id: &str, display_name: Option<String>) -> (r: Option<
        Subscription,
    >)
        ensures
            final(self).version == old(self).version,
            match first_with_id(old(self).subscriptions@, id@, 0) {
                Some(i) => r matches Some(u) && opt_view(u.display_name) == normalized_display_name(
                    opt_view(display_name),
                ) && u == (Subscription {
                    display_name: u.display_name,
                    ..old(self).subscriptions@[i]
                }) && final(self).subscriptions@ == old(self).subscriptions@.update(i, u),
                None => r is None && final(self).subscriptions@ == old(self).subscriptions@,
            },
    {
        let normalized = normalize_display_name(display_name);
        match self.find_index(id) {
            Some(i) => {
                let mut s = self.subscriptions[i].duplicate();
                s.display_name = normalized;
                let copy = s.duplicate();
                self.subscriptions.set(i, s);
                Some(copy)
            },
            None => None,
        }
    }

    /// Removes every subscription with id `id`; `true` when one was there.
    pub fn remove(&mut self, id: &str) -> (removed: bool)
        ensures
            final(self).version == old(self).version,
            final(self).subscriptions@ == without_id(old(self).subscriptions@, id@),
            removed == (final(self).subscriptions@.len() < old(self).subscriptions@.len()),
            removed == exists|j: int|
                0 <= j < old(self).subscriptions@.len() && (
                #[trigger] old(self).subscriptions@[j]).id@ == id@,
    {
        let ghost old_subs = self.subscriptions@;
        let mut kept: Vec<Subscription> = Vec::new();
        let mut i: usize = 0;
        while i < self.subscriptions.len()
            invariant
                i <= self.subscriptions@.len(),
                self.subscriptions@ == old_subs,
                kept@ == without_id(old_subs.take(i as int), id@),
                (kept@.len() < i) == (exists|j: int| 0 <= j < i && (#[trigger] old_subs[j]).id@ == id@),
                kept@.len() <= i,
            decreases self.subscriptions.len() - i,
        {
            assert(old_subs.take(i + 1).drop_last() =~= old_subs.take(i as int));
            assert(old_subs.take(i + 1).last() == old_subs[i as int]);
            if !str_eq(self.subscriptions[i].id.as_str(), id) {
                kept.push(self.subscriptions[i].duplicate());
                assert forall|j: int| 0 <= j < i + 1 && (#[trigger] old_subs[j]).id@ == id@ implies j
                    < i by {}
            } else {
                assert(old_subs[i as int].id@ == id@);
            }
            i = i + 1;
        }
        assert(old_subs.take(i as int) =~= old_subs);
        let removed = kept.len() < self.subscriptions.len();
        self.subscriptions = kept;
        removed
    }

    /// Records a run at `now` without touching the baseline, on the first
    /// subscription with id `id`; `false` (and no change) when there is none.
    /// Used for downloads of user-picked posts, which must not move the
    /// incremental baseline.
    pub fn touch_last_run_at(&mut self, id: &str, now: i64) -> (found: bool)
        ensures
            final(self).version == old(self).version,
            match first_with_id(old(self).subscriptions@, id@, 0) {
                Some(i) => found && final(self).subscriptions@ == old(self).subscriptions@.update(
                    i,
                    Subscription { last_run_at: Some(now), ..old(self).subscriptions@[i] },
                ),
                None => !found && final(self).subscriptions@ == old(self).subscriptions@,
            },
    {
        match self.find_index(id) {
            Some(i) => {
                let mut s = self.subscriptions[i].duplicate();
                s.last_run_at = Some(now);
                self.subscriptions.set(i, s);
                true
            },
            None => false,
        }
    }

    /// Post-run bookkeeping at `now` on the first subscription with id `id`:
    /// the run time is set, and the baseline only ever advances (the larger
    /// of the old one and `safe_last_post_id`).
    pub fn update_after_run(&mut self, id: &str, safe_last_post_id: i64, now: i64) -> (found:
        bool)
        ensures
            final(self).version == old(self).version,
            match first_with_id(old(self).subscriptions@, id@, 0) {
                Some(i) => found && final(self).subscriptions@ == old(self).subscriptions@.update(
                    i,
                    Subscription {
                        last_run_at: Some(now),
                        last_seen_post_id: if safe_last_post_id > old(self).subscriptions@[i].last_seen_post_id {
                            safe_last_post_id
                        } else {
                            old(self).subscriptions@[i].last_seen_post_id
                        },
                        ..old(self).subscriptions@[i]
                    },
                ),
                None => !found && final(self).subscriptions@ == old(self).subscriptions@,
            },
    {
        match self.find_index(id) {
            Some(i) => {
                let mut s = self.subscriptions[i].duplicate();
                s.last_run_at = Some(now);
                if safe_last_post_id > s.last_seen_post_id {
                    s.last_seen_post_id = safe_last_post_id;
                }
                self.subscriptions.set(i, s);
                true
            },
            None => false,
        }
    }

    /// The export file: version 1 and, per subscription, its provider, tag
    /// and display name, in order.
    pub fn to_export(&self) -> (r: ExportFile)
        ensures
            r.version == 1,
            r.subscriptions@.len() == self.subscriptions@.len(),
            forall|i: int|
                0 <= i < self.subscriptions@.len() ==> portable_export(#[trigger] r.subscriptions@[i])
                    == portable(self.subscriptions@[i]),
    {
        let mut out: Vec<ExportSubscription> = Vec::new();
        let mut i: usize = 0;
        while i < self.subscriptions.len()
            invariant
                i <= self.subscriptions@.len(),
                out@.len() == i,
                forall|k: int|
                    0 <= k < i ==> portable_export(#[trigger] out@[k]) == portable(
                        self.subscriptions@[k],
                    ),
            decreases self.subscriptions.len() - i,
        {
            let s = &self.subscriptions[i];
            out.push(
                ExportSubscription {
                    provider: s.provider.clone(),
                    tag: s.tag.clone(),
                    display_name: match &s.display_name {
                        Some(d) => Some(d.clone()),
                        None => None,
                    },
                },
            );
            i = i + 1;
        }
        ExportFile { version: 1, subscriptions: out }
    }

    /// Combines imported subscriptions with the current ones. `Replace`
    /// swaps everything; `Merge` appends each imported subscription whose
    /// key is not there yet and skips the rest.
    pub fn import(&mut self, imported: Vec<Subscription>, mode: ImportMode) -> (r: ImportReport)
        ensures
            final(self).version == old(self).version,
            mode == ImportMode::Replace ==> final(self).subscriptions@ == imported@ && r == (
            ImportReport {
                added: imported@.len() as usize,
                skipped: 0,
                removed: old(self).subscriptions@.len() as usize,
            }),
            mode == ImportMode::Merge ==> final(self).subscriptions@ == merged(
                old(self).subscriptions@,
                imported@,
            ) && r.removed == 0 && r.added + r.skipped == imported@.len() && r.added
                == final(self).subscriptions@.len() - old(self).subscriptions@.len(),
    {
        match mode {
            ImportMode::Replace => {
                let removed = self.subscriptions.len();
                let added = imported.len();
                self.subscriptions = imported;
                ImportReport { added, skipped: 0, removed }
            },
            ImportMode::Merge => {
                let ghost start = self.subscriptions@;
                let ghost version = self.version;
                let mut report = ImportReport { added: 0, skipped: 0, removed: 0 };
                let mut i: usize = 0;
                while i < imported.len()
                    invariant
                        i <= imported@.len(),
                        self.subscriptions@ == merged(start, imported@.take(i as int)),
                        self.version == version,
                        report.removed == 0,
                        report.added + report.skipped == i,
                        report.added == self.subscriptions@.len() - start.len(),
                    decreases imported.len() - i,
                {
                    let s = &imported[i];
                    assert(imported@.take(i + 1).drop_last() =~= imported@.take(i as int));
                    match self.find_key(s.provider.as_str(), s.normalized_tag.as_str()) {
                        Some(_) => {
                            report.skipped = report.skipped + 1;
                        },
                        None => {
                            self.subscriptions.push(s.duplicate());
                            report.added = report.added + 1;
                        },
                    }
                    i = i + 1;
                }
                assert(imported@.take(i as int) =~= imported@);
                report
            },
        }
    }
}

/// The fresh subscriptions for the entries of an export file, in order
/// (new ids, no run, baseline 0).
pub fn subscriptions_from_export(file: &ExportFile, now: i64) -> (r: Vec<Subscription>)
    ensures
        r@.len() == file.subscriptions@.len(),
        forall|i: int|
            0 <= i < r@.len() ==> fresh_subscription(
                #[trigger] r@[i],
                file.subscriptions@[i].provider@,
                file.subscriptions@[i].tag@,
                opt_view(file.subscriptions@[i].display_name),
            ) && r@[i].created_at == now,
{
    let mut out: Vec<Subscription> = Vec::new();
    let mut i: usize = 0;
    while i < file.subscriptions.len()
        invariant
            i <= file.subscriptions@.len(),
            out@.len() == i,
            forall|k: int|
                0 <= k < i ==> fresh_subscription(
                    #[trigger] out@[k],
                    file.subscriptions@[k].provider@,
                    file.subscriptions@[k].tag@,
                    opt_view(file.subscriptions@[k].display_name),
                ) && out@[k].created_at == now,
        decreases file.subscriptions.len() - i,
    {
        let e = &file.subscriptions[i];
        let d = match &e.display_name {
            Some(x) => Some(x.clone()),
            None => None,
        };
        out.push(Subscription::new_with_display_name(e.provider.as_str(), e.tag.as_str(), d, now));
        i = i + 1;
    }
    out
}

/// The fresh subscriptions for the entries of a full `tags.json` (the
/// older export shape): only provider, tag and display name are kept.
pub fn subscriptions_from_tags_file(file: &TagsFile, now: i64) -> (r: Vec<Subscription>)
    ensures
        r@.len() == file.subscriptions@.len(),
        forall|i: int|
            0 <= i < r@.len() ==> fresh_subscription(
                #[trigger] r@[i],
                file.subscriptions@[i].provider@,
                file.subscriptions@[i].tag@,
                opt_view(file.subscriptions@[i].display_name),
            ) && r@[i].created_at == now,
{
    let mut out: Vec<Subscription> = Vec::new();
    let mut i: usize = 0;
    while i < file.subscriptions.len()
        invariant
            i <= file.subscriptions@.len(),
            out@.len() == i,
            forall|k: int|
                0 <= k < i ==> fresh_subscription(
                    #[trigger] out@[k],
                    file.subscriptions@[k].provider@,
                    file.subscriptions@[k].tag@,
                    opt_view(file.subscriptions@[k].display_name),
                ) && out@[k].created_at == now,
        decreases file.subscriptions.len() - i,
    {
        let e = &file.subscriptions[i];
        let d = match &e.display_name {
            Some(x) => Some(x.clone()),
            None => None,
        };
        out.push(Subscription::new_with_display_name(e.provider.as_str(), e.tag.as_str(), d, now));
        i = i + 1;
    }
    out
}

/// The name a corrupted `tags.json` is moved to: `tags.json.broken.<ts>`.
pub fn broken_backup_name(ts: i64) -> (r: String)
    ensures
        r@ == "tags.json.broken."@ + decimal_text(ts as int),
{
    let mut r = String::from_str("tags.json.broken.");
    let d = int_to_decimal(ts);
    r.append(d.as_str());
    r
}

// ---------------------------------------------------------------------------
// Settings
// ---------------------------------------------------------------------------

/// The contents of `settings.json`.
#[derive(Debug, Clone)]
pub struct Settings {
    pub version: u32,
    /// The download root's path text; `None` until the user picks one.
    pub download_root: Option<String>,
    pub concurrency: u32,
    pub min_delay_ms: u64,
    /// Subset of `["safe", "questionable", "explicit"]`.
    pub default_ratings: Vec<String>,
    /// `"dark"` | `"light"` | `"system"`.
    pub theme: String,
    pub age_confirmed: bool,
    pub blacklist: Vec<String>,
}

impl Default for Settings {
    /// Safe-only, dark, three downloads at once 300 ms apart, no root yet,
    /// age not confirmed, empty blacklist.
    fn default() -> (r: Self)
        ensures
            r.version == 1,
            r.download_root is None,
            r.concurrency == 3,
            r.min_delay_ms == 300,
            r.default_ratings@.map_values(|x: String| x@) == seq!["safe"@],
            r.theme@ == "dark"@,
            !r.age_confirmed,
            r.blacklist@.len() == 0,
    {
        let mut default_ratings = Vec::new();
        default_ratings.push(String::from_str("safe"));
        assert(default_ratings@.map_values(|x: String| x@) =~= seq!["safe"@]);
        Settings {
            version: 1,
            download_root: None,
            concurrency: 3,
            min_delay_ms: 300,
            default_ratings,
            theme: String::from_str("dark"),
            age_confirmed: false,
            blacklist: Vec::new(),
        }
    }
}

// ---------------------------------------------------------------------------
// Laws
// ---------------------------------------------------------------------------

/// Adding a subscription whose key is not there yet keeps the keys unique:
/// `add` never creates a second subscription for a (provider, normalized
/// tag).
pub proof fn law_add_keeps_keys_unique(subs: Seq<Subscription>, s: Subscription)
    requires
        unique_keys(subs),
        first_with_key(subs, s.provider@, s.normalized_tag@, 0) is None,
    ensures
        unique_keys(subs.push(s)),
{
    lemma_first_with_key(subs, s.provider@, s.normalized_tag@, 0);
    let t = subs.push(s);
    assert forall|i: int, j: int| 0 <= i < j < t.len() implies !same_key(
        #[trigger] t[i],
        #[trigger] t[j].provider@,
        t[j].normalized_tag@,
    ) by {
        if j == subs.len() {
            assert(t[j] == s);
            assert(t[i] == subs[i]);
        } else {
            assert(t[i] == subs[i] && t[j] == subs[j]);
        }
    }
}

/// A merge keeps the current subscriptions first and in order, keeps the
/// keys unique, and leaves every imported key present.
pub proof fn law_merge(current: Seq<Subscription>, imported: Seq<Subscription>)
    requires
        unique_keys(current),
    ensures
        unique_keys(merged(current, imported)),
        merged(current, imported).len() >= current.len(),
        merged(current, imported).take(current.len() as int) == current,
        forall|k: int|
            0 <= k < imported.len() ==> first_with_key(
                merged(current, imported),
                (#[trigger] imported[k]).provider@,
                imported[k].normalized_tag@,
                0,
            ) is Some,
    decreases imported.len(),
{
    if imported.len() > 0 {
        let rest = imported.drop_last();
        law_merge(current, rest);
        let prev = merged(current, rest);
        let s = imported.last();
        lemma_first_with_key(prev, s.provider@, s.normalized_tag@, 0);
        let m = merged(current, imported);
        if first_with_key(prev, s.provider@, s.normalized_tag@, 0) is None {
            law_add_keeps_keys_unique(prev, s);
            assert(m == prev.push(s));
            assert(m.take(current.len() as int) =~= prev.take(current.len() as int));
        } else {
            assert(m == prev);
        }
        assert forall|k: int| 0 <= k < imported.len() implies first_with_key(
            m,
            (#[trigger] imported[k]).provider@,
            imported[k].normalized_tag@,
            0,
        ) is Some by {
            let e = imported[k];
            if k < imported.len() - 1 {
                assert(rest[k] == e);
                lemma_first_with_key(prev, e.provider@, e.normalized_tag@, 0);
                let i = first_with_key(prev, e.provider@, e.normalized_tag@, 0)->0;
                lemma_first_with_key(m, e.provider@, e.normalized_tag@, 0);
                assert(m[i] == prev[i]);
            } else {
                lemma_first_with_key(m, e.provider@, e.normalized_tag@, 0);
                if first_with_key(prev, s.provider@, s.normalized_tag@, 0) is None {
                    assert(m[m.len() - 1] == s);
                } else {
                    let i = first_with_key(prev, s.provider@, s.normalized_tag@, 0)->0;
                    assert(m[i] == prev[i]);
                }
            }
        }
    }
}

/// A subscription as `Subscription::new*` makes it has a trimmed tag and a
/// normalized alias.
pub proof fn law_fresh_subscription_is_normalized(
    s: Subscription,
    provider: Seq<char>,
    raw_tag: Seq<char>,
    display_name: Option<Seq<char>>,
)
    requires
        fresh_subscription(s, provider, raw_tag, display_name),
    ensures
        s.tag@ == trim_ws(s.tag@),
        opt_view(s.display_name) == normalized_display_name(opt_view(s.display_name)),
{
    lemma_trim_idempotent(raw_tag);
    match display_name {
        Some(d) => {
            lemma_trim_idempotent(d);
        },
        None => {},
    }
}

/// Export then import: a subscription whose tag is trimmed and whose alias
/// is normalized (every one that `Subscription::new*` made, by
/// `law_fresh_subscription_is_normalized`) comes back with the same
/// provider, tag and display name, and with its bookkeeping reset (new id,
/// no run, baseline 0).
pub proof fn law_export_import_roundtrip(s: Subscription, e: ExportSubscription, t: Subscription)
    requires
        s.tag@ == trim_ws(s.tag@),
        opt_view(s.display_name) == normalized_display_name(opt_view(s.display_name)),
        portable_export(e) == portable(s),
        fresh_subscription(t, e.provider@, e.tag@, opt_view(e.display_name)),
    ensures
        portable(t) == portable(s),
        t.last_seen_post_id == 0,
        t.last_run_at is None,
{
}

} // verus!
