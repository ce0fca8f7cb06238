//! The Moebooru board adapter (Yande.re, Konachan): query text, response
//! classification and post normalization. The HTTP exchange itself is the
//! caller's.

use vstd::prelude::*;

use crate::error::CoreError;
use crate::model::{
    rating_of_code, short_code, Capabilities, ImageVariant, Post, PostVariants, Rating,
    SearchQuery,
};
use crate::text::{
    decimal_text, int_to_decimal, is_whitespace_char, is_ws, owned, parse_u64, parse_u64_text,
    push_char,
};

verus! {

/// A Moebooru board.
#[derive(Debug, Clone)]
pub struct MoebooruProvider {
    pub id: String,
    pub display_name: String,
    pub base_url: String,
}

/// Results per page that a Moebooru board serves at most.
pub open spec fn moebooru_page_max() -> u32 {
    100
}

/// One search part per entry, joined by single spaces.
pub open spec fn join_spaced(parts: Seq<Seq<char>>) -> Seq<char>
    decreases parts.len(),
{
    if parts.len() == 0 {
        Seq::empty()
    } else if parts.len() == 1 {
        parts[0]
    } else {
        join_spaced(parts.drop_last()) + " "@ + parts.last()
    }
}

/// `rating:<code>` for each rating.
pub open spec fn rating_parts(ratings: Seq<Rating>) -> Seq<Seq<char>> {
    ratings.map_values(|r: Rating| "rating:"@ + short_code(r))
}

/// The ratings of `rs`, each once, in the order of their first listing.
pub open spec fn distinct_ratings(rs: Seq<Rating>) -> Seq<Rating>
    decreases rs.len(),
{
    if rs.len() == 0 {
        Seq::empty()
    } else {
        let prev = distinct_ratings(rs.drop_last());
        if prev.contains(rs.last()) {
            prev
        } else {
            prev.push(rs.last())
        }
    }
}

/// The parts of the Moebooru tag query: the tags, then one `rating:`
/// filter per distinct listed rating when the list names a strict subset of
/// the three ratings (one or two of them; naming none or all three adds no
/// filter), then the score, width and height minimums.
pub open spec fn tag_parts(q: SearchQuery) -> Seq<Seq<char>> {
    q.tags@.map_values(|t: String| t@) + (if 0 < distinct_ratings(q.ratings@).len() < 3 {
        rating_parts(distinct_ratings(q.ratings@))
    } else {
        Seq::empty()
    }) + match q.min_score {
        Some(s) => seq!["score:>="@ + decimal_text(s as int)],
        None => Seq::empty(),
    } + match q.min_width {
        Some(w) => seq!["width:>="@ + decimal_text(w as int)],
        None => Seq::empty(),
    } + match q.min_height {
        Some(h) => seq!["height:>="@ + decimal_text(h as int)],
        None => Seq::empty(),
    }
}

/// The tag query text of a search.
pub open spec fn tag_string(q: SearchQuery) -> Seq<char> {
    join_spaced(tag_parts(q))
}

/// The ratings of `rs`, each once, in the order of their first listing.
fn distinct_of(rs: &Vec<Rating>) -> (d: Vec<Rating>)
    ensures
        d@ == distinct_ratings(rs@),
{
    let mut d: Vec<Rating> = Vec::new();
    let mut i: usize = 0;
    while i < rs.len()
        invariant
            i <= rs@.len(),
            d@ == distinct_ratings(rs@.take(i as int)),
        decreases rs.len() - i,
    {
        let r = rs[i];
        assert(rs@.take(i + 1).drop_last() =~= rs@.take(i as int));
        let mut found = false;
        let mut k: usize = 0;
        while k < d.len()
            invariant
                k <= d@.len(),
                found == exists|m: int| 0 <= m < k && d@[m] == r,
            decreases d.len() - k,
        {
            if d[k] == r {
                found = true;
            }
            k = k + 1;
        }
        if !found {
            d.push(r);
        }
        i = i + 1;
    }
    assert(rs@.take(i as int) =~= rs@);
    d
}

/// Appends one part to a space-joined text.
fn append_part(out: &mut String, parts: Ghost<Seq<Seq<char>>>, first: bool, part: &str)
    requires
        old(out)@ == join_spaced(parts@),
        first == (parts@.len() == 0),
    ensures
        final(out)@ == join_spaced(parts@.push(part@)),
{
    let ghost p2 = parts@.push(part@);
    assert(p2.drop_last() =~= parts@);
    if first {
        assert(out@ =~= Seq::<char>::empty());
        out.append(part);
    } else {
        out.append(" ");
        out.append(part);
    }
    assert(out@ =~= join_spaced(p2));
}

/// Whether a splitting state has a word in progress, in the splitter of
/// `str::split_whitespace`.
pub open spec fn split_scan(s: Seq<char>) -> (Seq<Seq<char>>, Seq<char>)
    decreases s.len(),
{
    if s.len() == 0 {
        (Seq::empty(), Seq::empty())
    } else {
        let (words, cur) = split_scan(s.drop_last());
        let c = s.last();
        if is_ws(c) {
            if cur.len() > 0 {
                (words.push(cur), Seq::empty())
            } else {
                (words, Seq::empty())
            }
        } else {
            (words, cur.push(c))
        }
    }
}

/// `str::split_whitespace`: the maximal runs of non-whitespace characters.
pub open spec fn words_of(s: Seq<char>) -> Seq<Seq<char>> {
    let (words, cur) = split_scan(s);
    if cur.len() > 0 {
        words.push(cur)
    } else {
        words
    }
}

/// `image/<ext>`.
pub open spec fn image_mime(ext: Seq<char>) -> Seq<char> {
    "image/"@ + ext
}

/// A post as the board's `post.json` lists it.
#[derive(Debug, Clone)]
pub struct MoebooruRawPost {
    pub id: i64,
    pub md5: String,
    pub rating: String,
    pub score: i32,
    pub width: u32,
    pub height: u32,
    pub tags: String,
    pub file_url: String,
    pub file_size: Option<u64>,
    pub file_ext: Option<String>,
    pub jpeg_url: Option<String>,
    pub jpeg_width: Option<u32>,
    pub jpeg_height: Option<u32>,
    pub jpeg_file_size: Option<u64>,
    pub sample_url: Option<String>,
    pub sample_width: Option<u32>,
    pub sample_height: Option<u32>,
    pub sample_file_size: Option<u64>,
    pub preview_url: String,
    pub preview_width: Option<u32>,
    pub preview_height: Option<u32>,
    pub source: Option<String>,
    pub created_at: Option<i64>,
    pub author: Option<String>,
    /// Every other field of the response, as its name and JSON text.
    pub extra: Vec<(String, String)>,
}

/// The words of `s`, split on whitespace.
pub fn split_whitespace(s: &str) -> (r: Vec<String>)
    ensures
        r@.map_values(|t: String| t@) == words_of(s@),
{
    let mut words: Vec<String> = Vec::new();
    let mut cur = String::new();
    let mut i: usize = 0;
    let ghost mut done: Seq<char> = Seq::empty();
    for c in it: s.chars()
        invariant
            done == it.seq().take(it.index() as int),
            words@.map_values(|t: String| t@) == split_scan(done).0,
            cur@ == split_scan(done).1,
    {
        let ghost prev = done;
        proof {
            done = done.push(c);
            assert(done.drop_last() =~= prev);
        }
        if is_whitespace_char(c) {
            if !cur.as_str().is_empty() {
                let ghost before = words@;
                words.push(cur);
                assert(words@.map_values(|t: String| t@) =~= before.map_values(|t: String| t@).push(
                    split_scan(prev).1,
                ));
            }
            cur = String::new();
        } else {
            push_char(&mut cur, c);
        }
        assert(it.seq().take(it.index() + 1) =~= prev.push(c));
    }
    assert(done =~= s@);
    if !cur.as_str().is_empty() {
        let ghost before = words@;
        words.push(cur);
        assert(words@.map_values(|t: String| t@) =~= before.map_values(|t: String| t@).push(
            split_scan(s@).1,
        ));
    }
    words
}

impl MoebooruProvider {
    /// Yande.re.
    pub fn yandere() -> (r: Self)
        ensures
            r.id@ == "yande"@,
            r.display_name@ == "Yande.re"@,
            r.base_url@ == "https://yande.re"@,
    {
        MoebooruProvider {
            id: String::from_str("yande"),
            display_name: String::from_str("Yande.re"),
            base_url: String::from_str("https://yande.re"),
        }
    }

    /// Konachan.
    pub fn konachan() -> (r: Self)
        ensures
            r.id@ == "konachan"@,
            r.display_name@ == "Konachan"@,
            r.base_url@ == "https://konachan.com"@,
    {
        MoebooruProvider {
            id: String::from_str("konachan"),
            display_name: String::from_str("Konachan"),
            base_url: String::from_str("https://konachan.com"),
        }
    }

    /// A board at another base URL (a mirror, or a test server).
    pub fn with_base_url(id: String, display_name: String, base_url: String) -> (r: Self)
        ensures
            r.id == id,
            r.display_name == display_name,
            r.base_url == base_url,
    {
        MoebooruProvider { id, display_name, base_url }
    }

    /// The board's id.
    pub fn id(&self) -> (r: &str)
        ensures
            r@ == self.id@,
    {
        self.id.as_str()
    }

    /// The board's name for display.
    pub fn display_name(&self) -> (r: &str)
        ensures
            r@ == self.display_name@,
    {
        self.display_name.as_str()
    }

    /// Moebooru serves up to 100 posts per page, with MD5s, newest first.
    pub fn capabilities(&self) -> (r: Capabilities)
        ensures
            r == (Capabilities {
                max_results_per_page: moebooru_page_max(),
                uses_md5: true,
                default_sort_desc_by_id: true,
            }),
    {
        Capabilities { max_results_per_page: 100, uses_md5: true, default_sort_desc_by_id: true }
    }

    /// The tag query text: tags, one `rating:` filter per distinct listed
    /// rating (only when they are a strict subset of the three),
    /// `score:>=`, `width:>=`, `height:>=`, joined by spaces.
    pub fn build_tag_string(query: &SearchQuery) -> (r: String)
        ensures
            r@ == tag_string(*query),
    {
        let mut out = String::new();
        let ghost mut parts: Seq<Seq<char>> = Seq::empty();
        let mut first = true;
        let mut i: usize = 0;
        while i < query.tags.len()
            invariant
                i <= query.tags@.len(),
                parts == query.tags@.map_values(|t: String| t@).take(i as int),
                out@ == join_spaced(parts),
                first == (parts.len() == 0),
            decreases query.tags.len() - i,
        {
            append_part(&mut out, Ghost(parts), first, query.tags[i].as_str());
            proof {
                parts = parts.push(query.tags@[i as int]@);
                assert(parts =~= query.tags@.map_values(|t: String| t@).take(i + 1));
            }
            first = false;
            i = i + 1;
        }
        assert(parts =~= query.tags@.map_values(|t: String| t@));
        let ghost base = parts;
        let distinct = distinct_of(&query.ratings);
        if distinct.len() > 0 && distinct.len() < 3 {
            let mut j: usize = 0;
            while j < distinct.len()
                invariant
                    j <= distinct@.len(),
                    distinct@ == distinct_ratings(query.ratings@),
                    parts == base + rating_parts(distinct@).take(j as int),
                    out@ == join_spaced(parts),
                    first == (parts.len() == 0),
                decreases distinct.len() - j,
            {
                let mut part = String::from_str("rating:");
                part.append(distinct[j].to_short());
                append_part(&mut out, Ghost(parts), first, part.as_str());
                proof {
                    parts = parts.push(part@);
                    assert(parts =~= base + rating_parts(distinct@).take(j + 1));
                }
                first = false;
                j = j + 1;
            }
            assert(rating_parts(distinct@).take(j as int) =~= rating_parts(distinct@));
        } else {
            assert(parts =~= base + Seq::<Seq<char>>::empty());
        }
        let ghost with_ratings = parts;
        match query.min_score {
            Some(s) => {
                let mut part = String::from_str("score:>=");
                let d = int_to_decimal(s as i64);
                part.append(d.as_str());
                append_part(&mut out, Ghost(parts), first, part.as_str());
                proof {
                    parts = parts.push(part@);
                }
                first = false;
            },
            None => {},
        }
        let ghost with_score = parts;
        match query.min_width {
            Some(w) => {
                let mut part = String::from_str("width:>=");
                let d = int_to_decimal(w as i64);
                part.append(d.as_str());
                append_part(&mut out, Ghost(parts), first, part.as_str());
                proof {
                    parts = parts.push(part@);
                }
                first = false;
            },
            None => {},
        }
        let ghost with_width = parts;
        match query.min_height {
            Some(h) => {
                let mut part = String::from_str("height:>=");
                let d = int_to_decimal(h as i64);
                part.append(d.as_str());
                append_part(&mut out, Ghost(parts), first, part.as_str());
                proof {
                    parts = parts.push(part@);
                }
                first = false;
            },
            None => {},
        }
        assert(parts =~= tag_parts(*query));
        out
    }

    /// Posts per request: the query's limit, within 1 and the page maximum.
    pub fn search_limit(&self, query: &SearchQuery) -> (r: u32)
        ensures
            r == if query.limit > moebooru_page_max() {
                moebooru_page_max()
            } else if query.limit < 1 {
                1
            } else {
                query.limit
            },
    {
        let capped = if query.limit < 100 {
            query.limit
        } else {
            100
        };
        if capped > 1 {
            capped
        } else {
            1
        }
    }

    /// The URL of the post list: `<base_url>/post.json`.
    pub fn post_list_url(&self) -> (r: String)
        ensures
            r@ == self.base_url@ + "/post.json"@,
    {
        let mut r = owned(self.base_url.as_str());
        r.append("/post.json");
        r
    }

    /// Turns a listed post into a [`Post`]: an unknown rating code reads as
    /// `Safe`, the tag text is split on whitespace, the original's MIME type
    /// is `image/<file_ext>`, and the jpeg variant's is `image/jpeg`.
    pub fn normalize(&self, r: MoebooruRawPost) -> (p: Post)
        ensures
            p.provider_id@ == self.id@,
            p.post_id == r.id,
            p.md5 == r.md5,
            p.rating == match rating_of_code(r.rating@) {
                Some(x) => x,
                None => Rating::Safe,
            },
            p.score == r.score,
            p.width == r.width,
            p.height == r.height,
            p.tags@.map_values(|t: String| t@) == words_of(r.tags@),
            p.artist == r.author,
            p.source_url == r.source,
            p.created_at == r.created_at,
            p.variants.original.url == r.file_url,
            p.variants.original.width == Some(r.width),
            p.variants.original.height == Some(r.height),
            p.variants.original.size_bytes == r.file_size,
            match r.file_ext {
                Some(e) => p.variants.original.mime matches Some(m) && m@ == image_mime(e@),
                None => p.variants.original.mime is None,
            },
            p.variants.preview.url == r.preview_url,
            p.variants.preview.width == r.preview_width,
            p.variants.preview.height == r.preview_height,
            p.variants.preview.size_bytes is None,
            p.variants.preview.mime is None,
            match r.sample_url {
                Some(u) => p.variants.sample matches Some(v) && v.url == u && v.width
                    == r.sample_width && v.height == r.sample_height && v.size_bytes
                    == r.sample_file_size && v.mime is None,
                None => p.variants.sample is None,
            },
            match r.jpeg_url {
                Some(u) => p.variants.jpeg matches Some(v) && v.url == u && v.width
                    == r.jpeg_width && v.height == r.jpeg_height && v.size_bytes
                    == r.jpeg_file_size && (v.mime matches Some(m) && m@ == "image/jpeg"@),
                None => p.variants.jpeg is None,
            },
            p.extra == r.extra,
    {
        let rating = match Rating::from_moebooru_code(r.rating.as_str()) {
            Some(x) => x,
            None => Rating::Safe,
        };
        let tags = split_whitespace(r.tags.as_str());
        let mime = match &r.file_ext {
            Some(e) => {
                let mut m = String::from_str("image/");
                m.append(e.as_str());
                Some(m)
            },
            None => None,
        };
        let sample = match r.sample_url {
            Some(url) => Some(
                ImageVariant {
                    url,
                    width: r.sample_width,
                    height: r.sample_height,
                    size_bytes: r.sample_file_size,
                    mime: None,
                },
            ),
            None => None,
        };
        let jpeg = match r.jpeg_url {
            Some(url) => Some(
                ImageVariant {
                    url,
                    width: r.jpeg_width,
                    height: r.jpeg_height,
                    size_bytes: r.jpeg_file_size,
                    mime: Some(String::from_str("image/jpeg")),
                },
            ),
            None => None,
        };
        Post {
            provider_id: owned(self.id.as_str()),
            post_id: r.id,
            md5: r.md5,
            rating,
            score: r.score,
            width: r.width,
            height: r.height,
            tags,
            artist: r.author,
            source_url: r.source,
            created_at: r.created_at,
            variants: PostVariants {
                original: ImageVariant {
                    url: r.file_url,
                    width: Some(r.width),
                    height: Some(r.height),
                    size_bytes: r.file_size,
                    mime,
                },
                preview: ImageVariant {
                    url: r.preview_url,
                    width: r.preview_width,
                    height: r.preview_height,
                    size_bytes: None,
                    mime: None,
                },
                sample,
                jpeg,
            },
            extra: r.extra,
        }
    }
}

/// The query parameters of one page request: `tags`, `page`, `limit`.
pub fn page_params(tag_str: &str, page: u32, limit: u32) -> (r: Vec<(String, String)>)
    ensures
        r@.len() == 3,
        r@[0].0@ == "tags"@ && r@[0].1@ == tag_str@,
        r@[1].0@ == "page"@ && r@[1].1@ == decimal_text(page as int),
        r@[2].0@ == "limit"@ && r@[2].1@ == decimal_text(limit as int),
{
    let mut r: Vec<(String, String)> = Vec::new();
    r.push((String::from_str("tags"), owned(tag_str)));
    r.push((String::from_str("page"), int_to_decimal(page as i64)));
    r.push((String::from_str("limit"), int_to_decimal(limit as i64)));
    r
}

/// How a response status is read: 429 is `RateLimited` with the
/// `Retry-After` header's whole seconds (when it is a plain number), any
/// other status outside 200..=299 is `Server`, and a success is `Ok`.
pub open spec fn response_verdict(status: u16, retry_after: Option<Seq<char>>) -> Result<(), CoreError> {
    if status == 429 {
        Err(
            CoreError::RateLimited {
                retry_after_secs: match retry_after {
                    Some(t) => parse_u64_text(t),
                    None => None,
                },
            },
        )
    } else if !(200 <= status <= 299) {
        Err(CoreError::Server { status })
    } else {
        Ok(())
    }
}

/// Reads the status of a `post.json` response (and its `Retry-After`
/// header text, when present).
pub fn classify_response(status: u16, retry_after: Option<&str>) -> (r: Result<(), CoreError>)
    ensures
        r == response_verdict(
            status,
            match retry_after {
                Some(t) => Some(t@),
                None => None,
            },
        ),
{
    if status == 429 {
        let secs = match retry_after {
            Some(t) => parse_u64(t),
            None => None,
        };
        Err(CoreError::RateLimited { retry_after_secs: secs })
    } else if !(200 <= status && status <= 299) {
        Err(CoreError::Server { status })
    } else {
        Ok(())
    }
}

/// The tag query begins with every tag of the query, in order, each as a
/// part of its own; with no ratings and no minimums it is exactly the tags.
pub proof fn law_query_starts_with_the_tags(q: SearchQuery)
    ensures
        tag_parts(q).len() >= q.tags@.len(),
        forall|i: int| 0 <= i < q.tags@.len() ==> #[trigger] tag_parts(q)[i] == q.tags@[i]@,
        q.ratings@.len() == 0 && q.min_score is None && q.min_width is None && q.min_height is None
            ==> tag_parts(q).len() == q.tags@.len(),
{
    let t = q.tags@.map_values(|t: String| t@);
    assert forall|i: int| 0 <= i < q.tags@.len() implies #[trigger] tag_parts(q)[i] == q.tags@[i]@ by {
        assert(t[i] == q.tags@[i]@);
    }
    if q.ratings@.len() == 0 {
        assert(distinct_ratings(q.ratings@).len() == 0);
    }
}

/// A query of two tags and nothing else is the two tags joined by one
/// space.
pub proof fn law_two_tags_query(q: SearchQuery)
    requires
        q.tags@.len() == 2,
        q.ratings@.len() == 0,
        q.min_score is None,
        q.min_width is None,
        q.min_height is None,
    ensures
        tag_string(q) == q.tags@[0]@ + " "@ + q.tags@[1]@,
{
    law_query_starts_with_the_tags(q);
    let p = tag_parts(q);
    assert(p.len() == 2);
    assert(p.drop_last().len() == 1);
    assert(p.drop_last()[0] == p[0]);
    assert(join_spaced(p.drop_last()) == p[0]);
}

/// A list that names a single rating, however often, lists it once.
proof fn lemma_distinct_of_one(rs: Seq<Rating>, r: Rating)
    requires
        rs.len() > 0,
        forall|i: int| 0 <= i < rs.len() ==> #[trigger] rs[i] == r,
    ensures
        distinct_ratings(rs) == seq![r],
    decreases rs.len(),
{
    let t = rs.drop_last();
    assert(rs.last() == rs[rs.len() - 1]);
    if t.len() > 0 {
        assert forall|i: int| 0 <= i < t.len() implies #[trigger] t[i] == r by {
            assert(t[i] == rs[i]);
        }
        lemma_distinct_of_one(t, r);
        assert(seq![r].contains(r)) by {
            assert(seq![r][0] == r);
        }
    } else {
        assert(distinct_ratings(t) == Seq::<Rating>::empty());
        assert(distinct_ratings(rs) =~= seq![r]);
    }
}

/// A query that lists one rating, however often, filters on that rating:
/// right after the tags comes `rating:<code>`, once.
pub proof fn law_single_rating_filters(q: SearchQuery, r: Rating)
    requires
        q.ratings@.len() > 0,
        forall|i: int| 0 <= i < q.ratings@.len() ==> #[trigger] q.ratings@[i] == r,
    ensures
        tag_parts(q).len() > q.tags@.len(),
        tag_parts(q)[q.tags@.len() as int] == "rating:"@ + short_code(r),
        tag_parts(q).len() == q.tags@.len() + 1 + (if q.min_score is Some { 1int } else { 0 }) + (
        if q.min_width is Some {
            1int
        } else {
            0
        }) + (if q.min_height is Some {
            1int
        } else {
            0
        }),
{
    lemma_distinct_of_one(q.ratings@, r);
    let d = distinct_ratings(q.ratings@);
    assert(rating_parts(d) =~= seq!["rating:"@ + short_code(r)]);
}

} // verus!
