//! The provider-agnostic data model.

use vstd::prelude::*;

use crate::text::chars_of;

verus! {

/// Content rating of a post.
#[derive(Debug, Clone, Copy, PartialEq, Eq, Hash, Structural)]
pub enum Rating {
    Safe,
    Questionable,
    Explicit,
}

/// The rating that a Moebooru rating code stands for (`s`, `q`, `e`, either
/// case).
pub open spec fn rating_of_code(s: Seq<char>) -> Option<Rating> {
    if s == seq!['s'] || s == seq!['S'] {
        Some(Rating::Safe)
    } else if s == seq!['q'] || s == seq!['Q'] {
        Some(Rating::Questionable)
    } else if s == seq!['e'] || s == seq!['E'] {
        Some(Rating::Explicit)
    } else {
        None
    }
}

/// The one-letter code of a rating.
pub open spec fn short_code(r: Rating) -> Seq<char> {
    match r {
        Rating::Safe => seq!['s'],
        Rating::Questionable => seq!['q'],
        Rating::Explicit => seq!['e'],
    }
}

impl Rating {
    /// Parses a Moebooru rating code.
    pub fn from_moebooru_code(s: &str) -> (r: Option<Self>)
        ensures
            r == rating_of_code(s@),
    {
        let v = chars_of(s);
        if v.len() != 1 {
            assert(s@ != seq!['s'] && s@ != seq!['S'] && s@ != seq!['q'] && s@ != seq!['Q'] && s@
                != seq!['e'] && s@ != seq!['E']);
            return None;
        }
        let c = v[0];
        assert(s@ =~= seq![c]);
        if c == 's' || c == 'S' {
            Some(Rating::Safe)
        } else if c == 'q' || c == 'Q' {
            Some(Rating::Questionable)
        } else if c == 'e' || c == 'E' {
            Some(Rating::Explicit)
        } else {
            assert(seq![c] != seq!['s'] && seq![c] != seq!['S']);
            assert(seq![c] != seq!['q'] && seq![c] != seq!['Q']);
            assert(seq![c] != seq!['e'] && seq![c] != seq!['E']);
            None
        }
    }

    /// The one-letter Moebooru code of this rating.
    pub fn to_short(self) -> (r: &'static str)
        ensures
            r@ == short_code(self),
    {
        match self {
            Rating::Safe => {
                proof {
                    reveal_strlit("s");
                }
                "s"
            },
            Rating::Questionable => {
                proof {
                    reveal_strlit("q");
                }
                "q"
            },
            Rating::Explicit => {
                proof {
                    reveal_strlit("e");
                }
                "e"
            },
        }
    }
}

/// Reading back the short code of a rating gives the rating.
pub proof fn law_rating_code_roundtrip(r: Rating)
    ensures
        rating_of_code(short_code(r)) == Some(r),
{
    let c = short_code(r);
    assert(c[0] == seq!['s'][0] || c != seq!['s']);
    assert(c[0] == seq!['S'][0] || c != seq!['S']);
    assert(c[0] == seq!['q'][0] || c != seq!['q']);
    assert(c[0] == seq!['Q'][0] || c != seq!['Q']);
}

/// One downloadable rendition of a post.
#[derive(Debug, Clone)]
pub struct ImageVariant {
    pub url: String,
    pub width: Option<u32>,
    pub height: Option<u32>,
    pub size_bytes: Option<u64>,
    pub mime: Option<String>,
}

/// The renditions of a post. Only `original` (and `preview` for
/// thumbnails) is consumed; `sample` and `jpeg` are carried along.
#[derive(Debug, Clone)]
pub struct PostVariants {
    pub original: ImageVariant,
    pub preview: ImageVariant,
    pub sample: Option<ImageVariant>,
    pub jpeg: Option<ImageVariant>,
}

/// A post of an image board.
#[derive(Debug, Clone)]
pub struct Post {
    pub provider_id: String,
    pub post_id: i64,
    /// MD5 of the original file's content. Not valid for jpeg/sample variants.
    pub md5: String,
    pub rating: Rating,
    pub score: i32,
    pub width: u32,
    pub height: u32,
    pub tags: Vec<String>,
    pub artist: Option<String>,
    pub source_url: Option<String>,
    pub created_at: Option<i64>,
    pub variants: PostVariants,
    /// Fields of the board's response that have no place above, each as its
    /// name and its JSON text. Carried along, never read.
    pub extra: Vec<(String, String)>,
}

/// A search for posts.
#[derive(Debug, Clone)]
pub struct SearchQuery {
    /// Tag list. Use `-tag` for Moebooru native exclusion.
    pub tags: Vec<String>,
    pub min_score: Option<i32>,
    pub min_width: Option<u32>,
    pub min_height: Option<u32>,
    pub ratings: Vec<Rating>,
    pub limit: u32,
}

impl Default for SearchQuery {
    fn default() -> (r: Self)
        ensures
            r.tags@.len() == 0,
            r.min_score is None,
            r.min_width is None,
            r.min_height is None,
            r.ratings@.len() == 0,
            r.limit == 0,
    {
        SearchQuery {
            tags: Vec::new(),
            min_score: None,
            min_width: None,
            min_height: None,
            ratings: Vec::new(),
            limit: 0,
        }
    }
}

/// What a provider supports.
#[derive(Debug, Clone, Copy, PartialEq, Eq, Structural)]
pub struct Capabilities {
    pub max_results_per_page: u32,
    pub uses_md5: bool,
    /// Moebooru defaults to id-descending order; affects incremental termination logic.
    pub default_sort_desc_by_id: bool,
}

} // verus!
