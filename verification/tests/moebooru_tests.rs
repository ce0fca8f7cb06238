use yande_dl::model::{Rating, SearchQuery};
use yande_dl::moebooru::MoebooruProvider;

fn dummy_query(tags: &[&str]) -> SearchQuery {
    SearchQuery {
        tags: tags.iter().map(|s| (*s).to_string()).collect(),
        ..Default::default()
    }
}

#[test]
fn build_tag_string_basic() {
    let q = dummy_query(&["stella_sora"]);
    assert_eq!(MoebooruProvider::build_tag_string(&q), "stella_sora");
}

#[test]
fn build_tag_string_with_rating_subset() {
    let mut q = dummy_query(&["foo"]);
    q.ratings = vec![Rating::Safe, Rating::Questionable];
    let s = MoebooruProvider::build_tag_string(&q);
    assert!(s.contains("foo"));
    assert!(s.contains("rating:s"));
    assert!(s.contains("rating:q"));
}

#[test]
fn build_tag_string_omits_rating_when_all() {
    let mut q = dummy_query(&["foo"]);
    q.ratings = vec![Rating::Safe, Rating::Questionable, Rating::Explicit];
    let s = MoebooruProvider::build_tag_string(&q);
    assert!(!s.contains("rating:"));
}

#[test]
fn build_tag_string_with_score_and_size() {
    let mut q = dummy_query(&["bar"]);
    q.min_score = Some(50);
    q.min_width = Some(1920);
    q.min_height = Some(1080);
    let s = MoebooruProvider::build_tag_string(&q);
    assert!(s.contains("score:>=50"));
    assert!(s.contains("width:>=1920"));
    assert!(s.contains("height:>=1080"));
}

#[test]
fn build_tag_string_empty_when_nothing() {
    let q = SearchQuery::default();
    assert_eq!(MoebooruProvider::build_tag_string(&q), "");
}

#[test]
fn repeated_ratings_still_filter() {
    let mut q = dummy_query(&["foo"]);
    q.ratings = vec![Rating::Safe, Rating::Safe, Rating::Safe];
    assert_eq!(MoebooruProvider::build_tag_string(&q), "foo rating:s");
    q.ratings = vec![Rating::Questionable, Rating::Safe, Rating::Questionable];
    assert_eq!(MoebooruProvider::build_tag_string(&q), "foo rating:q rating:s");
    q.ratings = vec![Rating::Explicit, Rating::Safe, Rating::Questionable, Rating::Safe];
    assert_eq!(MoebooruProvider::build_tag_string(&q), "foo");
}
