use yande_dl::model::Rating;

#[test]
fn rating_from_known_codes() {
    assert_eq!(Rating::from_moebooru_code("s"), Some(Rating::Safe));
    assert_eq!(Rating::from_moebooru_code("q"), Some(Rating::Questionable));
    assert_eq!(Rating::from_moebooru_code("e"), Some(Rating::Explicit));
}

#[test]
fn rating_from_uppercase_codes() {
    assert_eq!(Rating::from_moebooru_code("S"), Some(Rating::Safe));
    assert_eq!(Rating::from_moebooru_code("E"), Some(Rating::Explicit));
}

#[test]
fn rating_from_unknown_code() {
    assert_eq!(Rating::from_moebooru_code("x"), None);
    assert_eq!(Rating::from_moebooru_code(""), None);
}

#[test]
fn rating_to_short_roundtrip() {
    for r in [Rating::Safe, Rating::Questionable, Rating::Explicit] {
        assert_eq!(Rating::from_moebooru_code(r.to_short()), Some(r));
    }
}

#[test]
fn rating_rejects_longer_codes() {
    assert_eq!(Rating::from_moebooru_code("safe"), None);
    assert_eq!(Rating::from_moebooru_code("ss"), None);
    assert_eq!(Rating::from_moebooru_code(" s"), None);
}

#[test]
fn rating_short_codes() {
    assert_eq!(Rating::Safe.to_short(), "s");
    assert_eq!(Rating::Questionable.to_short(), "q");
    assert_eq!(Rating::Explicit.to_short(), "e");
}
