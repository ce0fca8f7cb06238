use yande_dl::commands::{already_running, job_for, preview_query, require_selection};
use yande_dl::commands::{
    is_openable_url, make_blacklist, post_page_url, preview_page, ratings_from_settings,
    user_agent, ActiveJobDto, DownloadCompletedEvent, DownloadProgressEvent, NotificationEvent,
    PreviewResp, SubscriptionDto,
};
use yande_dl::config::{Settings, Subscription};
use yande_dl::job::JobProgress;
use yande_dl::model::Rating;

const NOW: i64 = 1_700_000_000;

#[test]
fn ratings_come_from_settings_names() {
    let mut s = Settings::default();
    assert_eq!(ratings_from_settings(&s), vec![Rating::Safe]);
    s.default_ratings = vec!["Explicit".into(), "bogus".into(), "QUESTIONABLE".into(), "safe".into()];
    assert_eq!(
        ratings_from_settings(&s),
        vec![Rating::Explicit, Rating::Questionable, Rating::Safe]
    );
    s.default_ratings = vec![];
    assert!(ratings_from_settings(&s).is_empty());
}

#[test]
fn blacklist_matches_normalized_tags() {
    let b = make_blacklist(vec![" Loli ".into(), "".into(), "   ".into(), "guro".into()]);
    assert_eq!(b.entries, vec!["loli".to_string(), "guro".to_string()]);
    assert!(b.matches(&["long_hair".into(), "LOLI".into()]));
    assert!(b.matches(&["guro".into()]));
    assert!(!b.matches(&["long_hair".into(), "smile".into()]));
    assert!(!b.matches(&[]));
    let empty = make_blacklist(vec![]);
    assert!(!empty.matches(&["loli".into()]));
}

#[test]
fn post_pages_of_known_boards() {
    assert_eq!(post_page_url("yande", 1255110).unwrap(), "https://yande.re/post/show/1255110");
    assert_eq!(post_page_url("konachan", 42).unwrap(), "https://konachan.com/post/show/42");
    assert_eq!(post_page_url("danbooru", 1).unwrap_err(), "unknown provider: danbooru");
}

#[test]
fn only_http_urls_are_opened() {
    assert!(is_openable_url("https://yande.re/post/show/1"));
    assert!(is_openable_url("http://example.com"));
    assert!(!is_openable_url("file:///etc/passwd"));
    assert!(!is_openable_url("javascript:alert(1)"));
    assert!(!is_openable_url("HTTPS://x"));
}

#[test]
fn user_agent_names_the_version() {
    assert_eq!(user_agent("0.2.0"), "yande-dl/0.2.0 (+https://github.com/KenDev099/yande-dl)");
}

#[test]
fn preview_pages_start_at_one() {
    assert_eq!(preview_page(None), 1);
    assert_eq!(preview_page(Some(0)), 1);
    assert_eq!(preview_page(Some(7)), 7);
    let r = PreviewResp::new("j".into(), 2, 100, 100);
    assert!(r.has_more);
    let r = PreviewResp::new("j".into(), 2, 37, 100);
    assert!(!r.has_more);
    assert_eq!((r.page, r.returned), (2, 37));
}

#[test]
fn events_copy_the_progress() {
    let p = JobProgress { current_page: 3, fetched: 250, saved: 10, skipped: 200, failed: 2, cancelled: 1 };
    let e = DownloadProgressEvent::new("job".into(), "sub".into(), &p);
    assert_eq!((e.current_page, e.fetched, e.saved, e.skipped, e.failed, e.cancelled), (3, 250, 10, 200, 2, 1));
    let d = DownloadCompletedEvent::new("job".into(), "sub".into(), &p, 999);
    assert_eq!((d.total_saved, d.total_skipped, d.total_failed, d.total_cancelled, d.safe_last_post_id), (10, 200, 2, 1, 999));
    let a = ActiveJobDto::new("job".into(), "sub".into(), "tag".into(), &p);
    assert_eq!((a.job_id.as_str(), a.tag.as_str(), a.fetched), ("job", "tag", 250));
}

#[test]
fn notifications_have_their_kind() {
    assert_eq!(NotificationEvent::error("e".into()).kind, "error");
    assert_eq!(NotificationEvent::warning("w".into()).kind, "warning");
    assert_eq!(NotificationEvent::info("i".into()).kind, "info");
    let s = NotificationEvent::success("done".into());
    assert_eq!((s.kind.as_str(), s.message.as_str()), ("success", "done"));
}

#[test]
fn subscription_dto_keeps_the_fields() {
    let sub = Subscription::new("yande", " Foo ", NOW);
    let id = sub.id.clone();
    let dto = SubscriptionDto::from(sub, "Yande.re".into());
    assert_eq!(dto.id, id);
    assert_eq!(dto.provider_display_name, "Yande.re");
    assert_eq!(dto.tag, "Foo");
    assert_eq!(dto.normalized_tag, "foo");
    assert_eq!(dto.last_seen_post_id, 0);
}

#[test]
fn empty_selection_is_refused() {
    assert_eq!(require_selection(&vec![]).unwrap_err(), "no posts selected");
    assert!(require_selection(&vec![5]).is_ok());
}

#[test]
fn jobs_and_queries_follow_the_settings() {
    let mut settings = Settings::default();
    settings.default_ratings = vec!["questionable".into(), "Safe".into()];
    let mut sub = Subscription::new("yande", " Stella_Sora ", NOW);
    sub.last_seen_post_id = 77;
    let job = job_for(&sub, &settings, true);
    assert_eq!(job.raw_tag, "Stella_Sora");
    assert_eq!(job.since_post_id, Some(77));
    assert_eq!(job.query_extra.ratings, vec![Rating::Questionable, Rating::Safe]);
    assert_eq!(job_for(&sub, &settings, false).since_post_id, None);
    let q = preview_query(&settings, "stella_sora");
    assert_eq!(q.tags, vec!["stella_sora".to_string()]);
    assert_eq!(q.limit, 100);
    assert_eq!(q.ratings, vec![Rating::Questionable, Rating::Safe]);
    let running = vec!["a".to_string(), "b".to_string()];
    assert!(already_running(&running, "b"));
    assert!(!already_running(&running, "c"));
    assert!(!already_running(&vec![], "a"));
}
