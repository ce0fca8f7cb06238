use std::collections::HashSet;
use yande_dl::downloader::{outcome_of, precheck, DownloadStatus};
use yande_dl::error::CoreError;
use yande_dl::job::{
    page_query, post_info, post_status_of, DownloadJob, JobOutcome, JobProgress, JobRunner,
    PageDecision, PostStatus,
};
use yande_dl::model::{ImageVariant, Post, PostVariants, Rating};
use yande_dl::sanitize::normalize_tag;

fn fake_post(id: i64) -> Post {
    Post {
        provider_id: "mock".into(),
        post_id: id,
        md5: "0".repeat(32),
        rating: Rating::Safe,
        score: 0,
        width: 1,
        height: 1,
        tags: vec![],
        artist: None,
        source_url: None,
        created_at: None,
        variants: PostVariants {
            original: ImageVariant {
                url: "http://nowhere/x.png".into(),
                width: Some(1),
                height: Some(1),
                size_bytes: None,
                mime: Some("image/png".into()),
            },
            preview: ImageVariant {
                url: "http://nowhere/p.png".into(),
                width: Some(1),
                height: Some(1),
                size_bytes: None,
                mime: None,
            },
            sample: None,
            jpeg: None,
        },
        extra: vec![],
    }
}

fn fake_post_with_tags(id: i64, tags: &[&str]) -> Post {
    let mut p = fake_post(id);
    p.tags = tags.iter().map(|s| (*s).to_string()).collect();
    p
}

/// Drives a job over in-memory pages, as the application's loop does.
/// Posts in `known` are already on disk; any other post fails to download
/// (there is no network here).
fn run_pages(
    job: &DownloadJob,
    pages: &[Vec<Post>],
    known: &HashSet<i64>,
    blacklist: &dyn Fn(&[String]) -> bool,
    cancelled: bool,
) -> (JobOutcome, Vec<u32>) {
    let normalized = normalize_tag(&job.raw_tag);
    let mut runner = JobRunner::new(job);
    let mut searched = Vec::new();
    loop {
        if !runner.should_fetch(cancelled) {
            break;
        }
        assert_eq!(runner.query.tags[0], normalized);
        searched.push(runner.page);
        let idx = (runner.page as usize).saturating_sub(1);
        let posts: Vec<Post> = pages.get(idx).cloned().unwrap_or_default();
        let flags: Vec<bool> = posts.iter().map(|p| blacklist(&p.tags)).collect();
        let candidates = match runner.on_page(&posts, &flags) {
            PageDecision::Stop => break,
            PageDecision::Lookback => continue,
            PageDecision::Download(c) => c,
        };
        for &i in &candidates {
            let post = &posts[i];
            let info = post_info(post, known.contains(&post.post_id));
            assert_eq!(info.post_id, post.post_id);
            let outcome = match precheck(post.post_id, cancelled, known.contains(&post.post_id)) {
                Some(o) => o,
                None => outcome_of(post.post_id, Err(CoreError::Network("offline".into()))),
            };
            assert!(runner.can_record());
            assert!(runner.record(outcome));
        }
        // An outcome for a post that was not handed out is refused.
        assert!(!runner.record(outcome_of(-1, Err(CoreError::Cancelled))));
        runner.finish_page(posts.len());
    }
    (runner.finish(), searched)
}

#[test]
fn full_sweep_terminates_on_empty_page() {
    let known: HashSet<i64> = [1, 2, 3, 4].into_iter().collect();
    let pages = vec![
        vec![fake_post(4), fake_post(3)],
        vec![fake_post(2), fake_post(1)],
        vec![],
    ];
    let job = DownloadJob::new("anything".into());
    let (outcome, searched) = run_pages(&job, &pages, &known, &|_| false, false);
    assert_eq!(outcome.progress.skipped, 4);
    assert_eq!(outcome.progress.fetched, 4);
    assert_eq!(outcome.safe_last_post_id, 4);
    assert_eq!(searched, vec![1, 2, 3]);
}

#[test]
fn incremental_lookback_keeps_paging_after_caught_up() {
    let known: HashSet<i64> = (105..=115).collect();
    let pages = vec![
        (110..=115).rev().map(fake_post).collect(),
        (105..=109).rev().map(fake_post).collect(),
        (95..=99).rev().map(fake_post).collect(),
        (90..=94).rev().map(fake_post).collect(),
        vec![],
    ];
    let mut job = DownloadJob::new("tag".into());
    job.since_post_id = Some(100);
    job.incremental_lookback_pages = 2;
    let (outcome, searched) = run_pages(&job, &pages, &known, &|_| false, false);
    assert_eq!(outcome.progress.current_page, 2);
    assert_eq!(outcome.progress.skipped, 11);
    assert_eq!(outcome.progress.failed, 0);
    assert_eq!(outcome.safe_last_post_id, 115);
    // The fifth page is never asked for: the second caught-up page ends the job.
    assert_eq!(searched, vec![1, 2, 3, 4]);
}

#[test]
fn blacklist_does_not_terminate_when_new_ids_exist() {
    let known: HashSet<i64> = [201, 202, 203, 204].into_iter().collect();
    let page1: Vec<Post> = vec![201, 202, 203, 204]
        .into_iter()
        .map(|id| fake_post_with_tags(id, &["loli"]))
        .collect();
    let pages = vec![page1, vec![]];
    let mut job = DownloadJob::new("tag".into());
    job.since_post_id = Some(100);
    let blacklist = |tags: &[String]| tags.iter().any(|t| t == "loli");
    let (outcome, searched) = run_pages(&job, &pages, &known, &blacklist, false);
    assert_eq!(outcome.progress.fetched, 4);
    assert_eq!(outcome.progress.saved, 0);
    assert_eq!(outcome.progress.skipped, 0);
    assert_eq!(searched, vec![1, 2]);
    assert_eq!(outcome.safe_last_post_id, 100);
}

#[test]
fn job_respects_cancellation() {
    let pages = vec![
        (1..=10).rev().map(fake_post).collect(),
        (11..=20).rev().map(fake_post).collect(),
    ];
    let job = DownloadJob::new("anything".into());
    let (outcome, searched) = run_pages(&job, &pages, &HashSet::new(), &|_| false, true);
    assert_eq!(outcome.progress.fetched, 0);
    assert!(searched.is_empty());
    assert!(outcome.outcomes.is_empty());
}

#[test]
fn failed_download_holds_the_baseline_back() {
    // 12 is on disk, 11 cannot be fetched, 10 is on disk: the next run must
    // start from 10 so that 11 is tried again.
    let known: HashSet<i64> = [10, 12].into_iter().collect();
    let pages = vec![vec![fake_post(12), fake_post(11), fake_post(10)], vec![]];
    let mut job = DownloadJob::new("t".into());
    job.since_post_id = Some(5);
    let (outcome, _) = run_pages(&job, &pages, &known, &|_| false, false);
    assert_eq!(outcome.progress.skipped, 2);
    assert_eq!(outcome.progress.failed, 1);
    assert_eq!(outcome.safe_last_post_id, 10);
}

#[test]
fn max_pages_bounds_the_sweep() {
    let known: HashSet<i64> = (1..=30).collect();
    let pages: Vec<Vec<Post>> = (0..3)
        .map(|k| ((k * 10 + 1)..=(k * 10 + 10)).rev().map(fake_post).collect())
        .collect();
    let mut job = DownloadJob::new("t".into());
    job.max_pages = 2;
    let (outcome, searched) = run_pages(&job, &pages, &known, &|_| false, false);
    assert_eq!(searched, vec![1, 2]);
    assert_eq!(outcome.progress.fetched, 20);
    assert_eq!(outcome.progress.current_page, 2);
}

#[test]
fn new_job_defaults() {
    let job = DownloadJob::new("  Stella_Sora ".into());
    assert_eq!(job.raw_tag, "  Stella_Sora ");
    assert_eq!(job.since_post_id, None);
    assert_eq!(job.max_pages, 500);
    assert_eq!(job.incremental_lookback_pages, 2);
    let q = page_query(&job, "stella_sora");
    assert_eq!(q.tags, vec!["stella_sora".to_string()]);
    assert_eq!(q.limit, 100);
}

#[test]
fn tally_counts_each_status() {
    let mut p = JobProgress::default();
    p.tally(Some(&DownloadStatus::Saved));
    p.tally(Some(&DownloadStatus::SkippedDuplicate));
    p.tally(Some(&DownloadStatus::Failed("x".into())));
    p.tally(Some(&DownloadStatus::Cancelled));
    p.tally(None);
    assert_eq!((p.saved, p.skipped, p.failed, p.cancelled, p.fetched), (1, 1, 2, 1, 5));
    assert_eq!(post_status_of(&DownloadStatus::Saved), PostStatus::Saved);
    assert_eq!(post_status_of(&DownloadStatus::SkippedDuplicate), PostStatus::Skipped);
    assert_eq!(post_status_of(&DownloadStatus::Failed("e".into())), PostStatus::Failed);
    assert_eq!(post_status_of(&DownloadStatus::Cancelled), PostStatus::Cancelled);
}

#[test]
fn post_info_carries_urls_and_initial_status() {
    let mut p = fake_post(9);
    p.variants.sample = Some(ImageVariant {
        url: "http://nowhere/s.jpg".into(),
        width: None,
        height: None,
        size_bytes: None,
        mime: None,
    });
    let info = post_info(&p, true);
    assert_eq!(info.sample_url.as_deref(), Some("http://nowhere/s.jpg"));
    assert_eq!(info.preview_url, "http://nowhere/p.png");
    assert_eq!(info.original_url, "http://nowhere/x.png");
    assert_eq!(info.status, PostStatus::Skipped);
    assert_eq!(post_info(&p, false).status, PostStatus::Queued);
}
