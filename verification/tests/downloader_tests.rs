use yande_dl::downloader::accept_body;
use yande_dl::downloader::{
    folder_name, known_post_ids, md5_hex, needs_fast_retry, outcome_of, partial_file_name,
    permit_count, post_file_name, precheck, scan_entry, should_reap_partial, target_file_name,
    verify_md5, DownloadStatus, ScanEntry,
};
use yande_dl::error::CoreError;
use yande_dl::model::{ImageVariant, Post, PostVariants, Rating};

fn make_post(provider: &str, id: i64, md5: &str, ext: &str, file_url: String) -> Post {
    Post {
        provider_id: provider.into(),
        post_id: id,
        md5: md5.into(),
        rating: Rating::Safe,
        score: 0,
        width: 100,
        height: 100,
        tags: vec![],
        artist: None,
        source_url: None,
        created_at: None,
        variants: PostVariants {
            original: ImageVariant {
                url: file_url,
                width: Some(100),
                height: Some(100),
                size_bytes: None,
                mime: Some(format!("image/{}", ext)),
            },
            preview: ImageVariant {
                url: "http://x/p".into(),
                width: Some(50),
                height: Some(50),
                size_bytes: None,
                mime: None,
            },
            sample: None,
            jpeg: None,
        },
        extra: vec![],
    }
}

#[test]
fn target_path_uses_provider_post_id_and_extension() {
    let post = make_post("yande", 42, "x", "png", "http://example.com/foo.png".into());
    let path = format!("{}/{}", folder_name("yande", "stella_sora"), target_file_name(&post));
    assert!(path.ends_with("_yande stella_sora/yande_42.png"));
}

#[test]
fn target_name_falls_back_to_bin() {
    let post = make_post("yande", 7, "x", "png", "http://example.com/noext".into());
    assert_eq!(target_file_name(&post), "yande_7.bin");
    let post = make_post("konachan", -3, "x", "jpg", "https://h/a/b.c/image.jpeg".into());
    assert_eq!(target_file_name(&post), "konachan_-3.jpeg");
}

#[test]
fn folder_name_sanitizes_the_tag() {
    assert_eq!(folder_name("yande", "rating:safe  x"), "_yande rating_safe_x");
    assert_eq!(folder_name("konachan", "..."), "_konachan _");
}

#[test]
fn file_names() {
    assert_eq!(post_file_name("yande", 100, Some("png")), "yande_100.png");
    assert_eq!(post_file_name("yande", 100, None), "yande_100.bin");
    assert_eq!(partial_file_name("yande_100.png"), "yande_100.png.part");
}

#[test]
fn scan_picks_up_provider_prefixed_files() {
    let names: Vec<String> = [
        "yande_100.png",
        "yande_101.jpg",
        "yande_102.gif",
        "konachan_999.png",
        "yande_abc.png",
        "foo.png",
        "yande_103.png.part",
    ]
    .iter()
    .map(|s| s.to_string())
    .collect();
    let ids = known_post_ids(&names, "yande");
    assert_eq!(ids.len(), 3);
    assert!(ids.contains(&100));
    assert!(ids.contains(&101));
    assert!(ids.contains(&102));
    assert!(!ids.contains(&103)); // .part is excluded
}

#[test]
fn scan_treats_extension_agnostically() {
    let ids = known_post_ids(&vec!["yande_500.png".to_string()], "yande");
    assert!(ids.contains(&500));
    assert_eq!(scan_entry("yande_500.jpg", "yande"), ScanEntry::PostFile(500));
    assert_eq!(scan_entry("yande_500", "yande"), ScanEntry::PostFile(500));
}

#[test]
fn scan_returns_empty_for_missing_folder() {
    assert!(known_post_ids(&vec![], "yande").is_empty());
}

#[test]
fn scan_entry_kinds() {
    assert_eq!(scan_entry("yande_103.png.part", "yande"), ScanEntry::Partial);
    assert_eq!(scan_entry("anything.part", "yande"), ScanEntry::Partial);
    assert_eq!(scan_entry("yande_.png", "yande"), ScanEntry::Other);
    assert_eq!(scan_entry("yande_12a.png", "yande"), ScanEntry::Other);
    assert_eq!(scan_entry("yandex_12.png", "yande"), ScanEntry::Other);
    assert_eq!(scan_entry("yande_-4.png", "yande"), ScanEntry::PostFile(-4));
    assert_eq!(scan_entry("yande_+4.png", "yande"), ScanEntry::PostFile(4));
}

#[test]
fn saved_names_are_read_back() {
    for (id, ext) in [(0i64, Some("png")), (i64::MAX, Some("jpg")), (i64::MIN, None), (55, Some(""))] {
        let name = post_file_name("yande", id, ext);
        assert_eq!(scan_entry(&name, "yande"), ScanEntry::PostFile(id));
        assert_eq!(scan_entry(&partial_file_name(&name), "yande"), ScanEntry::Partial);
    }
}

#[test]
fn reaping_stale_partials() {
    assert!(should_reap_partial(Some(24 * 3600 + 1), 99_999));
    assert!(!should_reap_partial(Some(24 * 3600), 10));
    assert!(!should_reap_partial(Some(100_000), 100_000));
    assert!(!should_reap_partial(None, 0));
}

#[test]
fn already_have_short_circuits_to_skipped() {
    let o = precheck(1, false, true).unwrap();
    assert_eq!(o.status, DownloadStatus::SkippedDuplicate);
    assert_eq!(o.post_id, 1);
}

#[test]
fn cancel_before_call_returns_cancelled() {
    let o = precheck(1, true, false).unwrap();
    assert_eq!(o.status, DownloadStatus::Cancelled);
    assert!(precheck(1, false, false).is_none());
}

#[test]
fn outcomes_of_results() {
    let o = outcome_of(7, Ok(("/tmp/x/yande_7.png".into(), 11)));
    assert_eq!(o.status, DownloadStatus::Saved);
    assert_eq!(o.file_path.as_deref(), Some("/tmp/x/yande_7.png"));
    assert_eq!(o.bytes, Some(11));
    assert_eq!(outcome_of(7, Err(CoreError::Cancelled)).status, DownloadStatus::Cancelled);
    assert_eq!(
        outcome_of(7, Err(CoreError::Server { status: 404 })).status,
        DownloadStatus::Failed("server error: HTTP 404".into())
    );
}

#[test]
fn md5_of_known_bytes() {
    assert_eq!(md5_hex(b"hello world"), "5eb63bbbe01eeed093cb22bb8f5acdc3");
    assert_eq!(md5_hex(b""), "d41d8cd98f00b204e9800998ecf8427e");
    assert!(verify_md5(b"hello world", "5eb63bbbe01eeed093cb22bb8f5acdc3").is_ok());
}

#[test]
fn download_fails_on_md5_mismatch_after_fast_retry() {
    let r = verify_md5(b"corrupted", "00000000000000000000000000000000");
    let e = r.unwrap_err();
    assert!(needs_fast_retry::<()>(&Err(e.clone())));
    let o = outcome_of(9, Err(e));
    match o.status {
        DownloadStatus::Failed(msg) => assert!(msg.contains("md5"), "unexpected: {}", msg),
        other => panic!("expected Failed(md5...), got {:?}", other),
    }
}

#[test]
fn only_md5_mismatch_gets_a_second_round() {
    assert!(!needs_fast_retry::<()>(&Ok(())));
    assert!(!needs_fast_retry::<()>(&Err(CoreError::Server { status: 500 })));
}

#[test]
fn at_least_one_permit() {
    assert_eq!(permit_count(0), 1);
    assert_eq!(permit_count(3), 3);
}

#[test]
fn accepted_body_is_named_and_sized() {
    let post = make_post(
        "yande",
        7,
        "5eb63bbbe01eeed093cb22bb8f5acdc3",
        "png",
        "http://127.0.0.1:1/file.png".into(),
    );
    let (name, size) = accept_body(&post, b"hello world").unwrap();
    assert_eq!(name, "yande_7.png");
    assert_eq!(size, 11);
    match accept_body(&post, b"hello worle") {
        Err(CoreError::Md5Mismatch { expected, actual }) => {
            assert_eq!(expected, "5eb63bbbe01eeed093cb22bb8f5acdc3");
            assert_eq!(actual.len(), 32);
            assert_ne!(actual, expected);
        }
        other => panic!("unexpected {:?}", other),
    }
}

#[test]
fn extension_comes_from_the_original_url() {
    let mut post = make_post("yande", 9, "x", "png", "http://h/a.png".into());
    post.variants.preview.url = "http://h/p.jpg".into();
    assert_eq!(target_file_name(&post), "yande_9.png");
    post.variants.original.url = "http://h/dir/".into();
    assert_eq!(target_file_name(&post), "yande_9.bin");
}

#[test]
fn extension_of_a_url_with_a_query() {
    let post = make_post("yande", 3, "x", "png", "https://h/img/foo.png?x=1".into());
    // Read as a path, the query is part of the file name's extension.
    assert_eq!(target_file_name(&post), "yande_3.png?x=1");
    let post = make_post("yande", 4, "x", "png", "https://h/img/.hidden".into());
    assert_eq!(target_file_name(&post), "yande_4.bin");
}
