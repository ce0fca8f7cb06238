use yande_dl::config::{
    broken_backup_name, normalize_display_name, subscriptions_from_export,
    subscriptions_from_tags_file, ImportMode, Settings, Subscription, TagsError, TagsFile,
};

const NOW: i64 = 1_700_000_000;

fn add(f: &mut TagsFile, provider: &str, tag: &str) -> Subscription {
    f.add(provider, tag, NOW).unwrap().0
}

fn is_v4_uuid(s: &str) -> bool {
    let b: Vec<char> = s.chars().collect();
    b.len() == 36
        && b.iter().enumerate().all(|(i, c)| {
            if i == 8 || i == 13 || i == 18 || i == 23 {
                *c == '-'
            } else {
                c.is_ascii_digit() || ('a'..='f').contains(c)
            }
        })
        && b[14] == '4'
}

#[test]
fn tags_load_returns_default_when_missing() {
    let f = TagsFile::default();
    assert_eq!(f.version, 1);
    assert!(f.subscriptions.is_empty());
}

#[test]
fn add_and_persist() {
    let mut f = TagsFile::default();
    let (sub, added) = f.add("yande", "stella_sora", NOW).unwrap();
    assert!(added);
    assert_eq!(sub.provider, "yande");
    assert_eq!(sub.tag, "stella_sora");
    assert_eq!(sub.normalized_tag, "stella_sora");
    assert_eq!(f.subscriptions.len(), 1);
    assert_eq!(f.subscriptions[0].id, sub.id);
    assert!(is_v4_uuid(&sub.id));
    assert_eq!(sub.last_run_at, None);
    assert_eq!(sub.last_seen_post_id, 0);
    assert_eq!(sub.created_at, NOW);
}

#[test]
fn add_dedups_by_normalized_tag() {
    let mut f = TagsFile::default();
    let a = add(&mut f, "yande", "Stella_Sora");
    let (b, b_added) = f.add("yande", "stella_sora", NOW).unwrap();
    let (c, c_added) = f.add("yande", "  stella_sora  ", NOW).unwrap();
    assert_eq!(a.id, b.id);
    assert_eq!(b.id, c.id);
    assert!(!b_added && !c_added);
    assert_eq!(f.subscriptions.len(), 1);
    assert_eq!(a.tag, "Stella_Sora");
    assert_eq!(a.normalized_tag, "stella_sora");
}

#[test]
fn add_treats_provider_as_part_of_key() {
    let mut f = TagsFile::default();
    let a = add(&mut f, "yande", "stella_sora");
    let b = add(&mut f, "konachan", "stella_sora");
    assert_ne!(a.id, b.id);
    assert_eq!(f.subscriptions.len(), 2);
}

#[test]
fn add_rejects_empty_tag() {
    let mut f = TagsFile::default();
    assert_eq!(f.add("yande", "", NOW).unwrap_err(), TagsError::EmptyTag);
    assert_eq!(f.add("yande", "   ", NOW).unwrap_err(), TagsError::EmptyTag);
    assert!(f.subscriptions.is_empty());
    assert_eq!(TagsError::EmptyTag.message(), "tag must not be empty");
}

#[test]
fn remove_works() {
    let mut f = TagsFile::default();
    let sub = add(&mut f, "yande", "foo");
    let other = add(&mut f, "yande", "bar");
    assert!(f.remove(&sub.id));
    assert!(!f.remove(&sub.id));
    assert_eq!(f.subscriptions.len(), 1);
    assert_eq!(f.subscriptions[0].id, other.id);
}

#[test]
fn update_after_run_advances_baseline() {
    let mut f = TagsFile::default();
    let sub = add(&mut f, "yande", "foo");
    assert!(f.update_after_run(&sub.id, 100, NOW));
    assert!(f.update_after_run(&sub.id, 80, NOW));
    let got = &f.subscriptions[0];
    assert_eq!(got.last_seen_post_id, 100);
    assert!(got.last_run_at.is_some());
    assert!(!f.update_after_run("missing", 5, NOW));
}

#[test]
fn update_after_run_records_the_given_time() {
    let mut f = TagsFile::default();
    let sub = add(&mut f, "yande", "foo");
    assert!(f.update_after_run(&sub.id, 7, 1_700_000_000));
    assert_eq!(f.subscriptions[0].last_run_at, Some(1_700_000_000));
    assert_eq!(f.subscriptions[0].last_seen_post_id, 7);
    assert!(f.touch_last_run_at(&sub.id, 1_700_000_100));
    assert_eq!(f.subscriptions[0].last_run_at, Some(1_700_000_100));
    assert_eq!(f.subscriptions[0].last_seen_post_id, 7);
    assert!(!f.touch_last_run_at("nope", 1));
}

#[test]
fn import_replace_swaps_everything() {
    let mut f = TagsFile::default();
    add(&mut f, "yande", "old_a");
    add(&mut f, "yande", "old_b");
    let imported = vec![Subscription::new("konachan", "imported_one", NOW)];
    let report = f.import(imported, ImportMode::Replace);
    assert_eq!(report.removed, 2);
    assert_eq!(report.added, 1);
    assert_eq!(report.skipped, 0);
    assert_eq!(f.subscriptions.len(), 1);
    assert_eq!(f.subscriptions[0].provider, "konachan");
}

#[test]
fn import_merge_skips_duplicates() {
    let mut f = TagsFile::default();
    add(&mut f, "yande", "shared");
    add(&mut f, "yande", "kept_a");
    let imported = vec![
        Subscription::new("yande", "shared", NOW),
        Subscription::new("yande", "added_b", NOW),
        Subscription::new("konachan", "added_c", NOW),
    ];
    let report = f.import(imported, ImportMode::Merge);
    assert_eq!(report.added, 2);
    assert_eq!(report.skipped, 1);
    assert_eq!(report.removed, 0);
    assert_eq!(f.subscriptions.len(), 4);
    assert_eq!(f.subscriptions[2].normalized_tag, "added_b");
    assert_eq!(f.subscriptions[3].provider, "konachan");
}

#[test]
fn import_merge_skips_duplicates_within_the_file() {
    let mut f = TagsFile::default();
    let imported = vec![Subscription::new("yande", "Twice", NOW), Subscription::new("yande", "twice", NOW)];
    let report = f.import(imported, ImportMode::Merge);
    assert_eq!(report.added, 1);
    assert_eq!(report.skipped, 1);
    assert_eq!(f.subscriptions.len(), 1);
    assert_eq!(f.subscriptions[0].tag, "Twice");
}

#[test]
fn export_then_import_round_trip() {
    let mut f = TagsFile::default();
    add(&mut f, "yande", "alpha");
    add(&mut f, "yande", "beta");
    let export = f.to_export();
    let mut fresh = TagsFile::default();
    let report = fresh.import(subscriptions_from_export(&export, NOW), ImportMode::Replace);
    assert_eq!(report.added, 2);
    assert_eq!(fresh.subscriptions.len(), 2);
    assert_eq!(fresh.subscriptions[0].tag, "alpha");
    assert_eq!(fresh.subscriptions[1].tag, "beta");
}

#[test]
fn export_writes_minimal_fields() {
    let mut f = TagsFile::default();
    let (sub, _) = f.add_with_display_name("yande", "cirno", Some("琪露諾".into()), NOW).unwrap();
    f.update_after_run(&sub.id, 999, NOW);
    let export = f.to_export();
    assert_eq!(export.version, 1);
    assert_eq!(export.subscriptions.len(), 1);
    let e = &export.subscriptions[0];
    assert_eq!(e.provider, "yande");
    assert_eq!(e.tag, "cirno");
    assert_eq!(e.display_name.as_deref(), Some("琪露諾"));
}

#[test]
fn import_legacy_format_still_works() {
    let legacy = TagsFile {
        version: 1,
        subscriptions: vec![Subscription {
            id: "old-id".into(),
            provider: "yande".into(),
            tag: "legacy_tag".into(),
            normalized_tag: "legacy_tag".into(),
            display_name: None,
            last_run_at: Some(1_700_000_000),
            last_seen_post_id: 555,
            created_at: 1_690_000_000,
        }],
    };
    let mut f = TagsFile::default();
    let report = f.import(subscriptions_from_tags_file(&legacy, NOW), ImportMode::Replace);
    assert_eq!(report.added, 1);
    let got = &f.subscriptions[0];
    assert_eq!(got.tag, "legacy_tag");
    assert_ne!(got.id, "old-id");
    assert_eq!(got.last_seen_post_id, 0);
    assert_eq!(got.last_run_at, None);
}

#[test]
fn import_resets_baseline_and_counters() {
    let mut f = TagsFile::default();
    let sub = add(&mut f, "yande", "foo");
    f.update_after_run(&sub.id, 12345, NOW);
    let export = f.to_export();
    let mut fresh = TagsFile::default();
    fresh.import(subscriptions_from_export(&export, NOW), ImportMode::Replace);
    let got = &fresh.subscriptions[0];
    assert_eq!(got.last_seen_post_id, 0);
    assert_eq!(got.last_run_at, None);
}

#[test]
fn add_with_display_name_persists_alias() {
    let mut f = TagsFile::default();
    let (sub, _) = f.add_with_display_name("yande", "cirno", Some("琪露諾".into()), NOW).unwrap();
    assert_eq!(sub.display_name.as_deref(), Some("琪露諾"));
    assert_eq!(f.subscriptions[0].display_name.as_deref(), Some("琪露諾"));
}

#[test]
fn add_with_display_name_trims_and_drops_empty() {
    let mut f = TagsFile::default();
    let (a, _) = f.add_with_display_name("yande", "foo", Some("  ".into()), NOW).unwrap();
    assert!(a.display_name.is_none());
    let (b, _) = f.add_with_display_name("yande", "bar", Some("  名字  ".into()), NOW).unwrap();
    assert_eq!(b.display_name.as_deref(), Some("名字"));
}

#[test]
fn update_display_name_sets_and_clears() {
    let mut f = TagsFile::default();
    let sub = add(&mut f, "yande", "foo");
    assert!(sub.display_name.is_none());
    let updated = f.update_display_name(&sub.id, Some("中文名".into())).unwrap();
    assert_eq!(updated.display_name.as_deref(), Some("中文名"));
    assert_eq!(f.subscriptions[0].display_name.as_deref(), Some("中文名"));
    let cleared = f.update_display_name(&sub.id, None).unwrap();
    assert!(cleared.display_name.is_none());
    assert_eq!(cleared.id, sub.id);
}

#[test]
fn update_display_name_returns_none_for_unknown_id() {
    let mut f = TagsFile::default();
    add(&mut f, "yande", "foo");
    assert!(f.update_display_name("does-not-exist", Some("x".into())).is_none());
    assert!(f.subscriptions[0].display_name.is_none());
}

#[test]
fn touch_last_run_at_does_not_touch_baseline() {
    let mut f = TagsFile::default();
    let sub = add(&mut f, "yande", "foo");
    f.update_after_run(&sub.id, 100, NOW);
    assert!(f.touch_last_run_at(&sub.id, NOW));
    let got = &f.subscriptions[0];
    assert_eq!(got.last_seen_post_id, 100);
    assert!(got.last_run_at.is_some());
}

#[test]
fn add_with_existing_normalized_tag_keeps_original_display_name() {
    let mut f = TagsFile::default();
    let (first, _) = f.add_with_display_name("yande", "cirno", Some("琪露諾".into()), NOW).unwrap();
    let (second, added) =
        f.add_with_display_name("yande", "Cirno", Some("changed".into()), NOW).unwrap();
    assert!(!added);
    assert_eq!(first.id, second.id);
    assert_eq!(second.display_name.as_deref(), Some("琪露諾"));
}

#[test]
fn display_names_are_trimmed_or_dropped() {
    assert_eq!(normalize_display_name(None), None);
    assert_eq!(normalize_display_name(Some(" \t ".into())), None);
    assert_eq!(normalize_display_name(Some(" a b ".into())), Some("a b".to_string()));
}

#[test]
fn fresh_ids_differ() {
    let a = Subscription::new("yande", "x", NOW);
    let b = Subscription::new("yande", "x", NOW);
    assert!(is_v4_uuid(&a.id) && is_v4_uuid(&b.id));
    assert_ne!(a.id, b.id);
    let c = a.duplicate();
    assert_eq!(c.id, a.id);
    assert_eq!(c.created_at, a.created_at);
}

#[test]
fn backup_name_of_a_timestamp() {
    assert_eq!(broken_backup_name(1_700_000_000), "tags.json.broken.1700000000");
    assert_eq!(broken_backup_name(-5), "tags.json.broken.-5");
}

#[test]
fn settings_defaults() {
    let s = Settings::default();
    assert_eq!(s.version, 1);
    assert_eq!(s.download_root, None);
    assert_eq!(s.concurrency, 3);
    assert_eq!(s.min_delay_ms, 300);
    assert_eq!(s.default_ratings, vec!["safe".to_string()]);
    assert_eq!(s.theme, "dark");
    assert!(!s.age_confirmed);
    assert!(s.blacklist.is_empty());
}
