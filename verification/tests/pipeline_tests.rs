use luminaire::catalog::Catalog;
use luminaire::classify::MediaKind;
use luminaire::scanner::{scan_files, FoundFile};
use luminaire::thumbs::{
    extraction_request, plan_thumbnails, record_thumbnail_results, thumbnail_destination,
    ThumbnailOutcome, ThumbnailPlan,
};
use luminaire::Timestamp;

fn moment(day: u8, hour: u8) -> Timestamp {
    Timestamp { year: 2022, month: 1, day, hour, minute: 0, second: 0 }
}

fn found(path: &str, capture: Option<Timestamp>) -> FoundFile {
    FoundFile {
        path: path.to_string(),
        size: 2048,
        modified: Some(moment(2, 0)),
        created: Some(moment(1, 0)),
        capture,
    }
}

#[test]
fn scan_counts_media_files_and_skips_the_rest() {
    let mut c = Catalog::new();
    let files = vec![
        found("/root/a.jpg", Some(moment(1, 0))),
        found("/root/b.mp4", None),
        found("/root/notes.txt", None),
    ];
    let count = scan_files(&mut c, &files, moment(3, 0));
    assert_eq!(count, 2);
    let rows = c.list_all();
    assert_eq!(rows.len(), 2);
    assert!(rows.iter().all(|m| m.path != "/root/notes.txt"));
    // a.jpg has a capture date, b.mp4 has none: a.jpg lists first
    assert_eq!(rows[0].filename, "a.jpg");
    assert!(matches!(rows[0].kind, MediaKind::Image));
    assert_eq!(rows[0].capture_date, Some(moment(1, 0)));
    assert_eq!(rows[1].filename, "b.mp4");
    assert!(matches!(rows[1].kind, MediaKind::Video));
    assert!(rows[1].capture_date.is_none());
}

#[test]
fn rescanning_the_same_tree_is_idempotent() {
    let mut c = Catalog::new();
    let files = vec![
        found("/root/a.jpg", Some(moment(1, 0))),
        found("/root/b.mp4", None),
        found("/root/notes.txt", None),
    ];
    let first = scan_files(&mut c, &files, moment(3, 0));
    let rows_before: Vec<String> = c.list_all().iter().map(|m| m.id.clone()).collect();
    let second = scan_files(&mut c, &files, moment(4, 0));
    // the count measures media files visited, not records created
    assert_eq!(first, 2);
    assert_eq!(second, 2);
    let rows_after: Vec<String> = c.list_all().iter().map(|m| m.id.clone()).collect();
    assert_eq!(rows_before, rows_after);
    // no path occurs twice
    let mut paths: Vec<String> = c.list_all().iter().map(|m| m.path.clone()).collect();
    paths.sort();
    paths.dedup();
    assert_eq!(paths.len(), 2);
}

#[test]
fn scan_ignores_a_capture_hint_on_videos() {
    let mut c = Catalog::new();
    let files = vec![found("/root/clip.mov", Some(moment(5, 0)))];
    scan_files(&mut c, &files, moment(6, 0));
    let rows = c.list_all();
    assert!(rows[0].capture_date.is_none());
}

#[test]
fn scanned_records_get_distinct_identities() {
    let mut c = Catalog::new();
    let files = vec![found("/root/a.jpg", None), found("/root/b.jpg", None)];
    scan_files(&mut c, &files, moment(1, 0));
    let rows = c.list_all();
    assert_eq!(rows[0].id.len(), 36);
    assert_eq!(rows[1].id.len(), 36);
    assert_ne!(rows[0].id, rows[1].id);
}

#[test]
fn thumbnail_destination_is_cache_dir_id_jpg() {
    assert_eq!(thumbnail_destination("/data/thumbnails", "abc"), "/data/thumbnails/abc.jpg");
}

#[test]
fn planning_resolves_sources_and_flags_unknown_identities() {
    let mut c = Catalog::new();
    let files = vec![found("/root/a.jpg", None)];
    scan_files(&mut c, &files, moment(1, 0));
    let id = c.list_all()[0].id.clone();
    let ids = vec![id.clone(), "unknown-identity".to_string()];
    let plans = plan_thumbnails(&c, "/data/thumbnails", &ids);
    assert_eq!(plans.len(), 2);
    assert_eq!(plans[0].source.as_deref(), Some("/root/a.jpg"));
    assert_eq!(plans[0].dest, format!("/data/thumbnails/{}.jpg", id));
    assert!(plans[1].source.is_none());
}

#[test]
fn present_destination_is_a_cache_hit_and_never_extracts() {
    let plan = ThumbnailPlan {
        id: "abc".to_string(),
        source: Some("/root/a.jpg".to_string()),
        dest: "/data/thumbnails/abc.jpg".to_string(),
    };
    // the destination already exists: no extraction, twice in a row
    assert!(extraction_request(&plan, true).is_none());
    assert!(extraction_request(&plan, true).is_none());
    // absent destination: exactly the fixed request
    let req = extraction_request(&plan, false).unwrap();
    assert_eq!(req.source, "/root/a.jpg");
    assert_eq!(req.dest, "/data/thumbnails/abc.jpg");
    assert_eq!(req.max_width, 320);
    assert_eq!(req.seek_seconds, 1);
}

#[test]
fn no_source_means_no_extraction_request() {
    let plan = ThumbnailPlan {
        id: "abc".to_string(),
        source: None,
        dest: "/data/thumbnails/abc.jpg".to_string(),
    };
    assert!(extraction_request(&plan, false).is_none());
}

#[test]
fn a_failing_batch_item_never_blocks_the_rest() {
    let mut c = Catalog::new();
    let files = vec![
        found("/root/a.jpg", None),
        found("/root/b.jpg", None),
        found("/root/c.jpg", None),
        found("/root/d.jpg", None),
        found("/root/e.jpg", None),
    ];
    scan_files(&mut c, &files, moment(1, 0));
    let rows = c.list_all();
    assert_eq!(rows.len(), 5);
    // one of the five derivations failed (say its source went missing)
    let outcomes: Vec<ThumbnailOutcome> = rows
        .iter()
        .enumerate()
        .map(|(k, m)| ThumbnailOutcome {
            id: m.id.clone(),
            dest: format!("/data/thumbnails/{}.jpg", m.id),
            ok: k != 2,
        })
        .collect();
    let n = record_thumbnail_results(&mut c, &outcomes);
    assert_eq!(n, 4);
    let with_thumbs = c.list_all().iter().filter(|m| m.thumbnail_path.is_some()).count();
    assert_eq!(with_thumbs, 4);
}

#[test]
fn write_back_happens_only_after_reported_success() {
    let mut c = Catalog::new();
    let files = vec![found("/root/a.jpg", None)];
    scan_files(&mut c, &files, moment(1, 0));
    let id = c.list_all()[0].id.clone();
    let failure = vec![ThumbnailOutcome {
        id: id.clone(),
        dest: "/data/thumbnails/x.jpg".to_string(),
        ok: false,
    }];
    assert_eq!(record_thumbnail_results(&mut c, &failure), 0);
    assert!(c.list_all()[0].thumbnail_path.is_none());
    let success = vec![ThumbnailOutcome {
        id,
        dest: "/data/thumbnails/x.jpg".to_string(),
        ok: true,
    }];
    assert_eq!(record_thumbnail_results(&mut c, &success), 1);
    assert_eq!(c.list_all()[0].thumbnail_path.as_deref(), Some("/data/thumbnails/x.jpg"));
}

#[test]
fn unknown_identities_in_a_batch_are_skipped_not_counted() {
    let mut c = Catalog::new();
    let outcomes = vec![ThumbnailOutcome {
        id: "nobody".to_string(),
        dest: "/data/thumbnails/nobody.jpg".to_string(),
        ok: true,
    }];
    assert_eq!(record_thumbnail_results(&mut c, &outcomes), 0);
    assert!(c.list_all().is_empty());
}
