use luminaire::catalog::{Catalog, CatalogError, Media};
use luminaire::classify::MediaKind;
use luminaire::Timestamp;

fn day(d: u8) -> Timestamp {
    Timestamp { year: 2023, month: 5, day: d, hour: 12, minute: 0, second: 0 }
}

fn record(id: &str, path: &str, filename: &str, capture: Option<Timestamp>) -> Media {
    Media {
        id: id.to_string(),
        path: path.to_string(),
        filename: filename.to_string(),
        kind: MediaKind::Image,
        mime_type: None,
        size: 1000,
        width: None,
        height: None,
        created_at: None,
        modified_at: None,
        capture_date: capture,
        indexed_at: None,
        is_favorite: false,
        thumbnail_path: None,
    }
}

#[test]
fn upsert_inserts_fresh_paths_and_ignores_known_ones() {
    let mut c = Catalog::new();
    assert!(c.upsert_if_absent(record("a", "/p/x.jpg", "x.jpg", None), day(1)));
    // same path, different identity: ignored
    assert!(!c.upsert_if_absent(record("b", "/p/x.jpg", "x.jpg", None), day(2)));
    // same identity, different path: ignored
    assert!(!c.upsert_if_absent(record("a", "/p/y.jpg", "y.jpg", None), day(2)));
    assert!(c.upsert_if_absent(record("b", "/p/y.jpg", "y.jpg", None), day(2)));
    assert_eq!(c.list_all().len(), 2);
}

#[test]
fn upsert_stamps_the_indexing_time_once() {
    let mut c = Catalog::new();
    c.upsert_if_absent(record("a", "/p/x.jpg", "x.jpg", None), day(3));
    let rows = c.list_all();
    assert_eq!(rows[0].indexed_at, Some(day(3)));
    // a pre-set indexing time is kept
    let mut with_time = record("b", "/p/y.jpg", "y.jpg", None);
    with_time.indexed_at = Some(day(1));
    c.upsert_if_absent(with_time, day(4));
    let rows = c.list_all();
    let b = rows.iter().find(|m| m.id == "b").unwrap();
    assert_eq!(b.indexed_at, Some(day(1)));
}

#[test]
fn list_all_orders_by_capture_date_newest_first_nulls_last() {
    let mut c = Catalog::new();
    c.upsert_if_absent(record("old", "/p/a.jpg", "a.jpg", Some(day(1))), day(9));
    c.upsert_if_absent(record("none", "/p/b.jpg", "b.jpg", None), day(9));
    c.upsert_if_absent(record("new", "/p/c.jpg", "c.jpg", Some(day(5))), day(9));
    let rows = c.list_all();
    assert_eq!(rows.len(), 3);
    assert_eq!(rows[0].id, "new");
    assert_eq!(rows[1].id, "old");
    assert_eq!(rows[2].id, "none");
}

#[test]
fn listing_ties_fall_back_to_created_at() {
    let mut c = Catalog::new();
    let mut a = record("a", "/p/a.jpg", "a.jpg", None);
    a.created_at = Some(day(2));
    let mut b = record("b", "/p/b.jpg", "b.jpg", None);
    b.created_at = Some(day(7));
    c.upsert_if_absent(a, day(9));
    c.upsert_if_absent(b, day(9));
    let rows = c.list_all();
    assert_eq!(rows[0].id, "b");
    assert_eq!(rows[1].id, "a");
}

#[test]
fn search_matches_filename_or_tag_without_duplicates() {
    let mut c = Catalog::new();
    c.upsert_if_absent(record("m1", "/p/beach.jpg", "beach.jpg", None), day(1));
    assert!(c.add_tag("m1".to_string(), "sunset".to_string(), Some(900), None));
    // "sun" matches the tag only; the record comes back exactly once
    let hits = c.search("sun");
    assert_eq!(hits.len(), 1);
    assert_eq!(hits[0].id, "m1");
    // "beach" matches the filename only
    assert_eq!(c.search("beach").len(), 1);
    // "ea" matches the filename; even a second matching tag must not duplicate
    assert!(c.add_tag("m1".to_string(), "seaside".to_string(), None, None));
    let hits = c.search("ea");
    assert_eq!(hits.len(), 1);
    // no match at all
    assert!(c.search("winter").is_empty());
}

#[test]
fn search_with_empty_query_returns_everything() {
    let mut c = Catalog::new();
    c.upsert_if_absent(record("a", "/p/a.jpg", "a.jpg", None), day(1));
    c.upsert_if_absent(record("b", "/p/b.jpg", "b.jpg", None), day(1));
    assert_eq!(c.search("").len(), 2);
}

#[test]
fn add_tag_refuses_unknown_identities() {
    let mut c = Catalog::new();
    assert!(!c.add_tag("ghostly".to_string(), "tag".to_string(), None, None));
}

#[test]
fn get_path_by_id_finds_known_and_rejects_unknown() {
    let mut c = Catalog::new();
    c.upsert_if_absent(record("a", "/p/a.jpg", "a.jpg", None), day(1));
    assert_eq!(c.get_path_by_id("a").unwrap(), "/p/a.jpg");
    assert_eq!(c.get_path_by_id("b").unwrap_err(), CatalogError::NotFound);
}

#[test]
fn set_thumbnail_path_updates_only_the_named_record() {
    let mut c = Catalog::new();
    c.upsert_if_absent(record("a", "/p/a.jpg", "a.jpg", None), day(1));
    c.upsert_if_absent(record("b", "/p/b.jpg", "b.jpg", None), day(1));
    assert!(c.set_thumbnail_path("a", "/t/a.jpg".to_string()));
    assert!(!c.set_thumbnail_path("zz", "/t/zz.jpg".to_string()));
    let rows = c.list_all();
    let a = rows.iter().find(|m| m.id == "a").unwrap();
    let b = rows.iter().find(|m| m.id == "b").unwrap();
    assert_eq!(a.thumbnail_path.as_deref(), Some("/t/a.jpg"));
    assert!(b.thumbnail_path.is_none());
}
