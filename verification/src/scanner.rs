//! The directory scanner's core: turning the files found under a root into
//! catalog records.
//!
//! Walking the directory tree, reading file sizes and timestamps, and
//! reading image bytes are filesystem work and happen outside; the scanner
//! receives one [`FoundFile`] per regular file, in whatever order the walk
//! produced them. It classifies each file by extension, silently skips
//! non-media, assigns each media file a fresh identity, and inserts a
//! record unless the path is already cataloged. The returned count is the
//! number of media files visited — duplicates included — so re-scanning an
//! already indexed tree returns the same count while inserting nothing.

use vstd::prelude::*;
use crate::catalog::Catalog;
use crate::catalog::Media;
use crate::catalog::contains_path;
use crate::catalog::stamped;
use crate::classify::MediaKind;
use crate::classify::classify;
use crate::classify::filename_of;
use crate::classify::spec_classify;
use crate::classify::spec_filename_of;
use crate::classify::spec_is_media;
use crate::timestamp::Timestamp;

verus! {

/// What the walk found for one regular file: its path, its filesystem
/// metadata, and — read from its bytes, for images — its capture date.
pub struct FoundFile {
    pub path: String,
    pub size: u64,
    pub modified: Option<Timestamp>,
    pub created: Option<Timestamp>,
    pub capture: Option<Timestamp>,
}

/// Relies on `uuid::Uuid::new_v4` and its hyphenated rendering: a fresh
/// random identifier always renders as 36 characters. Two calls need not
/// be related in any other way, so freedom from collision is checked
/// against the catalog rather than assumed.
#[verifier::external_body]
fn new_identity() -> (r: String)
    ensures
        r@.len() == 36,
{
    uuid::Uuid::new_v4().to_string()
}

/// The record the scanner builds for one found media file: its path and
/// filename, its classified kind, its filesystem metadata, a capture date
/// for images only, the scan time as indexing time, no thumbnail yet, and
/// not a favorite.
pub open spec fn record_for(m: Media, f: FoundFile, now: Timestamp) -> bool {
    &&& m.path@ == f.path@
    &&& m.filename@ == spec_filename_of(f.path@)
    &&& Some(m.kind) == spec_classify(f.path@)
    &&& m.mime_type is None
    &&& m.size == f.size
    &&& m.width is None
    &&& m.height is None
    &&& m.created_at == f.created
    &&& m.modified_at == f.modified
    &&& m.capture_date == (if m.kind == MediaKind::Image {
        f.capture
    } else {
        None
    })
    &&& m.indexed_at == Some(now)
    &&& m.is_favorite == false
    &&& m.thumbnail_path is None
}

/// The record stems from one of the batch's media files.
pub open spec fn from_batch(m: Media, files: Seq<FoundFile>, now: Timestamp) -> bool {
    exists|j: int|
        0 <= j < files.len() && spec_is_media((#[trigger] files[j]).path@) && record_for(
            m,
            files[j],
            now,
        )
}

/// How many of the found files are media files.
pub open spec fn count_media(files: Seq<FoundFile>) -> int {
    files.filter(|f: FoundFile| spec_is_media(f.path@)).len() as int
}

/// Scans one batch of found files into the catalog. Every media file is
/// counted; a record is inserted for it exactly when its path is not yet
/// cataloged, so existing records stand unchanged and a re-scan of known
/// paths changes nothing while returning the same count.
pub fn scan_files(catalog: &mut Catalog, files: &Vec<FoundFile>, now: Timestamp) -> (count: usize)
    requires
        old(catalog).wf(),
    ensures
        final(catalog).wf(),
        final(catalog).tag_rows() == old(catalog).tag_rows(),
        count == count_media(files@),
        final(catalog).records().len() >= old(catalog).records().len(),
        final(catalog).records().subrange(0, old(catalog).records().len() as int) == old(
            catalog,
        ).records(),
        forall|t: int|
            old(catalog).records().len() <= t < final(catalog).records().len() ==> {
                let m = #[trigger] final(catalog).records()[t];
                !contains_path(old(catalog).records(), m.path@) && from_batch(m, files@, now)
            },
        forall|j: int|
            0 <= j < files@.len() && spec_is_media((#[trigger] files@[j]).path@) ==> contains_path(
                final(catalog).records(),
                files@[j].path@,
            ),
        (forall|j: int|
            0 <= j < files@.len() && spec_is_media((#[trigger] files@[j]).path@)
                ==> contains_path(old(catalog).records(), files@[j].path@))
            ==> final(catalog).records() == old(catalog).records(),
{
    let n = files.len();
    let mut count: usize = 0;
    let mut i: usize = 0;
    while i < n
        invariant
            old(catalog).wf(),
            catalog.wf(),
            0 <= i <= n,
            n == files@.len(),
            catalog.tag_rows() == old(catalog).tag_rows(),
            count == count_media(files@.subrange(0, i as int)),
            count <= i,
            catalog.records().len() >= old(catalog).records().len(),
            catalog.records().subrange(0, old(catalog).records().len() as int) == old(
                catalog,
            ).records(),
            forall|t: int|
                old(catalog).records().len() <= t < catalog.records().len() ==> {
                    let m = #[trigger] catalog.records()[t];
                    !contains_path(old(catalog).records(), m.path@) && from_batch(m, files@, now)
                },
            forall|j: int|
                0 <= j < i && spec_is_media((#[trigger] files@[j]).path@) ==> contains_path(
                    catalog.records(),
                    files@[j].path@,
                ),
        decreases n - i,
    {
        let ghost pre_records = catalog.records();
        let ghost prefix = files@.subrange(0, i as int);
        let f = &files[i];
        let kind_opt = classify(f.path.as_str());
        match kind_opt {
            Some(kind) => {
                let id = catalog.fresh_identity(new_identity());
                let filename = filename_of(f.path.as_str());
                let capture: Option<Timestamp> = match kind {
                    MediaKind::Image => f.capture,
                    MediaKind::Video => None,
                };
                let rec = Media {
                    id,
                    path: f.path.clone(),
                    filename,
                    kind,
                    mime_type: None,
                    size: f.size,
                    width: None,
                    height: None,
                    created_at: f.created,
                    modified_at: f.modified,
                    capture_date: capture,
                    indexed_at: None,
                    is_favorite: false,
                    thumbnail_path: None,
                };
                let ghost grec = rec;
                let inserted = catalog.upsert_if_absent(rec, now);
                count += 1;
                proof {
                    if inserted {
                        assert(catalog.records() == pre_records.push(stamped(grec, now)));
                        assert(record_for(stamped(grec, now), files@[i as int], now));
                        assert forall|t: int|
                            old(catalog).records().len() <= t < catalog.records().len() implies {
                            let m = #[trigger] catalog.records()[t];
                            !contains_path(old(catalog).records(), m.path@) && from_batch(
                                m,
                                files@,
                                now,
                            )
                        } by {
                            if t < catalog.records().len() - 1 {
                                assert(catalog.records()[t] == pre_records[t]);
                            } else {
                                let m = catalog.records()[t];
                                assert(m == stamped(grec, now));
                                assert(!contains_path(pre_records, m.path@));
                                assert forall|u: int|
                                    0 <= u < old(catalog).records().len() implies (#[trigger] old(
                                    catalog,
                                ).records()[u]).path@ != m.path@ by {
                                    assert(old(catalog).records()[u] == pre_records[u]);
                                }
                            }
                        }
                        assert(catalog.records().subrange(
                            0,
                            old(catalog).records().len() as int,
                        ) =~= old(catalog).records());
                    }
                    // the file just visited is now present either way
                    if inserted {
                        let last = catalog.records().len() - 1;
                        assert((catalog.records()[last]).path@ == files@[i as int].path@);
                    }
                    // earlier media files stay present: records only grew
                    assert forall|j: int|
                        0 <= j < i + 1 && spec_is_media(
                            (#[trigger] files@[j]).path@,
                        ) implies contains_path(catalog.records(), files@[j].path@) by {
                        if j < i {
                            let w = choose|w: int|
                                0 <= w < pre_records.len() && (#[trigger] pre_records[w]).path@
                                    == files@[j].path@;
                            if inserted {
                                assert(catalog.records()[w] == pre_records[w]);
                            }
                        }
                    }
                }
            },
            None => {
            },
        }
        proof {
            reveal(Seq::filter);
            let post = files@.subrange(0, i + 1);
            assert(post.drop_last() =~= prefix);
            assert(post.last() == files@[i as int]);
        }
        i += 1;
    }
    proof {
        assert(files@.subrange(0, n as int) =~= files@);
        if forall|j: int|
            0 <= j < files@.len() && spec_is_media((#[trigger] files@[j]).path@) ==> contains_path(
                old(catalog).records(),
                files@[j].path@,
            ) {
            if catalog.records().len() > old(catalog).records().len() {
                let t = old(catalog).records().len() as int;
                let m = catalog.records()[t];
                assert(!contains_path(old(catalog).records(), m.path@) && from_batch(
                    m,
                    files@,
                    now,
                ));
                let j = choose|j: int|
                    0 <= j < files@.len() && spec_is_media((#[trigger] files@[j]).path@)
                        && record_for(m, files@[j], now);
                assert(contains_path(old(catalog).records(), files@[j].path@));
                assert(false);
            }
            assert(catalog.records() =~= old(catalog).records());
        }
    }
    count
}

} // verus!
