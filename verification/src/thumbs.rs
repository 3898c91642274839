//! The thumbnail cache's decisions: where a preview lives, when the
//! frame-extraction service must run, and how its outcomes are recorded.
//!
//! The cache key is the identity, never the source path or content: the
//! preview of identity `i` is the file `<cache dir>/<i>.jpg`. Whether that
//! file already exists, and running the external extraction tool, are
//! outside work; the decisions here guarantee that a present destination is
//! reused untouched (no second extraction) and that a write-back to the
//! catalog happens only for outcomes reported successful. One failed item
//! never blocks the rest of a batch: the recorded count reflects exactly
//! the successes.

use vstd::prelude::*;
use crate::catalog::Catalog;
use crate::catalog::Media;
use crate::catalog::contains_id;
use crate::catalog::with_thumb;

verus! {

/// The destination of an identity's preview: `<cache_dir>/<id>.jpg`.
pub open spec fn spec_thumb_dest(cache_dir: Seq<char>, id: Seq<char>) -> Seq<char> {
    cache_dir + "/"@ + id + ".jpg"@
}

/// Builds the destination path of an identity's preview.
pub fn thumbnail_destination(cache_dir: &str, id: &str) -> (r: String)
    ensures
        r@ == spec_thumb_dest(cache_dir@, id@),
{
    let mut s = cache_dir.to_owned();
    s.append("/");
    s.append(id);
    s.append(".jpg");
    s
}

/// One identity's thumbnail plan: its destination, and the source path of
/// its record — `None` when the catalog knows no such identity, which
/// skips this item and never the rest of the batch.
pub struct ThumbnailPlan {
    pub id: String,
    pub source: Option<String>,
    pub dest: String,
}

/// One invocation of the frame-extraction service: one frame of the
/// source, scaled to at most 320 pixels wide, taken one second in, written
/// as a JPEG to the destination.
pub struct ExtractionRequest {
    pub source: String,
    pub dest: String,
    pub max_width: u32,
    pub seek_seconds: u32,
}

/// The reported outcome of one identity's derivation attempt.
pub struct ThumbnailOutcome {
    pub id: String,
    pub dest: String,
    pub ok: bool,
}

/// Plans a thumbnail batch: one plan per requested identity, in order,
/// each with the cache destination for that identity and the source path
/// of its record, or no source when the identity is not cataloged.
pub fn plan_thumbnails(catalog: &Catalog, cache_dir: &str, ids: &Vec<String>) -> (plans: Vec<
    ThumbnailPlan,
>)
    requires
        catalog.wf(),
    ensures
        plans@.len() == ids@.len(),
        forall|k: int|
            0 <= k < ids@.len() ==> {
                let p = #[trigger] plans@[k];
                &&& p.id@ == ids@[k]@
                &&& p.dest@ == spec_thumb_dest(cache_dir@, ids@[k]@)
                &&& (match p.source {
                    Some(src) => exists|w: int|
                        0 <= w < catalog.records().len() && (#[trigger] catalog.records()[w]).id@
                            == ids@[k]@ && catalog.records()[w].path@ == src@,
                    None => !contains_id(catalog.records(), ids@[k]@),
                })
            },
{
    let n = ids.len();
    let mut plans: Vec<ThumbnailPlan> = Vec::new();
    let mut i: usize = 0;
    while i < n
        invariant
            catalog.wf(),
            0 <= i <= n,
            n == ids@.len(),
            plans@.len() == i,
            forall|k: int|
                0 <= k < i ==> {
                    let p = #[trigger] plans@[k];
                    &&& p.id@ == ids@[k]@
                    &&& p.dest@ == spec_thumb_dest(cache_dir@, ids@[k]@)
                    &&& (match p.source {
                        Some(src) => exists|w: int|
                            0 <= w < catalog.records().len() && (#[trigger] catalog.records(
                            )[w]).id@ == ids@[k]@ && catalog.records()[w].path@ == src@,
                        None => !contains_id(catalog.records(), ids@[k]@),
                    })
                },
        decreases n - i,
    {
        let dest = thumbnail_destination(cache_dir, ids[i].as_str());
        let source: Option<String> = match catalog.get_path_by_id(ids[i].as_str()) {
            Ok(p) => Some(p),
            Err(_) => None,
        };
        plans.push(ThumbnailPlan { id: ids[i].clone(), source, dest });
        i += 1;
    }
    plans
}

/// Decides whether the frame-extraction service must run for one plan: it
/// runs exactly when the destination file does not already exist and the
/// identity has a source. A present destination is a pure cache hit: no
/// request, the file untouched.
pub fn extraction_request(plan: &ThumbnailPlan, dest_exists: bool) -> (r: Option<ExtractionRequest>)
    ensures
        (r is Some) == (!dest_exists && plan.source is Some),
        dest_exists ==> r is None,
        (match r {
            Some(req) => {
                &&& plan.source == Some(req.source)
                &&& req.dest == plan.dest
                &&& req.max_width == 320
                &&& req.seek_seconds == 1
            },
            None => true,
        }),
{
    if dest_exists {
        return None;
    }
    match &plan.source {
        Some(src) => Some(
            ExtractionRequest {
                source: src.clone(),
                dest: plan.dest.clone(),
                max_width: 320,
                seek_seconds: 1,
            },
        ),
        None => None,
    }
}

/// The records after each identity of a successful outcome got its
/// thumbnail path set.
pub open spec fn set_thumb_seq(records: Seq<Media>, id: Seq<char>, dest: String) -> Seq<Media> {
    records.map_values(
        |m: Media|
            if m.id@ == id {
                with_thumb(m, dest)
            } else {
                m
            },
    )
}

/// The records and the success count after recording a batch of outcomes
/// in order: each successful outcome whose identity is cataloged sets that
/// record's thumbnail path and counts; every other outcome changes nothing
/// and does not count.
pub open spec fn spec_apply_outcomes(records: Seq<Media>, outs: Seq<ThumbnailOutcome>) -> (
    Seq<Media>,
    int,
)
    decreases outs.len(),
{
    if outs.len() == 0 {
        (records, 0int)
    } else {
        let prev = spec_apply_outcomes(records, outs.drop_last());
        let o = outs.last();
        if o.ok && contains_id(prev.0, o.id@) {
            (set_thumb_seq(prev.0, o.id@, o.dest), prev.1 + 1)
        } else {
            prev
        }
    }
}

/// Applying outcomes never adds, removes or re-keys records, and the count
/// is exactly the number of successful outcomes whose identity is
/// cataloged — one failed or unknown item is skipped, never the rest.
pub proof fn lemma_apply_outcomes(records: Seq<Media>, outs: Seq<ThumbnailOutcome>)
    ensures
        spec_apply_outcomes(records, outs).0.len() == records.len(),
        forall|k: int|
            0 <= k < records.len() ==> (#[trigger] spec_apply_outcomes(records, outs).0[k]).id@
                == records[k].id@ && spec_apply_outcomes(records, outs).0[k].path@
                == records[k].path@,
        spec_apply_outcomes(records, outs).1 == outs.filter(
            |o: ThumbnailOutcome| o.ok && contains_id(records, o.id@),
        ).len(),
    decreases outs.len(),
{
    reveal(Seq::filter);
    if outs.len() > 0 {
        lemma_apply_outcomes(records, outs.drop_last());
        let prev = spec_apply_outcomes(records, outs.drop_last());
        let o = outs.last();
        assert(contains_id(prev.0, o.id@) == contains_id(records, o.id@)) by {
            if contains_id(prev.0, o.id@) {
                let w = choose|w: int|
                    0 <= w < prev.0.len() && (#[trigger] prev.0[w]).id@ == o.id@;
                assert(records[w].id@ == o.id@);
            }
            if contains_id(records, o.id@) {
                let w = choose|w: int|
                    0 <= w < records.len() && (#[trigger] records[w]).id@ == o.id@;
                assert(prev.0[w].id@ == o.id@);
            }
        }
    }
}

/// Records a batch of derivation outcomes: for each outcome reported
/// successful whose identity is cataloged, and only for those, the
/// record's thumbnail path is set to the outcome's destination; the
/// returned count is the number of such write-backs.
pub fn record_thumbnail_results(catalog: &mut Catalog, outcomes: &Vec<ThumbnailOutcome>) -> (n:
    usize)
    requires
        old(catalog).wf(),
    ensures
        final(catalog).wf(),
        final(catalog).tag_rows() == old(catalog).tag_rows(),
        final(catalog).records() == spec_apply_outcomes(old(catalog).records(), outcomes@).0,
        n as int == spec_apply_outcomes(old(catalog).records(), outcomes@).1,
{
    let m = outcomes.len();
    let mut n: usize = 0;
    let mut i: usize = 0;
    while i < m
        invariant
            old(catalog).wf(),
            catalog.wf(),
            0 <= i <= m,
            m == outcomes@.len(),
            n <= i,
            catalog.tag_rows() == old(catalog).tag_rows(),
            catalog.records() == spec_apply_outcomes(
                old(catalog).records(),
                outcomes@.subrange(0, i as int),
            ).0,
            n as int == spec_apply_outcomes(
                old(catalog).records(),
                outcomes@.subrange(0, i as int),
            ).1,
        decreases m - i,
    {
        let ghost pre_records = catalog.records();
        let ghost prefix = outcomes@.subrange(0, i as int);
        let o = &outcomes[i];
        if o.ok {
            let updated = catalog.set_thumbnail_path(o.id.as_str(), o.dest.clone());
            if updated {
                n += 1;
                proof {
                    let w = choose|w: int|
                        0 <= w < pre_records.len() && (#[trigger] pre_records[w]).id@
                            == outcomes@[i as int].id@ && catalog.records() == pre_records.update(
                            w,
                            with_thumb(pre_records[w], outcomes@[i as int].dest),
                        );
                    assert forall|k: int| 0 <= k < pre_records.len() implies #[trigger] catalog.records()[k]
                        == set_thumb_seq(
                        pre_records,
                        outcomes@[i as int].id@,
                        outcomes@[i as int].dest,
                    )[k] by {
                        if k != w {
                            assert(pre_records[k].id@ != outcomes@[i as int].id@);
                        }
                    }
                    assert(catalog.records() =~= set_thumb_seq(
                        pre_records,
                        outcomes@[i as int].id@,
                        outcomes@[i as int].dest,
                    ));
                }
            }
        }
        proof {
            let post = outcomes@.subrange(0, i + 1);
            assert(post.drop_last() =~= prefix);
            assert(post.last() == outcomes@[i as int]);
        }
        i += 1;
    }
    proof {
        assert(outcomes@.subrange(0, m as int) =~= outcomes@);
    }
    n
}

} // verus!
