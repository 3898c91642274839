//! The catalog: one record per discovered media file, with free-text tags.
//!
//! The catalog enforces at its boundary that paths and identities are
//! unique, inserts records only when their path is absent (re-scanning is a
//! no-op for known paths), and answers listing and substring-search queries
//! ordered by capture date, newest first, records without one last, with
//! the creation timestamp as tie-breaker under the same rule.

use vstd::prelude::*;
use vstd::relations::sorted_by;
use crate::classify::MediaKind;
use crate::text::contains_substr;
use crate::text::contains_str;
use crate::text::str_eq;
use crate::timestamp::Timestamp;

verus! {

/// One catalog row per discovered media file.
pub struct Media {
    pub id: String,
    pub path: String,
    pub filename: String,
    pub kind: MediaKind,
    pub mime_type: Option<String>,
    pub size: u64,
    pub width: Option<u32>,
    pub height: Option<u32>,
    pub created_at: Option<Timestamp>,
    pub modified_at: Option<Timestamp>,
    pub capture_date: Option<Timestamp>,
    pub indexed_at: Option<Timestamp>,
    pub is_favorite: bool,
    pub thumbnail_path: Option<String>,
}

/// A free-text tag attached to one media record. The confidence, when
/// given, is in thousandths (0 through 1000 stands for 0.0 through 1.0).
pub struct TagRecord {
    pub media_id: String,
    pub tag: String,
    pub confidence_permille: Option<u16>,
    pub source: Option<String>,
}

/// An identity that no record carries.
#[derive(Clone, Copy, PartialEq, Eq, Structural, Debug)]
pub enum CatalogError {
    NotFound,
}

fn clone_opt_string(o: &Option<String>) -> (r: Option<String>)
    ensures
        r == *o,
{
    match o {
        Some(s) => Some(s.clone()),
        None => None,
    }
}

impl Clone for Media {
    fn clone(&self) -> (r: Self)
        ensures
            r == *self,
    {
        Media {
            id: self.id.clone(),
            path: self.path.clone(),
            filename: self.filename.clone(),
            kind: self.kind,
            mime_type: clone_opt_string(&self.mime_type),
            size: self.size,
            width: self.width,
            height: self.height,
            created_at: self.created_at,
            modified_at: self.modified_at,
            capture_date: self.capture_date,
            indexed_at: self.indexed_at,
            is_favorite: self.is_favorite,
            thumbnail_path: clone_opt_string(&self.thumbnail_path),
        }
    }
}

/// `a` sorts strictly before `b` under "newest first, absent last".
pub open spec fn opt_desc_lt(a: Option<Timestamp>, b: Option<Timestamp>) -> bool {
    match (a, b) {
        (Some(x), Some(y)) => y.spec_lt(x),
        (Some(_), None) => true,
        (None, _) => false,
    }
}

/// `a` sorts no later than `b`: by capture date, newest first and absent
/// last, then by creation timestamp under the same rule.
pub open spec fn media_le(a: Media, b: Media) -> bool {
    ||| opt_desc_lt(a.capture_date, b.capture_date)
    ||| (a.capture_date == b.capture_date && (opt_desc_lt(a.created_at, b.created_at)
        || a.created_at == b.created_at))
}

/// The catalog's listing order as a comparison function.
pub open spec fn media_order() -> spec_fn(Media, Media) -> bool {
    |a: Media, b: Media| media_le(a, b)
}

/// The listing order is total and transitive.
pub proof fn lemma_media_order(a: Media, b: Media, c: Media)
    ensures
        media_le(a, b) || media_le(b, a),
        media_le(a, b) && media_le(b, c) ==> media_le(a, c),
{
}

fn opt_ts_eq(a: &Option<Timestamp>, b: &Option<Timestamp>) -> (r: bool)
    ensures
        r == (*a == *b),
{
    match (a, b) {
        (Some(x), Some(y)) => x == y,
        (None, None) => true,
        _ => false,
    }
}

fn opt_desc_lt_exec(a: &Option<Timestamp>, b: &Option<Timestamp>) -> (r: bool)
    ensures
        r == opt_desc_lt(*a, *b),
{
    match (a, b) {
        (Some(x), Some(y)) => y.lt(x),
        (Some(_), None) => true,
        (None, _) => false,
    }
}

fn media_le_exec(a: &Media, b: &Media) -> (r: bool)
    ensures
        r == media_le(*a, *b),
{
    if opt_desc_lt_exec(&a.capture_date, &b.capture_date) {
        true
    } else if opt_ts_eq(&a.capture_date, &b.capture_date) {
        opt_desc_lt_exec(&a.created_at, &b.created_at) || opt_ts_eq(&a.created_at, &b.created_at)
    } else {
        false
    }
}

/// Some record in `s` carries the path `p`.
pub open spec fn contains_path(s: Seq<Media>, p: Seq<char>) -> bool {
    exists|i: int| 0 <= i < s.len() && (#[trigger] s[i]).path@ == p
}

/// Some record in `s` carries the identity `id`.
pub open spec fn contains_id(s: Seq<Media>, id: Seq<char>) -> bool {
    exists|i: int| 0 <= i < s.len() && (#[trigger] s[i]).id@ == id
}

/// The record as stored: the insertion time fills a missing `indexed_at`.
pub open spec fn stamped(rec: Media, now: Timestamp) -> Media {
    Media {
        indexed_at: if rec.indexed_at is Some {
            rec.indexed_at
        } else {
            Some(now)
        },
        ..rec
    }
}

/// The record with its thumbnail path set.
pub open spec fn with_thumb(m: Media, t: String) -> Media {
    Media { thumbnail_path: Some(t), ..m }
}

/// A record matches a query when its filename, or the text of one of its
/// tags, contains the query as a substring.
pub open spec fn record_matches(m: Media, tags: Seq<TagRecord>, q: Seq<char>) -> bool {
    ||| contains_substr(m.filename@, q)
    ||| exists|t: int|
        0 <= t < tags.len() && #[trigger] tags[t].media_id@ == m.id@ && contains_substr(
            tags[t].tag@,
            q,
        )
}

/// The store of all discovered media and their tags.
pub struct Catalog {
    media: Vec<Media>,
    tags: Vec<TagRecord>,
}

/// The search predicate of a catalog for a query.
pub open spec fn search_pred(c: Catalog, q: Seq<char>) -> spec_fn(Media) -> bool {
    |m: Media| record_matches(m, c.tag_rows(), q)
}

impl Catalog {
    /// The media records, in insertion order.
    pub closed spec fn records(self) -> Seq<Media> {
        self.media@
    }

    /// The tag rows, in insertion order.
    pub closed spec fn tag_rows(self) -> Seq<TagRecord> {
        self.tags@
    }

    /// The schema invariant: no two records share a path or an identity.
    pub open spec fn wf(self) -> bool {
        forall|i: int, j: int|
            0 <= i < j < self.records().len() ==> (#[trigger] self.records()[i]).path@
                != (#[trigger] self.records()[j]).path@ && self.records()[i].id@
                != self.records()[j].id@
    }

    /// An empty catalog.
    pub fn new() -> (c: Catalog)
        ensures
            c.wf(),
            c.records() == Seq::<Media>::empty(),
            c.tag_rows() == Seq::<TagRecord>::empty(),
    {
        Catalog { media: Vec::new(), tags: Vec::new() }
    }

    /// Inserts the record unless its path or its identity is already
    /// present; a present path or identity leaves the catalog untouched.
    /// The insertion time fills a missing `indexed_at`. Returns whether the
    /// record was inserted.
    pub fn upsert_if_absent(&mut self, rec: Media, now: Timestamp) -> (inserted: bool)
        requires
            old(self).wf(),
        ensures
            final(self).wf(),
            final(self).tag_rows() == old(self).tag_rows(),
            inserted == (!contains_path(old(self).records(), rec.path@) && !contains_id(
                old(self).records(),
                rec.id@,
            )),
            inserted ==> final(self).records() == old(self).records().push(stamped(rec, now)),
            !inserted ==> final(self).records() == old(self).records(),
    {
        let n = self.media.len();
        let mut i: usize = 0;
        while i < n
            invariant
                old(self).wf(),
                0 <= i <= n,
                n == self.media@.len(),
                *self == *old(self),
                forall|j: int|
                    0 <= j < i ==> (#[trigger] self.media@[j]).path@ != rec.path@
                        && self.media@[j].id@ != rec.id@,
            decreases n - i,
        {
            if str_eq(self.media[i].path.as_str(), rec.path.as_str()) || str_eq(
                self.media[i].id.as_str(),
                rec.id.as_str(),
            ) {
                return false;
            }
            i += 1;
        }
        let indexed: Option<Timestamp> = match rec.indexed_at {
            Some(t) => Some(t),
            None => Some(now),
        };
        let stored = Media { indexed_at: indexed, ..rec };
        assert(stored == stamped(rec, now));
        self.media.push(stored);
        proof {
            let s = self.media@;
            assert forall|p: int, q: int| 0 <= p < q < s.len() implies (#[trigger] s[p]).path@
                != (#[trigger] s[q]).path@ && s[p].id@ != s[q].id@ by {
                if q == s.len() - 1 {
                    assert(s[p] == old(self).records()[p]);
                }
            }
        }
        true
    }

    /// Attaches a tag to the record with the given identity; an unknown
    /// identity leaves the catalog untouched. Returns whether the tag was
    /// added.
    pub fn add_tag(
        &mut self,
        media_id: String,
        tag: String,
        confidence_permille: Option<u16>,
        source: Option<String>,
    ) -> (added: bool)
        requires
            old(self).wf(),
        ensures
            final(self).wf(),
            final(self).records() == old(self).records(),
            added == contains_id(old(self).records(), media_id@),
            added ==> final(self).tag_rows() == old(self).tag_rows().push(
                (TagRecord { media_id, tag, confidence_permille, source }),
            ),
            !added ==> final(self).tag_rows() == old(self).tag_rows(),
    {
        let n = self.media.len();
        let mut i: usize = 0;
        while i < n
            invariant
                old(self).wf(),
                0 <= i <= n,
                n == self.media@.len(),
                *self == *old(self),
                forall|j: int| 0 <= j < i ==> (#[trigger] self.media@[j]).id@ != media_id@,
            decreases n - i,
        {
            if str_eq(self.media[i].id.as_str(), media_id.as_str()) {
                self.tags.push(TagRecord { media_id, tag, confidence_permille, source });
                return true;
            }
            i += 1;
        }
        false
    }

    /// Decides whether some record carries the identity.
    fn has_id(&self, id: &str) -> (r: bool)
        ensures
            r == contains_id(self.records(), id@),
    {
        let n = self.media.len();
        let mut i: usize = 0;
        while i < n
            invariant
                0 <= i <= n,
                n == self.media@.len(),
                forall|j: int| 0 <= j < i ==> (#[trigger] self.media@[j]).id@ != id@,
            decreases n - i,
        {
            if str_eq(self.media[i].id.as_str(), id) {
                return true;
            }
            i += 1;
        }
        false
    }

    /// An identity no record carries: the candidate itself when it is free,
    /// else a fresh string built longer than every stored identity.
    pub fn fresh_identity(&self, candidate: String) -> (r: String)
        ensures
            !contains_id(self.records(), r@),
    {
        if !self.has_id(candidate.as_str()) {
            return candidate;
        }
        let n = self.media.len();
        let mut s = String::new();
        let mut i: usize = 0;
        while i < n
            invariant
                0 <= i <= n,
                n == self.media@.len(),
                forall|j: int| 0 <= j < i ==> s@.len() >= (#[trigger] self.media@[j]).id@.len(),
            decreases n - i,
        {
            s.append(self.media[i].id.as_str());
            i += 1;
        }
        s.append("x");
        proof {
            reveal_strlit("x");
            assert forall|j: int| 0 <= j < self.records().len() implies (#[trigger] self.records(
            )[j]).id@ != s@ by {
                assert(s@.len() > self.records()[j].id@.len());
            }
        }
        s
    }

    /// The path of the record with the given identity; `NotFound` when no
    /// record carries it.
    pub fn get_path_by_id(&self, id: &str) -> (r: Result<String, CatalogError>)
        requires
            self.wf(),
        ensures
            (match r {
                Ok(p) => exists|i: int|
                    0 <= i < self.records().len() && (#[trigger] self.records()[i]).id@ == id@
                        && self.records()[i].path@ == p@,
                Err(e) => e == CatalogError::NotFound && !contains_id(self.records(), id@),
            }),
    {
        let n = self.media.len();
        let mut i: usize = 0;
        while i < n
            invariant
                self.wf(),
                0 <= i <= n,
                n == self.media@.len(),
                forall|j: int| 0 <= j < i ==> (#[trigger] self.media@[j]).id@ != id@,
            decreases n - i,
        {
            if str_eq(self.media[i].id.as_str(), id) {
                return Ok(self.media[i].path.clone());
            }
            i += 1;
        }
        Err(CatalogError::NotFound)
    }

    /// Sets the thumbnail path of the record with the given identity; an
    /// unknown identity leaves the catalog untouched. Returns whether a
    /// record was updated.
    pub fn set_thumbnail_path(&mut self, id: &str, thumb: String) -> (updated: bool)
        requires
            old(self).wf(),
        ensures
            final(self).wf(),
            final(self).tag_rows() == old(self).tag_rows(),
            updated == contains_id(old(self).records(), id@),
            updated ==> exists|i: int|
                0 <= i < old(self).records().len() && (#[trigger] old(self).records()[i]).id@ == id@
                    && final(self).records() == old(self).records().update(
                    i,
                    with_thumb(old(self).records()[i], thumb),
                ),
            !updated ==> final(self).records() == old(self).records(),
    {
        let n = self.media.len();
        let mut i: usize = 0;
        while i < n
            invariant
                old(self).wf(),
                0 <= i <= n,
                n == self.media@.len(),
                *self == *old(self),
                forall|j: int| 0 <= j < i ==> (#[trigger] self.media@[j]).id@ != id@,
            decreases n - i,
        {
            if str_eq(self.media[i].id.as_str(), id) {
                let m = self.media.remove(i);
                let updated_rec = Media { thumbnail_path: Some(thumb), ..m };
                self.media.insert(i, updated_rec);
                proof {
                    let u = old(self).records();
                    assert(self.media@ =~= u.update(i as int, with_thumb(u[i as int], thumb)));
                    assert forall|p: int, q: int| 0 <= p < q < self.media@.len() implies
                        (#[trigger] self.media@[p]).path@ != (#[trigger] self.media@[q]).path@
                        && self.media@[p].id@ != self.media@[q].id@ by {
                        assert(self.media@[p].path@ == u[p].path@ && self.media@[p].id@
                            == u[p].id@);
                        assert(self.media@[q].path@ == u[q].path@ && self.media@[q].id@
                            == u[q].id@);
                    }
                }
                return true;
            }
            i += 1;
        }
        false
    }

    /// All records, ordered by the catalog's listing order.
    pub fn list_all(&self) -> (r: Vec<Media>)
        ensures
            sorted_by(r@, media_order()),
            r@.to_multiset() == self.records().to_multiset(),
    {
        let n = self.media.len();
        let mut copy: Vec<Media> = Vec::new();
        let mut i: usize = 0;
        while i < n
            invariant
                0 <= i <= n,
                n == self.media@.len(),
                copy@ == self.records().subrange(0, i as int),
            decreases n - i,
        {
            copy.push(self.media[i].clone());
            proof {
                assert(copy@ =~= self.records().subrange(0, i + 1));
            }
            i += 1;
        }
        assert(copy@ =~= self.records());
        sort_media(copy)
    }

    /// The records matching a query — by filename or by any of their tags,
    /// each matching record exactly once — in the catalog's listing order.
    pub fn search(&self, query: &str) -> (r: Vec<Media>)
        ensures
            sorted_by(r@, media_order()),
            r@.to_multiset() == self.records().filter(search_pred(*self, query@)).to_multiset(),
    {
        let ghost pred = search_pred(*self, query@);
        let n = self.media.len();
        let mut matched: Vec<Media> = Vec::new();
        let mut i: usize = 0;
        while i < n
            invariant
                0 <= i <= n,
                n == self.media@.len(),
                pred == search_pred(*self, query@),
                matched@ == self.records().subrange(0, i as int).filter(pred),
            decreases n - i,
        {
            let ghost pre = self.records().subrange(0, i as int);
            let m = &self.media[i];
            if matches_record(m, &self.tags, query) {
                matched.push(m.clone());
            }
            proof {
                reveal(Seq::filter);
                let post = self.records().subrange(0, i + 1);
                assert(post.drop_last() =~= pre);
                assert(post.last() == self.records()[i as int]);
            }
            i += 1;
        }
        assert(self.records().subrange(0, n as int) =~= self.records());
        sort_media(matched)
    }
}

/// Everything a filter keeps was in the sequence.
proof fn lemma_filter_subset(s: Seq<Media>, pred: spec_fn(Media) -> bool)
    ensures
        forall|x: Media| #[trigger] s.filter(pred).contains(x) ==> s.contains(x),
    decreases s.len(),
{
    reveal(Seq::filter);
    if s.len() > 0 {
        let rest = s.drop_last();
        lemma_filter_subset(rest, pred);
        assert forall|x: Media| #[trigger] s.filter(pred).contains(x) implies s.contains(x) by {
            if rest.filter(pred).contains(x) {
                let w = choose|w: int| 0 <= w < rest.len() && rest[w] == x;
                assert(s[w] == x);
            } else {
                assert(x == s.last());
                assert(s[s.len() - 1] == x);
            }
        }
    }
}

/// A filter of a sequence without duplicates has none either.
proof fn lemma_filter_no_duplicates(s: Seq<Media>, pred: spec_fn(Media) -> bool)
    requires
        s.no_duplicates(),
    ensures
        s.filter(pred).no_duplicates(),
    decreases s.len(),
{
    reveal(Seq::filter);
    if s.len() > 0 {
        let rest = s.drop_last();
        lemma_filter_no_duplicates(rest, pred);
        if pred(s.last()) {
            assert(!rest.filter(pred).contains(s.last())) by {
                lemma_filter_subset(rest, pred);
                if rest.contains(s.last()) {
                    let w = choose|w: int| 0 <= w < rest.len() && rest[w] == s.last();
                    assert(s[w] == s[s.len() - 1]);
                    assert(false);
                }
            }
        }
    }
}

/// In a catalog with unique paths, a search returns each matching record
/// at most once: however many of its columns match — filename, one tag or
/// several — no record is counted twice in the result.
pub proof fn lemma_search_unique(c: Catalog, q: Seq<char>)
    requires
        c.wf(),
    ensures
        forall|m: Media|
            #[trigger] c.records().filter(search_pred(c, q)).to_multiset().count(m) <= 1,
{
    broadcast use vstd::seq_lib::group_to_multiset_ensures;
    broadcast use vstd::multiset::group_multiset_axioms;

    let s = c.records();
    assert(s.no_duplicates()) by {
        assert forall|i: int, j: int|
            0 <= i < s.len() && 0 <= j < s.len() && i != j implies s[i] != s[j] by {
            if i < j {
                assert(s[i].path@ != s[j].path@);
            } else {
                assert(s[j].path@ != s[i].path@);
            }
        }
    }
    let kept = s.filter(search_pred(c, q));
    lemma_filter_no_duplicates(s, search_pred(c, q));
    kept.lemma_multiset_has_no_duplicates();
    assert forall|m: Media| #[trigger] kept.to_multiset().count(m) <= 1 by {
        if kept.to_multiset().count(m) > 0 {
            assert(kept.to_multiset().contains(m));
        }
    }
}

fn matches_record(m: &Media, tags: &Vec<TagRecord>, q: &str) -> (r: bool)
    ensures
        r == record_matches(*m, tags@, q@),
{
    if contains_str(m.filename.as_str(), q) {
        return true;
    }
    let n = tags.len();
    let mut i: usize = 0;
    while i < n
        invariant
            0 <= i <= n,
            n == tags@.len(),
            forall|j: int|
                0 <= j < i ==> !(#[trigger] tags@[j].media_id@ == m.id@ && contains_substr(
                    tags@[j].tag@,
                    q@,
                )),
        decreases n - i,
    {
        if str_eq(tags[i].media_id.as_str(), m.id.as_str()) && contains_str(
            tags[i].tag.as_str(),
            q,
        ) {
            return true;
        }
        i += 1;
    }
    false
}

/// Inserts a record into a sorted vector, keeping it sorted.
fn sorted_insert(v: &mut Vec<Media>, rec: Media)
    requires
        sorted_by(old(v)@, media_order()),
    ensures
        sorted_by(final(v)@, media_order()),
        final(v)@.to_multiset() == old(v)@.to_multiset().insert(rec),
{
    let n = v.len();
    let mut i: usize = 0;
    loop
        invariant_except_break
            0 <= i <= n,
            n == v@.len(),
            *v == *old(v),
            forall|j: int| 0 <= j < i ==> media_le(#[trigger] v@[j], rec),
        ensures
            0 <= i <= n,
            n == v@.len(),
            *v == *old(v),
            forall|j: int| 0 <= j < i ==> media_le(#[trigger] v@[j], rec),
            i < n ==> !media_le(v@[i as int], rec),
        decreases n - i,
    {
        if i == n {
            break ;
        }
        if !media_le_exec(&v[i], &rec) {
            break ;
        }
        i += 1;
    }
    proof {
        if i < n {
            lemma_media_order(v@[i as int], rec, rec);
        }
    }
    let ghost u = v@;
    v.insert(i, rec);
    proof {
        let s = v@;
        assert forall|p: int, q: int| 0 <= p < q < s.len() implies #[trigger] media_order()(
            s[p],
            s[q],
        ) by {
            let leq = media_order();
            if q < i {
                assert(leq(u[p], u[q]));
            } else if p < i && q == i {
                assert(media_le(u[p], rec));
            } else if p < i && q > i {
                assert(leq(u[p], u[q - 1]));
            } else if p == i {
                // s[p] == rec; s[q] == u[q - 1] with q - 1 >= i
                if q - 1 == i {
                    assert(media_le(rec, u[i as int]));
                } else {
                    assert(media_le(rec, u[i as int]));
                    assert(leq(u[i as int], u[q - 1]));
                    lemma_media_order(rec, u[i as int], u[q - 1]);
                }
            } else {
                assert(leq(u[p - 1], u[q - 1]));
            }
        }
        broadcast use vstd::seq_lib::group_to_multiset_ensures;
        broadcast use vstd::multiset::group_multiset_axioms;

        assert(s.remove(i as int) =~= u);
        assert(s[i as int] == rec);
        assert(s.remove(i as int).to_multiset() =~= s.to_multiset().remove(s[i as int]));
        assert(u.to_multiset() =~= s.to_multiset().remove(rec));
        assert(s.contains(rec)) by {
            assert(s[i as int] == rec);
        }
        assert(s.to_multiset().count(rec) > 0);
        assert(s.to_multiset() =~= u.to_multiset().insert(rec));
    }
}

/// Sorts records by the catalog's listing order.
fn sort_media(v: Vec<Media>) -> (r: Vec<Media>)
    ensures
        sorted_by(r@, media_order()),
        r@.to_multiset() == v@.to_multiset(),
{
    let ghost orig = v@;
    let mut rest = v;
    let mut out: Vec<Media> = Vec::new();
    proof {
        broadcast use vstd::seq_lib::group_to_multiset_ensures;
        broadcast use vstd::multiset::group_multiset_axioms;

        assert forall|x: Media| out@.to_multiset().count(x) == 0 by {
            if out@.to_multiset().count(x) > 0 {
                assert(out@.contains(x));
            }
        }
        assert(out@.to_multiset().add(rest@.to_multiset()) =~= orig.to_multiset());
    }
    while rest.len() > 0
        invariant
            sorted_by(out@, media_order()),
            out@.to_multiset().add(rest@.to_multiset()) == orig.to_multiset(),
        decreases rest@.len(),
    {
        let ghost rest_pre = rest@;
        let ghost out_pre = out@;
        let x = rest.remove(0);
        sorted_insert(&mut out, x);
        proof {
            broadcast use vstd::seq_lib::group_to_multiset_ensures;
            broadcast use vstd::multiset::group_multiset_axioms;

            assert(rest@ == rest_pre.remove(0));
            assert(rest_pre.remove(0).to_multiset() =~= rest_pre.to_multiset().remove(
                rest_pre[0],
            ));
            assert(rest_pre.contains(x)) by {
                assert(rest_pre[0] == x);
            }
            assert(rest_pre.to_multiset().count(x) > 0);
            assert(out@.to_multiset().add(rest@.to_multiset()) =~= orig.to_multiset());
        }
    }
    proof {
        broadcast use vstd::seq_lib::group_to_multiset_ensures;
        broadcast use vstd::multiset::group_multiset_axioms;

        assert forall|x: Media| rest@.to_multiset().count(x) == 0 by {
            if rest@.to_multiset().count(x) > 0 {
                assert(rest@.contains(x));
            }
        }
        assert(out@.to_multiset().add(rest@.to_multiset()) =~= out@.to_multiset());
    }
    out
}

} // verus!
