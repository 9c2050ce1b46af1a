//! File collection: classification of paths by extension, the breadth-first
//! walk fed by the caller one directory listing at a time, suppression of RAW
//! files that sit beside a same-stem JPEG, and the final deterministic order.

use vstd::prelude::*;
use vstd::relations::{sorted_by, total_ordering};
use vstd::seq_lib::lemma_multiset_commutative;
use vstd::multiset::Multiset;
use crate::paths;

verus! {

/// The fixed set of camera RAW extensions, lowercased.
pub open spec fn is_raw_ext(e: Seq<u8>) -> bool {
    ||| e == seq![100u8, 110u8, 103u8]
    ||| e == seq![99u8, 114u8, 50u8]
    ||| e == seq![99u8, 114u8, 51u8]
    ||| e == seq![110u8, 101u8, 102u8]
    ||| e == seq![97u8, 114u8, 119u8]
    ||| e == seq![111u8, 114u8, 102u8]
    ||| e == seq![114u8, 97u8, 102u8]
    ||| e == seq![114u8, 119u8, 50u8]
    ||| e == seq![112u8, 101u8, 102u8]
    ||| e == seq![115u8, 114u8, 119u8]
    ||| e == seq![51u8, 102u8, 114u8]
}

/// The fixed set of standard raster extensions, lowercased.
pub open spec fn is_standard_ext(e: Seq<u8>) -> bool {
    ||| e == seq![106u8, 112u8, 103u8]
    ||| e == seq![106u8, 112u8, 101u8, 103u8]
    ||| e == seq![112u8, 110u8, 103u8]
    ||| e == seq![119u8, 101u8, 98u8, 112u8]
    ||| e == seq![98u8, 109u8, 112u8]
}

/// JPEG and its variant spelling: the extensions whose stems suppress a
/// same-directory RAW file, and the sources whose metadata is carried over.
pub open spec fn is_jpeg_ext(e: Seq<u8>) -> bool {
    e == seq![106u8, 112u8, 103u8] || e == seq![106u8, 112u8, 101u8, 103u8]
}

/// A path the collector accepts: not hidden, and of a known extension.
pub open spec fn eligible_path(p: Seq<u8>) -> bool {
    &&& !paths::is_hidden_name(paths::file_name(p))
    &&& (is_raw_ext(paths::ext_of_path(p)) || is_standard_ext(paths::ext_of_path(p)))
}

fn ext_eq3(e: &Vec<u8>, a: u8, b: u8, c: u8) -> (r: bool)
    ensures
        r == (e@ == seq![a, b, c]),
{
    let ok = e.len() == 3 && e[0] == a && e[1] == b && e[2] == c;
    proof {
        if ok {
            assert(e@ =~= seq![a, b, c]);
        }
    }
    ok
}

fn ext_eq4(e: &Vec<u8>, a: u8, b: u8, c: u8, d: u8) -> (r: bool)
    ensures
        r == (e@ == seq![a, b, c, d]),
{
    let ok = e.len() == 4 && e[0] == a && e[1] == b && e[2] == c && e[3] == d;
    proof {
        if ok {
            assert(e@ =~= seq![a, b, c, d]);
        }
    }
    ok
}

/// Whether a lowercased extension is in the RAW set.
pub fn raw_ext(e: &Vec<u8>) -> (r: bool)
    ensures
        r == is_raw_ext(e@),
{
    ext_eq3(e, 100, 110, 103) || ext_eq3(e, 99, 114, 50) || ext_eq3(e, 99, 114, 51) || ext_eq3(
        e,
        110,
        101,
        102,
    ) || ext_eq3(e, 97, 114, 119) || ext_eq3(e, 111, 114, 102) || ext_eq3(e, 114, 97, 102)
        || ext_eq3(e, 114, 119, 50) || ext_eq3(e, 112, 101, 102) || ext_eq3(e, 115, 114, 119)
        || ext_eq3(e, 51, 102, 114)
}

/// Whether a lowercased extension is in the standard set.
pub fn standard_ext(e: &Vec<u8>) -> (r: bool)
    ensures
        r == is_standard_ext(e@),
{
    ext_eq3(e, 106, 112, 103) || ext_eq4(e, 106, 112, 101, 103) || ext_eq3(e, 112, 110, 103)
        || ext_eq4(e, 119, 101, 98, 112) || ext_eq3(e, 98, 109, 112)
}

/// Whether a lowercased extension is a JPEG spelling.
pub fn jpeg_ext(e: &Vec<u8>) -> (r: bool)
    ensures
        r == is_jpeg_ext(e@),
{
    ext_eq3(e, 106, 112, 103) || ext_eq4(e, 106, 112, 101, 103)
}

/// One discovered input: its path, its lowercased extension, and whether it
/// routes to the RAW fallback chain. Immutable once built.
pub struct SourceFile {
    pub path: Vec<u8>,
    pub ext: Vec<u8>,
    pub is_raw: bool,
}

impl SourceFile {
    /// The fields agree with the path they were derived from.
    pub open spec fn wf(self) -> bool {
        &&& self.ext@ == paths::ext_of_path(self.path@)
        &&& self.is_raw == is_raw_ext(self.ext@)
    }

    /// Classifies one path, accepting it only with a known extension and a
    /// visible (non-hidden) name.
    pub fn classify(path: Vec<u8>) -> (r: Option<SourceFile>)
        ensures
            r is Some <==> eligible_path(path@),
            match r {
                Some(f) => f.wf() && f.path@ == path@,
                None => true,
            },
    {
        if paths::path_has_hidden_name(&path) {
            return None;
        }
        let ext = paths::ext_of(&path);
        let raw = raw_ext(&ext);
        if raw || standard_ext(&ext) {
            Some(SourceFile { path, ext, is_raw: raw })
        } else {
            None
        }
    }
}

/// Whether some entry of `all` is a JPEG in the same directory with the same
/// stem as `p`.
pub open spec fn has_jpeg_sibling(p: Seq<u8>, all: Seq<Seq<u8>>) -> bool {
    exists|k: int|
        0 <= k < all.len() && is_jpeg_ext(paths::ext_of_path(#[trigger] all[k])) && paths::dir_of(
            all[k],
        ) == paths::dir_of(p) && paths::stem_of_path(all[k]) == paths::stem_of_path(p)
}

/// Whether `p` survives duplicate suppression within `all`: everything does,
/// except a RAW file beside a same-stem JPEG.
pub open spec fn keeps(p: Seq<u8>, all: Seq<Seq<u8>>) -> bool {
    !(is_raw_ext(paths::ext_of_path(p)) && has_jpeg_sibling(p, all))
}

/// The collected list after duplicate suppression, traversal order kept.
pub open spec fn suppressed_view(all: Seq<Seq<u8>>) -> Seq<Seq<u8>> {
    all.filter(|p: Seq<u8>| keeps(p, all))
}

/// The views of a list of byte strings.
pub open spec fn views(s: Seq<Vec<u8>>) -> Seq<Seq<u8>> {
    s.map_values(|v: Vec<u8>| v@)
}

/// Checks whether `all` holds a JPEG sibling of `p`.
fn find_jpeg_sibling(p: &Vec<u8>, all: &Vec<Vec<u8>>) -> (r: bool)
    ensures
        r == has_jpeg_sibling(p@, views(all@)),
{
    let p_dir = paths::dir_of_path(p);
    let p_stem = paths::stem_of(p);
    let mut k: usize = 0;
    while k < all.len()
        invariant
            k <= all@.len(),
            p_dir@ == paths::dir_of(p@),
            p_stem@ == paths::stem_of_path(p@),
            forall|j: int|
                0 <= j < k ==> !(is_jpeg_ext(paths::ext_of_path(#[trigger] views(all@)[j]))
                    && paths::dir_of(views(all@)[j]) == paths::dir_of(p@) && paths::stem_of_path(
                    views(all@)[j],
                ) == paths::stem_of_path(p@)),
        decreases all@.len() - k,
    {
        let cand = &all[k];
        let ext = paths::ext_of(cand);
        if jpeg_ext(&ext) {
            let c_dir = paths::dir_of_path(cand);
            let c_stem = paths::stem_of(cand);
            if paths::eq_bytes(&c_dir, &p_dir) && paths::eq_bytes(&c_stem, &p_stem) {
                assert(views(all@)[k as int] == cand@);
                return true;
            }
        }
        proof {
            assert(views(all@)[k as int] == all@[k as int]@);
        }
        k = k + 1;
    }
    false
}

/// Drops every RAW file whose directory and stem match some collected JPEG;
/// everything else stays, in order. The JPEG siblings themselves always stay.
pub fn suppress_raw_duplicates(files: &Vec<Vec<u8>>) -> (r: Vec<Vec<u8>>)
    ensures
        views(r@) == suppressed_view(views(files@)),
{
    let ghost all = views(files@);
    let ghost pred = |p: Seq<u8>| keeps(p, all);
    let mut out: Vec<Vec<u8>> = Vec::new();
    let mut i: usize = 0;
    proof {
        assert(views(out@) =~= all.take(0).filter(pred));
    }
    while i < files.len()
        invariant
            i <= files@.len(),
            all == views(files@),
            pred == (|p: Seq<u8>| keeps(p, all)),
            views(out@) == all.take(i as int).filter(pred),
        decreases files@.len() - i,
    {
        let f = &files[i];
        proof {
            assert(all[i as int] == f@);
        }
        let ext = paths::ext_of(f);
        let keep: bool = if raw_ext(&ext) {
            !find_jpeg_sibling(f, files)
        } else {
            true
        };
        assert(keep == keeps(f@, all));
        proof {
            broadcast use vstd::prelude::Seq::lemma_filter_push;

            assert(all.take(i + 1).drop_last() =~= all.take(i as int));
            assert(all.take(i + 1) =~= all.take(i as int).push(all[i as int]));
        }
        if keep {
            let copied = paths::clone_bytes(f);
            out.push(copied);
            proof {
                assert(views(out@) =~= views(out@.drop_last()).push(f@));
            }
        }
        i = i + 1;
    }
    proof {
        assert(all.take(all.len() as int) =~= all);
    }
    out
}

/// The path order used for the final list: lexicographic on the full path.
pub open spec fn path_leq() -> spec_fn(Seq<u8>, Seq<u8>) -> bool {
    |a: Seq<u8>, b: Seq<u8>| paths::lex_leq(a, b)
}

pub proof fn lemma_path_leq_total()
    ensures
        total_ordering(path_leq()),
{
    let r = path_leq();
    assert forall|x: Seq<u8>| #[trigger] r(x, x) by {
        paths::lemma_lex_refl(x);
    }
    assert forall|x: Seq<u8>, y: Seq<u8>| #[trigger] r(x, y) && #[trigger] r(y, x) implies x
        == y by {
        paths::lemma_lex_antisym(x, y);
    }
    assert forall|x: Seq<u8>, y: Seq<u8>, z: Seq<u8>| #[trigger] r(x, y) && #[trigger] r(
        y,
        z,
    ) implies r(x, z) by {
        paths::lemma_lex_trans(x, y, z);
    }
    assert forall|x: Seq<u8>, y: Seq<u8>| #[trigger] r(x, y) || #[trigger] r(y, x) by {
        paths::lemma_lex_total(x, y);
    }
}

/// Sorts a list of paths into the lexicographic order. The result is the
/// one sorted permutation of the input: the same files always come out in
/// the same order, whatever order they went in.
pub fn sort_paths(v: &Vec<Vec<u8>>) -> (r: Vec<Vec<u8>>)
    ensures
        views(r@) == views(v@).sort_by(path_leq()),
        sorted_by(views(r@), path_leq()),
        views(r@).to_multiset() == views(v@).to_multiset(),
{
    let ghost leq = path_leq();
    proof {
        lemma_path_leq_total();
    }
    let mut out: Vec<Vec<u8>> = Vec::new();
    let mut i: usize = 0;
    proof {
        assert(views(out@) =~= views(v@).take(0));
    }
    while i < v.len()
        invariant
            i <= v@.len(),
            leq == path_leq(),
            total_ordering(leq),
            sorted_by(views(out@), leq),
            views(out@).to_multiset() == views(v@).take(i as int).to_multiset(),
        decreases v@.len() - i,
    {
        let f = paths::clone_bytes(&v[i]);
        let ghost ov = views(out@);
        let mut j: usize = 0;
        while j < out.len() && paths::lex_le(&out[j], &f)
            invariant
                j <= out@.len(),
                views(out@) == ov,
                forall|k: int| 0 <= k < j ==> leq(#[trigger] ov[k], f@),
                leq == path_leq(),
            decreases out@.len() - j,
        {
            j = j + 1;
        }
        proof {
            assert(j == ov.len() || !leq(ov[j as int], f@));
        }
        out.insert(j, f);
        proof {
            let nv = views(out@);
            assert(nv =~= ov.take(j as int).push(f@) + ov.skip(j as int));
            assert forall|x: int, y: int| 0 <= x < y < nv.len() implies leq(
                #[trigger] nv[x],
                #[trigger] nv[y],
            ) by {
                let ji = j as int;
                if x < ji && y < ji {
                } else if x < ji && y == ji {
                } else if x < ji && y > ji {
                } else if x == ji && y > ji {
                    paths::lemma_lex_total(ov[ji], f@);
                    if y - 1 > ji {
                        assert(leq(ov[ji], ov[y - 1]));
                        assert(paths::lex_leq(ov[ji], ov[y - 1]));
                        paths::lemma_lex_trans(f@, ov[ji], ov[y - 1]);
                    }
                }
            }
            broadcast use vstd::multiset::group_multiset_axioms;

            let ji = j as int;
            let ta = ov.take(ji);
            let sk = ov.skip(ji);
            lemma_multiset_commutative(ta.push(f@), sk);
            lemma_multiset_commutative(ta, sk);
            assert(ta + sk =~= ov);
            ta.to_multiset_ensures();
            assert(ta.push(f@).to_multiset() =~= ta.to_multiset().insert(f@));
            assert forall|y: Seq<u8>|
                nv.to_multiset().count(y) == ov.to_multiset().insert(f@).count(y) by {
                assert(nv.to_multiset().count(y) == ta.push(f@).to_multiset().count(y)
                    + sk.to_multiset().count(y));
                assert(ta.push(f@).to_multiset().count(y) == ta.to_multiset().count(y)
                    + Multiset::singleton(f@).count(y));
                assert(ov.to_multiset().count(y) == ta.to_multiset().count(y)
                    + sk.to_multiset().count(y));
                assert(ov.to_multiset().insert(f@).count(y) == ov.to_multiset().count(y)
                    + Multiset::singleton(f@).count(y));
            }
            assert(nv.to_multiset() =~= ov.to_multiset().insert(f@));
            views(v@).take(i as int).to_multiset_ensures();
            assert(views(v@).take(i + 1) =~= views(v@).take(i as int).push(f@));
        }
        i = i + 1;
    }
    proof {
        assert(views(v@).take(views(v@).len() as int) =~= views(v@));
        lemma_path_leq_total();
        views(v@).lemma_sort_by_ensures(leq);
        vstd::seq_lib::lemma_sorted_unique(views(out@), views(v@).sort_by(leq), leq);
        assert(views(out@) =~= views(v@).sort_by(leq));
    }
    out
}

/// What one queued path turned out to be when the caller inspected it: a
/// plain file, a directory with its child paths, or nothing usable.
pub enum EntryKind {
    File,
    Dir(Vec<Vec<u8>>),
    Missing,
}

/// The breadth-first walk over the input roots. The caller owns the
/// directory reads: it takes the next queued path, looks at it, and reports
/// back what it was; the walker owns every decision about it.
pub struct Walker {
    pub queue: Vec<Vec<u8>>,
    pub files: Vec<Vec<u8>>,
}

impl Walker {
    /// Everything collected so far was accepted: visible name, known
    /// extension.
    pub open spec fn wf(self) -> bool {
        forall|i: int|
            0 <= i < self.files@.len() ==> eligible_path(#[trigger] views(self.files@)[i])
    }

    /// A walk over the given roots, nothing collected yet.
    pub fn new(roots: Vec<Vec<u8>>) -> (r: Walker)
        ensures
            r.wf(),
            r.queue@ == roots@,
            r.files@.len() == 0,
    {
        Walker { queue: roots, files: Vec::new() }
    }

    /// Hands out the next pending path, front of the queue; `None` ends the
    /// walk.
    pub fn next_path(&mut self) -> (r: Option<Vec<u8>>)
        ensures
            old(self).queue@.len() == 0 ==> r is None && *final(self) == *old(self),
            old(self).queue@.len() > 0 ==> (r matches Some(p) && p@ == old(self).queue@[0]@
                && final(self).queue@ == old(self).queue@.drop_first() && final(self).files@
                == old(self).files@),
            old(self).wf() ==> final(self).wf(),
    {
        if self.queue.len() == 0 {
            None
        } else {
            let p = self.queue.remove(0);
            proof {
                assert(self.queue@ =~= old(self).queue@.drop_first());
            }
            Some(p)
        }
    }

    /// Takes the caller's report on one path. A hidden name is skipped
    /// entirely and silently, wherever it came from. A file is collected
    /// exactly when its extension is known; a directory has its children
    /// sorted by path — directory order is not trusted — and queued; an
    /// unusable entry changes nothing.
    pub fn feed(&mut self, path: &Vec<u8>, kind: EntryKind)
        ensures
            paths::is_hidden_name(paths::file_name(path@)) ==> *final(self) == *old(self),
            !paths::is_hidden_name(paths::file_name(path@)) ==> match kind {
                EntryKind::File => {
                    &&& final(self).queue@ == old(self).queue@
                    &&& views(final(self).files@) == (if eligible_path(path@) {
                        views(old(self).files@).push(path@)
                    } else {
                        views(old(self).files@)
                    })
                },
                EntryKind::Dir(children) => {
                    &&& final(self).files@ == old(self).files@
                    &&& views(final(self).queue@) == views(old(self).queue@) + views(
                        children@,
                    ).sort_by(path_leq())
                },
                EntryKind::Missing => *final(self) == *old(self),
            },
            old(self).wf() ==> final(self).wf(),
    {
        if paths::path_has_hidden_name(path) {
            return;
        }
        match kind {
            EntryKind::File => {
                let copied = paths::clone_bytes(path);
                match SourceFile::classify(copied) {
                    Some(f) => {
                        self.files.push(f.path);
                        proof {
                            assert(views(self.files@) =~= views(old(self).files@).push(path@));
                        }
                    },
                    None => (),
                }
            },
            EntryKind::Dir(children) => {
                let sorted = sort_paths(&children);
                let mut i: usize = 0;
                proof {
                    assert(views(self.queue@) =~= views(old(self).queue@) + views(
                        sorted@,
                    ).take(0));
                }
                while i < sorted.len()
                    invariant
                        i <= sorted@.len(),
                        self.files@ == old(self).files@,
                        views(self.queue@) == views(old(self).queue@) + views(sorted@).take(
                            i as int,
                        ),
                    decreases sorted@.len() - i,
                {
                    let c = paths::clone_bytes(&sorted[i]);
                    let ghost qv = self.queue@;
                    self.queue.push(c);
                    proof {
                        assert(views(self.queue@) =~= views(qv).push(c@));
                        assert(views(sorted@).take(i + 1) =~= views(sorted@).take(
                            i as int,
                        ).push(views(sorted@)[i as int]));
                        assert(views(self.queue@) =~= views(old(self).queue@) + views(
                            sorted@,
                        ).take(i + 1));
                    }
                    i = i + 1;
                }
                proof {
                    assert(views(sorted@).take(views(sorted@).len() as int) =~= views(sorted@));
                }
            },
            EntryKind::Missing => (),
        }
    }
}

/// The complete collector result for a walked file list: duplicates
/// suppressed, then the deterministic path order.
pub open spec fn collected(all: Seq<Seq<u8>>) -> Seq<Seq<u8>> {
    suppressed_view(all).sort_by(path_leq())
}

/// Finishes a walk: suppresses RAW files with JPEG siblings, then sorts by
/// full path. This list, not traversal order, is what gets dispatched.
pub fn finalize_collection(files: &Vec<Vec<u8>>) -> (r: Vec<Vec<u8>>)
    ensures
        views(r@) == collected(views(files@)),
        sorted_by(views(r@), path_leq()),
{
    let kept = suppress_raw_duplicates(files);
    sort_paths(&kept)
}

proof fn lemma_filter_member<A>(s: Seq<A>, p: spec_fn(A) -> bool, x: A)
    requires
        s.filter(p).contains(x),
    ensures
        s.contains(x) && p(x),
    decreases s.len(),
{
    reveal(Seq::filter);
    if s.len() > 0 {
        if p(s.last()) && s.filter(p).last() == x && x == s.last() {
        } else {
            lemma_filter_member(s.drop_last(), p, x);
            assert(s.drop_last().contains(x) ==> s.contains(x)) by {
                if s.drop_last().contains(x) {
                    let k = choose|k: int|
                        0 <= k < s.drop_last().len() && s.drop_last()[k] == x;
                    assert(s[k] == x);
                }
            }
        }
    }
}

/// Everything in the final list came from the walked list and survived
/// suppression.
pub proof fn lemma_collected_member(all: Seq<Seq<u8>>, x: Seq<u8>)
    requires
        collected(all).contains(x),
    ensures
        all.contains(x),
        keeps(x, all),
    decreases all.len(),
{
    lemma_path_leq_total();
    suppressed_view(all).lemma_sort_by_ensures(path_leq());
    collected(all).to_multiset_ensures();
    suppressed_view(all).to_multiset_ensures();
    assert(collected(all).to_multiset().count(x) > 0);
    assert(suppressed_view(all).to_multiset().count(x) > 0);
    assert(suppressed_view(all).contains(x));
    lemma_filter_member(all, |p: Seq<u8>| keeps(p, all), x);
}

/// Law: a hidden file never stands in the collector's output, whatever the
/// input tree held, as long as every collected path passed the walker's
/// acceptance test.
pub proof fn lemma_no_hidden_output(all: Seq<Seq<u8>>, i: int)
    requires
        forall|j: int| 0 <= j < all.len() ==> eligible_path(#[trigger] all[j]),
        0 <= i < collected(all).len(),
    ensures
        !paths::is_hidden_name(paths::file_name(collected(all)[i])),
{
    let x = collected(all)[i];
    assert(collected(all).contains(x));
    lemma_collected_member(all, x);
    let j = choose|j: int| 0 <= j < all.len() && all[j] == x;
    assert(eligible_path(all[j]));
}

proof fn lemma_filter_drop_index<A>(b: Seq<A>, p: spec_fn(A) -> bool, k: int)
    requires
        0 <= k < b.len(),
    ensures
        p(b[k]) ==> b.filter(p).to_multiset() == b.remove(k).filter(p).to_multiset().insert(
            b[k],
        ),
        !p(b[k]) ==> b.filter(p).to_multiset() == b.remove(k).filter(p).to_multiset(),
    decreases b.len(),
{
    broadcast use vstd::prelude::Seq::lemma_filter_push;
    broadcast use vstd::multiset::group_multiset_axioms;

    let b0 = b.drop_last();
    let y = b.last();
    assert(b =~= b0.push(y));
    if k == b.len() - 1 {
        assert(b.remove(k) =~= b0);
        if p(y) {
            b0.filter(p).to_multiset_ensures();
            assert(b.filter(p).to_multiset() =~= b0.filter(p).to_multiset().insert(y));
        }
    } else {
        let x = b[k];
        assert(b0[k] == x);
        assert(b.remove(k) =~= b0.remove(k).push(y));
        lemma_filter_drop_index(b0, p, k);
        let f0 = b0.filter(p).to_multiset();
        let g0 = b0.remove(k).filter(p).to_multiset();
        b0.filter(p).to_multiset_ensures();
        b0.remove(k).filter(p).to_multiset_ensures();
        if p(y) {
            assert(b.filter(p).to_multiset() =~= f0.insert(y));
            assert(b.remove(k).filter(p).to_multiset() =~= g0.insert(y));
            if p(x) {
                assert(f0.insert(y) =~= g0.insert(y).insert(x));
            }
        } else {
            assert(b.filter(p).to_multiset() == f0);
            assert(b.remove(k).filter(p).to_multiset() == g0);
        }
    }
}

proof fn lemma_filter_multiset_of_permutation<A>(a: Seq<A>, b: Seq<A>, p: spec_fn(A) -> bool)
    requires
        a.to_multiset() == b.to_multiset(),
    ensures
        a.filter(p).to_multiset() == b.filter(p).to_multiset(),
    decreases a.len(),
{
    broadcast use vstd::prelude::Seq::lemma_filter_push;
    broadcast use vstd::multiset::group_multiset_axioms;

    a.to_multiset_ensures();
    b.to_multiset_ensures();
    if a.len() == 0 {
        assert(b.len() == 0);
        assert(a =~= b);
    } else {
        let x = a.last();
        let a0 = a.drop_last();
        assert(a =~= a0.push(x));
        a0.to_multiset_ensures();
        assert(a.to_multiset() =~= a0.to_multiset().insert(x));
        assert(b.to_multiset().count(x) > 0);
        assert(b.contains(x));
        let k = choose|k: int| 0 <= k < b.len() && b[k] == x;
        let b1 = b.remove(k);
        assert(b.remove(k).to_multiset() =~= b.to_multiset().remove(b[k]));
        assert(a0.to_multiset() =~= a.to_multiset().remove(x));
        assert(a0.to_multiset() == b1.to_multiset());
        lemma_filter_multiset_of_permutation(a0, b1, p);
        lemma_filter_drop_index(b, p, k);
        a0.filter(p).to_multiset_ensures();
        if p(x) {
            assert(a.filter(p).to_multiset() =~= a0.filter(p).to_multiset().insert(x));
        } else {
            assert(a.filter(p).to_multiset() == a0.filter(p).to_multiset());
        }
    }
}

proof fn lemma_filter_congruence<A>(s: Seq<A>, p: spec_fn(A) -> bool, q: spec_fn(A) -> bool)
    requires
        forall|x: A| #[trigger] p(x) == q(x),
    ensures
        s.filter(p) == s.filter(q),
    decreases s.len(),
{
    broadcast use vstd::prelude::Seq::lemma_filter_push;

    if s.len() > 0 {
        lemma_filter_congruence(s.drop_last(), p, q);
        assert(s =~= s.drop_last().push(s.last()));
        assert(p(s.last()) == q(s.last()));
    }
}

proof fn lemma_sibling_of_permutation_half(p: Seq<u8>, a: Seq<Seq<u8>>, b: Seq<Seq<u8>>)
    requires
        a.to_multiset() == b.to_multiset(),
        has_jpeg_sibling(p, a),
    ensures
        has_jpeg_sibling(p, b),
{
    broadcast use vstd::multiset::group_multiset_axioms;

    a.to_multiset_ensures();
    b.to_multiset_ensures();
    let k = choose|k: int|
        0 <= k < a.len() && is_jpeg_ext(paths::ext_of_path(#[trigger] a[k])) && paths::dir_of(
            a[k],
        ) == paths::dir_of(p) && paths::stem_of_path(a[k]) == paths::stem_of_path(p);
    assert(a.contains(a[k]));
    assert(b.to_multiset().count(a[k]) > 0);
    assert(b.contains(a[k]));
    let j = choose|j: int| 0 <= j < b.len() && b[j] == a[k];
    assert(is_jpeg_ext(paths::ext_of_path(b[j])));
}

/// Law: the dispatched list does not depend on the order in which the walk
/// found the files. Any two walks that found the same files — in whatever
/// order the tree handed them out — finish as the same sorted list.
pub proof fn lemma_collected_of_permutation(a: Seq<Seq<u8>>, b: Seq<Seq<u8>>)
    requires
        a.to_multiset() == b.to_multiset(),
    ensures
        collected(a) == collected(b),
{
    let pa = |p: Seq<u8>| keeps(p, a);
    let pb = |p: Seq<u8>| keeps(p, b);
    assert forall|p: Seq<u8>| #[trigger] pa(p) == pb(p) by {
        if has_jpeg_sibling(p, a) {
            lemma_sibling_of_permutation_half(p, a, b);
        }
        if has_jpeg_sibling(p, b) {
            lemma_sibling_of_permutation_half(p, b, a);
        }
    }
    lemma_filter_congruence(a, pa, pb);
    lemma_filter_multiset_of_permutation(a, b, pb);
    assert(suppressed_view(a).to_multiset() == suppressed_view(b).to_multiset());
    lemma_path_leq_total();
    suppressed_view(a).lemma_sort_by_ensures(path_leq());
    suppressed_view(b).lemma_sort_by_ensures(path_leq());
    vstd::seq_lib::lemma_sorted_unique(collected(a), collected(b), path_leq());
    assert(collected(a) =~= collected(b));
}

proof fn lemma_jpeg_not_raw(e: Seq<u8>)
    requires
        is_jpeg_ext(e),
    ensures
        !is_raw_ext(e),
{
    if is_raw_ext(e) {
        assert(e[0] == 106 ==> !(e == seq![100u8, 110u8, 103u8]));
    }
}

/// Law: a RAW file that sits beside a JPEG of the same directory and stem is
/// absent from the final list, while the JPEG itself is present.
pub proof fn lemma_raw_sibling_suppressed(all: Seq<Seq<u8>>, i: int, j: int)
    requires
        0 <= i < all.len(),
        0 <= j < all.len(),
        is_raw_ext(paths::ext_of_path(all[i])),
        is_jpeg_ext(paths::ext_of_path(all[j])),
        paths::dir_of(all[j]) == paths::dir_of(all[i]),
        paths::stem_of_path(all[j]) == paths::stem_of_path(all[i]),
    ensures
        !collected(all).contains(all[i]),
        collected(all).contains(all[j]),
{
    assert(has_jpeg_sibling(all[i], all));
    assert(!keeps(all[i], all));
    if collected(all).contains(all[i]) {
        lemma_collected_member(all, all[i]);
    }
    lemma_jpeg_not_raw(paths::ext_of_path(all[j]));
    assert(keeps(all[j], all));
    all.lemma_filter_contains(|p: Seq<u8>| keeps(p, all), j);
    assert(suppressed_view(all).contains(all[j]));
    lemma_path_leq_total();
    suppressed_view(all).lemma_sort_by_ensures(path_leq());
    collected(all).to_multiset_ensures();
    suppressed_view(all).to_multiset_ensures();
    assert(suppressed_view(all).to_multiset().count(all[j]) > 0);
    assert(collected(all).to_multiset().count(all[j]) > 0);
    assert(collected(all).contains(all[j]));
}

} // verus!
