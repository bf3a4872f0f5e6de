//! Search-path resolution: order the runtime directories found under the
//! version manager's parent directory in descending lexical order (so the
//! newest-looking version comes first — a heuristic, not a numeric version
//! sort: a name starting with "9" outranks one starting with "10"), then
//! append the common install locations that exist and the inherited search
//! path, and join everything with the platform's separator. Scanning the
//! filesystem is the caller's job; paths arrive and leave as plain bytes.

use crate::bytes::lemma_lex_le_antisymmetric;
use crate::bytes::lemma_lex_le_reflexive;
use crate::bytes::lemma_lex_le_total;
use crate::bytes::lemma_lex_le_transitive;
use crate::bytes::lex_le;
use crate::bytes::lex_le_bytes;
use vstd::multiset::Multiset;
use vstd::prelude::*;

verus! {

/// The byte sequences a list of byte vectors holds.
pub open spec fn views(s: Seq<Vec<u8>>) -> Seq<Seq<u8>> {
    s.map_values(|v: Vec<u8>| v@)
}

/// Descending lexical order: every later element compares at or below every
/// earlier one.
pub open spec fn sorted_desc(s: Seq<Seq<u8>>) -> bool {
    forall|i: int, j: int| 0 <= i < j < s.len() ==> #[trigger] lex_le(s[j], s[i])
}

proof fn lemma_views_remove(s: Seq<Vec<u8>>, m: int)
    requires
        0 <= m < s.len(),
    ensures
        views(s.remove(m)) =~= views(s).remove(m),
{
}

proof fn lemma_views_push(s: Seq<Vec<u8>>, x: Vec<u8>)
    ensures
        views(s.push(x)) =~= views(s).push(x@),
{
}

/// Index of a maximal element under the lexical order.
fn index_of_max(v: &Vec<Vec<u8>>) -> (m: usize)
    requires
        v.len() > 0,
    ensures
        m < v.len(),
        forall|j: int| 0 <= j < v.len() ==> lex_le(#[trigger] v@[j]@, v@[m as int]@),
{
    let mut m: usize = 0;
    let mut i: usize = 1;
    proof {
        lemma_lex_le_reflexive(v@[0]@);
    }
    while i < v.len()
        invariant
            m < i <= v.len(),
            forall|j: int| 0 <= j < i ==> lex_le(#[trigger] v@[j]@, v@[m as int]@),
        decreases v.len() - i,
    {
        if !lex_le_bytes(&v[i], &v[m]) {
            proof {
                lemma_lex_le_total(v@[i as int]@, v@[m as int]@);
                assert forall|j: int| 0 <= j < i + 1 implies lex_le(
                    #[trigger] v@[j]@,
                    v@[i as int]@,
                ) by {
                    if j < i {
                        lemma_lex_le_transitive(v@[j]@, v@[m as int]@, v@[i as int]@);
                    } else {
                        lemma_lex_le_reflexive(v@[i as int]@);
                    }
                }
            }
            m = i;
        } else {
            proof {
                assert forall|j: int| 0 <= j < i + 1 implies lex_le(
                    #[trigger] v@[j]@,
                    v@[m as int]@,
                ) by {}
            }
        }
        i += 1;
    }
    m
}

/// Sorts the directories in descending lexical order: the result is sorted
/// and holds exactly the input's paths. Together with the order's
/// antisymmetry this pins the result completely.
pub fn sort_paths_desc(dirs: Vec<Vec<u8>>) -> (r: Vec<Vec<u8>>)
    ensures
        sorted_desc(views(r@)),
        views(r@).to_multiset() == views(dirs@).to_multiset(),
        r@.len() == dirs@.len(),
{
    let ghost orig = views(dirs@).to_multiset();
    let ghost total = dirs@.len();
    let mut rest = dirs;
    let mut out: Vec<Vec<u8>> = Vec::new();
    proof {
        broadcast use vstd::seq_lib::group_to_multiset_ensures;
        broadcast use vstd::multiset::group_multiset_axioms;

        assert(views(out@) =~= Seq::<Seq<u8>>::empty());
        assert(views(out@).to_multiset() =~= Multiset::<Seq<u8>>::empty());
        assert(views(out@).to_multiset().add(views(rest@).to_multiset()) =~= orig);
    }
    while rest.len() > 0
        invariant
            sorted_desc(views(out@)),
            views(out@).to_multiset().add(views(rest@).to_multiset()) == orig,
            out@.len() + rest@.len() == total,
            forall|i: int, j: int|
                0 <= i < out@.len() && 0 <= j < rest@.len() ==> lex_le(
                    #[trigger] views(rest@)[j],
                    #[trigger] views(out@)[i],
                ),
        decreases rest.len(),
    {
        let ghost rest0 = rest@;
        let ghost out0 = out@;
        let m = index_of_max(&rest);
        let x = rest.remove(m);
        out.push(x);
        proof {
            broadcast use vstd::seq_lib::group_to_multiset_ensures;

            lemma_views_remove(rest0, m as int);
            lemma_views_push(out0, x);
            let vr = views(rest0);
            let vo = views(out0);
            assert(vr[m as int] == x@);
            assert(vr.contains(x@));
            assert(views(rest@).to_multiset() == vr.to_multiset().remove(x@));
            assert(views(out@).to_multiset() == vo.to_multiset().insert(x@));
            assert(vr.to_multiset().count(x@) > 0);
            assert(views(out@).to_multiset().add(views(rest@).to_multiset()) =~= vo.to_multiset()
                .add(vr.to_multiset()));
            // Every element of the new output majorises every remaining one.
            assert forall|i: int, j: int|
                0 <= i < out@.len() && 0 <= j < rest@.len() implies lex_le(
                #[trigger] views(rest@)[j],
                #[trigger] views(out@)[i],
            ) by {
                let rj = views(rest@)[j];
                assert(rj == if j < m { vr[j] } else { vr[j + 1] });
                assert(lex_le(rj, x@));
                if i < out0.len() {
                    assert(views(out@)[i] == vo[i]);
                } else {
                    assert(views(out@)[i] == x@);
                }
            }
            // The new output stays sorted: the appended element sits at or
            // below everything before it.
            assert forall|i: int, j: int|
                0 <= i < j < views(out@).len() implies #[trigger] lex_le(
                views(out@)[j],
                views(out@)[i],
            ) by {
                if j < out0.len() {
                    assert(views(out@)[i] == vo[i]);
                    assert(views(out@)[j] == vo[j]);
                } else {
                    assert(views(out@)[j] == x@);
                    assert(views(out@)[i] == vo[i]);
                    assert(lex_le(vr[m as int], vo[i]));
                }
            }
        }
    }
    proof {
        broadcast use vstd::seq_lib::group_to_multiset_ensures;
        broadcast use vstd::multiset::group_multiset_axioms;

        assert(views(rest@).to_multiset() =~= Multiset::<Seq<u8>>::empty());
        assert(views(out@).to_multiset() =~= orig);
    }
    out
}

/// Descending order pins the arrangement completely: two sorted sequences
/// holding the same paths are the same sequence. So the contract of
/// `sort_paths_desc` — sorted, same contents — determines its result, and
/// with it the resolved search path.
pub proof fn lemma_sorted_desc_unique(a: Seq<Seq<u8>>, b: Seq<Seq<u8>>)
    requires
        sorted_desc(a),
        sorted_desc(b),
        a.to_multiset() == b.to_multiset(),
    ensures
        a == b,
    decreases a.len(),
{
    broadcast use vstd::seq_lib::group_to_multiset_ensures;

    assert(a.len() == a.to_multiset().len());
    assert(b.len() == b.to_multiset().len());
    if a.len() == 0 {
        assert(a =~= b);
    } else {
        // The head of each is a maximum of the shared contents, and maxima
        // under an antisymmetric order coincide.
        assert(a.contains(a[0]));
        assert(b.to_multiset().count(a[0]) > 0);
        assert(b.contains(a[0]));
        let i = choose|i: int| 0 <= i < b.len() && b[i] == a[0];
        if i > 0 {
            assert(lex_le(b[i], b[0]));
        } else {
            lemma_lex_le_reflexive(b[0]);
        }
        assert(lex_le(a[0], b[0]));
        assert(b.contains(b[0]));
        assert(a.to_multiset().count(b[0]) > 0);
        assert(a.contains(b[0]));
        let j = choose|j: int| 0 <= j < a.len() && a[j] == b[0];
        if j > 0 {
            assert(lex_le(a[j], a[0]));
        } else {
            lemma_lex_le_reflexive(a[0]);
        }
        assert(lex_le(b[0], a[0]));
        lemma_lex_le_antisymmetric(a[0], b[0]);
        // The tails hold the same contents and stay sorted; recurse.
        let a1 = a.drop_first();
        let b1 = b.drop_first();
        assert(a.remove(0) =~= a1);
        assert(b.remove(0) =~= b1);
        assert(a1.to_multiset() == a.to_multiset().remove(a[0]));
        assert(b1.to_multiset() == b.to_multiset().remove(b[0]));
        assert forall|p: int, q: int| 0 <= p < q < a1.len() implies #[trigger] lex_le(
            a1[q],
            a1[p],
        ) by {
            assert(a1[p] == a[p + 1]);
            assert(a1[q] == a[q + 1]);
        }
        assert forall|p: int, q: int| 0 <= p < q < b1.len() implies #[trigger] lex_le(
            b1[q],
            b1[p],
        ) by {
            assert(b1[p] == b[p + 1]);
            assert(b1[q] == b[q + 1]);
        }
        lemma_sorted_desc_unique(a1, b1);
        assert forall|k: int| 0 <= k < a.len() implies a[k] == b[k] by {
            if k > 0 {
                assert(a[k] == a1[k - 1]);
                assert(b[k] == b1[k - 1]);
            }
        }
        assert(a =~= b);
    }
}

/// The parts joined with the separator between them: empty for no parts,
/// and otherwise each part in order with one separator byte between
/// neighbours.
pub open spec fn spec_join(parts: Seq<Seq<u8>>, sep: u8) -> Seq<u8>
    decreases parts.len(),
{
    if parts.len() == 0 {
        Seq::empty()
    } else if parts.len() == 1 {
        parts[0]
    } else {
        spec_join(parts.drop_last(), sep) + seq![sep] + parts.last()
    }
}

/// Joins the parts with the separator between them.
pub fn join_paths(parts: &Vec<Vec<u8>>, sep: u8) -> (r: Vec<u8>)
    ensures
        r@ == spec_join(views(parts@), sep),
{
    let mut r: Vec<u8> = Vec::new();
    let mut i: usize = 0;
    while i < parts.len()
        invariant
            i <= parts.len(),
            r@ == spec_join(views(parts@).take(i as int), sep),
        decreases parts.len() - i,
    {
        if i > 0 {
            r.push(sep);
        }
        let ghost before = r@;
        let part = &parts[i];
        let mut j: usize = 0;
        while j < part.len()
            invariant
                j <= part.len(),
                r@ == before + part@.take(j as int),
            decreases part.len() - j,
        {
            let b = part[j];
            r.push(b);
            proof {
                assert(before + part@.take(j + 1 as int) =~= (before + part@.take(j as int)).push(
                    b,
                ));
            }
            j += 1;
        }
        proof {
            let vp = views(parts@);
            assert(part@.take(part@.len() as int) =~= part@);
            assert(vp.take(i + 1 as int).drop_last() =~= vp.take(i as int));
            assert(vp.take(i + 1 as int).last() == vp[i as int]);
            if i > 0 {
                assert(r@ =~= spec_join(vp.take(i as int), sep) + seq![sep] + vp[i as int]);
            } else {
                assert(r@ =~= vp[0]);
                assert(vp.take(1).len() == 1);
            }
        }
        i += 1;
    }
    proof {
        assert(views(parts@).take(parts@.len() as int) =~= views(parts@));
    }
    r
}

/// What a resolved search path is: the version-manager directories in
/// descending lexical order, then the existing common install locations in
/// their given order, then the inherited search path verbatim when it is
/// not empty, all joined with the separator. The descending order is unique
/// (the lexical order is antisymmetric), so this determines the result.
pub open spec fn resolved_search_path(
    versions: Seq<Seq<u8>>,
    extras: Seq<Seq<u8>>,
    base: Seq<u8>,
    sep: u8,
    r: Seq<u8>,
) -> bool {
    exists|sorted: Seq<Seq<u8>>|
        {
            &&& sorted_desc(sorted)
            &&& sorted.to_multiset() == versions.to_multiset()
            &&& r == spec_join(
                sorted + extras + (if base.len() == 0 {
                    Seq::<Seq<u8>>::empty()
                } else {
                    seq![base]
                }),
                sep,
            )
        }
}

/// Builds the augmented search path from the version-manager directories
/// found by the scan, the common install locations that exist, and the
/// inherited search path. Absent inputs simply contribute nothing; the
/// resolver itself never fails.
pub fn resolve_search_path(
    version_dirs: Vec<Vec<u8>>,
    extras: Vec<Vec<u8>>,
    base: Vec<u8>,
    sep: u8,
) -> (r: Vec<u8>)
    ensures
        resolved_search_path(views(version_dirs@), views(extras@), base@, sep, r@),
{
    let ghost versions0 = views(version_dirs@);
    let ghost extras0 = views(extras@);
    let ghost base0 = base@;
    let mut parts = sort_paths_desc(version_dirs);
    let ghost sorted = views(parts@);
    let mut extras = extras;
    let mut i: usize = 0;
    let ghost n_extras = extras@.len();
    while i < extras.len()
        invariant
            i <= extras@.len(),
            extras@.len() == n_extras,
            views(extras@) == extras0,
            views(parts@) == sorted + extras0.take(i as int),
        decreases extras.len() - i,
    {
        let ghost parts_before = parts@;
        let e = &extras[i];
        let copy = copy_bytes(e);
        parts.push(copy);
        proof {
            lemma_views_push(parts_before, copy);
            assert(views(parts@) =~= sorted + extras0.take(i + 1 as int));
        }
        i += 1;
    }
    proof {
        assert(extras0.take(n_extras as int) =~= extras0);
    }
    if base.len() > 0 {
        let ghost parts_before = parts@;
        parts.push(base);
        proof {
            lemma_views_push(parts_before, base);
            assert(views(parts@) =~= sorted + extras0 + seq![base0]);
        }
    } else {
        proof {
            assert(views(parts@) =~= sorted + extras0 + Seq::<Seq<u8>>::empty());
        }
    }
    join_paths(&parts, sep)
}

/// Index of the first true flag, or `-1` when there is none.
pub open spec fn first_match(flags: Seq<bool>) -> int
    decreases flags.len(),
{
    if flags.len() == 0 {
        -1
    } else if flags[0] {
        0
    } else {
        let rest = first_match(flags.drop_first());
        if rest < 0 {
            -1
        } else {
            rest + 1
        }
    }
}

proof fn lemma_first_match(flags: Seq<bool>)
    ensures
        first_match(flags) >= 0 ==> {
            &&& first_match(flags) < flags.len()
            &&& flags[first_match(flags)]
            &&& forall|j: int| 0 <= j < first_match(flags) ==> !flags[j]
        },
        first_match(flags) < 0 ==> (forall|j: int| 0 <= j < flags.len() ==> !flags[j]),
    decreases flags.len(),
{
    if flags.len() > 0 && !flags[0] {
        lemma_first_match(flags.drop_first());
        let rest = first_match(flags.drop_first());
        if rest >= 0 {
            assert forall|j: int| 0 <= j < rest + 1 implies !flags[j] by {
                if j > 0 {
                    assert(flags[j] == flags.drop_first()[j - 1]);
                }
            }
        } else {
            assert forall|j: int| 0 <= j < flags.len() implies !flags[j] by {
                if j > 0 {
                    assert(flags[j] == flags.drop_first()[j - 1]);
                }
            }
        }
    }
}

proof fn lemma_first_match_at(flags: Seq<bool>, k: int)
    requires
        0 <= k < flags.len(),
        flags[k],
        forall|j: int| 0 <= j < k ==> !flags[j],
    ensures
        first_match(flags) == k,
    decreases k,
{
    if k > 0 {
        assert forall|j: int| 0 <= j < k - 1 implies !flags.drop_first()[j] by {
            assert(flags.drop_first()[j] == flags[j + 1]);
        }
        lemma_first_match_at(flags.drop_first(), k - 1);
    }
}

/// Picks the project location among well-known candidates, given for each
/// whether it looks like the project: the first that does, or the first
/// candidate as the fallback when none does.
pub fn choose_candidate(flags: &Vec<bool>) -> (r: usize)
    requires
        flags.len() > 0,
    ensures
        r < flags.len(),
        first_match(flags@) >= 0 ==> r == first_match(flags@),
        first_match(flags@) < 0 ==> r == 0,
{
    let mut i: usize = 0;
    while i < flags.len()
        invariant
            i <= flags.len(),
            forall|j: int| 0 <= j < i ==> !flags@[j],
        decreases flags.len() - i,
    {
        if flags[i] {
            proof {
                lemma_first_match_at(flags@, i as int);
            }
            return i;
        }
        i += 1;
    }
    proof {
        lemma_first_match(flags@);
    }
    0
}

/// A fresh vector holding the same bytes.
fn copy_bytes(v: &Vec<u8>) -> (r: Vec<u8>)
    ensures
        r@ == v@,
{
    let mut r: Vec<u8> = Vec::new();
    let mut j: usize = 0;
    while j < v.len()
        invariant
            j <= v.len(),
            r@ == v@.take(j as int),
        decreases v.len() - j,
    {
        let b = v[j];
        r.push(b);
        proof {
            assert(v@.take(j + 1 as int) =~= v@.take(j as int).push(b));
        }
        j += 1;
    }
    proof {
        assert(v@.take(v@.len() as int) =~= v@);
    }
    r
}

} // verus!
