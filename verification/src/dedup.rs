//! Identity deduplication: collapsing endpoints that are the same
//! physical clipboard.
//!
//! Two candidates are the same clipboard exactly when a mutual echo
//! probe succeeds in both directions: the first candidate's display name,
//! written to the first, reads back from the second, and the second's
//! name, written to the second, reads back from the first. Given the
//! pairwise judgements, the later-discovered member of an equivalent
//! pair is dropped and the earlier kept.

use vstd::prelude::*;

use crate::endpoint::Endpoint;

verus! {

/// Judgement of one mutual-echo probe. `d1` and `d2` are the display
/// names of the earlier and later candidate; `echo1` is what the later
/// candidate read after `d1` was written to the earlier one, and `echo2`
/// what the earlier candidate read after `d2` was written to the later
/// one, or `None` where the probe stopped after the first direction
/// already failed. The two are the same clipboard only if both
/// directions echoed.
pub open spec fn spec_same_judgement(
    d1: Seq<char>,
    echo1: Seq<char>,
    d2: Seq<char>,
    echo2: Option<Seq<char>>,
) -> bool {
    echo1 == d1 && (echo2 matches Some(e) && e == d2)
}

/// The view of an optional observation.
pub open spec fn spec_opt_view(o: Option<String>) -> Option<Seq<char>> {
    match o {
        Some(s) => Some(s@),
        None => None,
    }
}

/// Decides one mutual-echo probe from its observations.
pub fn judge_same(d1: &String, echo1: &String, d2: &String, echo2: &Option<String>) -> (r: bool)
    ensures
        r == spec_same_judgement(d1@, echo1@, d2@, spec_opt_view(*echo2)),
{
    match echo2 {
        None => false,
        Some(e2) => d1.eq(echo1) && d2.eq(e2),
    }
}

/// Which candidates of the first `j` survive deduplication under the
/// pairwise sameness relation `same`: a candidate is dropped exactly
/// when some earlier surviving candidate is the same clipboard.
pub open spec fn spec_keep(same: spec_fn(int, int) -> bool, j: nat) -> Seq<bool>
    decreases j,
{
    if j == 0 {
        Seq::empty()
    } else {
        let prev = spec_keep(same, (j - 1) as nat);
        prev.push(!(exists|i: int| 0 <= i < j - 1 && #[trigger] prev[i] && same(i, j - 1)))
    }
}

pub proof fn lemma_keep_len(same: spec_fn(int, int) -> bool, j: nat)
    ensures
        spec_keep(same, j).len() == j,
    decreases j,
{
    if j > 0 {
        lemma_keep_len(same, (j - 1) as nat);
    }
}

/// The selection of a prefix is the prefix of the selection.
pub proof fn lemma_keep_prefix(same: spec_fn(int, int) -> bool, m: nat, n: nat)
    requires
        m <= n,
    ensures
        spec_keep(same, n).take(m as int) == spec_keep(same, m),
    decreases n,
{
    lemma_keep_len(same, n);
    lemma_keep_len(same, m);
    if m < n {
        lemma_keep_prefix(same, m, (n - 1) as nat);
        lemma_keep_len(same, (n - 1) as nat);
        assert(spec_keep(same, n).take(m as int) =~= spec_keep(same, (n - 1) as nat).take(
            m as int,
        ));
    } else {
        assert(spec_keep(same, n).take(m as int) =~= spec_keep(same, m));
    }
}

/// The defining property of the selection, stated over the whole
/// selection: position `j` is dropped exactly when some earlier kept
/// position is the same clipboard.
pub proof fn lemma_keep_at(same: spec_fn(int, int) -> bool, n: nat, j: int)
    requires
        0 <= j < n,
    ensures
        spec_keep(same, n)[j] == !(exists|i: int|
            0 <= i < j && #[trigger] spec_keep(same, n)[i] && same(i, j)),
{
    let full = spec_keep(same, n);
    let upto = spec_keep(same, (j + 1) as nat);
    let prev = spec_keep(same, j as nat);
    lemma_keep_len(same, n);
    lemma_keep_len(same, (j + 1) as nat);
    lemma_keep_len(same, j as nat);
    lemma_keep_prefix(same, (j + 1) as nat, n);
    lemma_keep_prefix(same, j as nat, n);
    assert(full[j] == upto[j]) by {
        assert(full.take(j + 1)[j] == full[j]);
    }
    assert(upto[j] == !(exists|i: int| 0 <= i < j && #[trigger] prev[i] && same(i, j)));
    assert(forall|i: int| 0 <= i < j ==> #[trigger] prev[i] == full[i]) by {
        assert(forall|i: int| 0 <= i < j ==> full.take(j as int)[i] == #[trigger] full[i]);
    }
    if exists|i: int| 0 <= i < j && #[trigger] prev[i] && same(i, j) {
        let w = choose|i: int| 0 <= i < j && #[trigger] prev[i] && same(i, j);
        assert(full[w] && same(w, j));
    }
    if exists|i: int| 0 <= i < j && #[trigger] full[i] && same(i, j) {
        let w = choose|i: int| 0 <= i < j && #[trigger] full[i] && same(i, j);
        assert(prev[w] && same(w, j));
    }
}

/// Deduplication keeps the earlier of two equivalent candidates. A
/// position is dropped exactly when an earlier kept position is the same
/// clipboard; in particular the first candidate always survives, so of
/// an equivalent pair the earlier-discovered one is the survivor,
/// whichever of the two was discovered first.
pub proof fn lemma_dedup_earlier_wins(same: spec_fn(int, int) -> bool, n: nat)
    ensures
        spec_keep(same, n).len() == n,
        forall|j: int|
            0 <= j < n
                ==> (#[trigger] spec_keep(same, n)[j] == !(exists|i: int|
                0 <= i < j && #[trigger] spec_keep(same, n)[i] && same(i, j))),
        n > 0 ==> spec_keep(same, n)[0],
{
    lemma_keep_len(same, n);
    assert forall|j: int| 0 <= j < n implies (#[trigger] spec_keep(same, n)[j] == !(exists|i: int|
        0 <= i < j && #[trigger] spec_keep(same, n)[i] && same(i, j))) by {
        lemma_keep_at(same, n, j);
    }
    if n > 0 {
        lemma_keep_at(same, n, 0);
    }
}

/// Of an equivalent pair probed in either discovery order, the earlier
/// candidate survives and the later is dropped.
pub proof fn lemma_pair_survivor(same: spec_fn(int, int) -> bool)
    requires
        same(0, 1),
    ensures
        spec_keep(same, 2) =~= seq![true, false],
{
    lemma_keep_at(same, 2, 0);
    lemma_keep_at(same, 2, 1);
    lemma_keep_len(same, 2);
    assert(spec_keep(same, 2)[0] && same(0, 1));
}

/// The positions kept by a selection, in ascending order.
pub open spec fn spec_kept_indices(keep: Seq<bool>) -> Seq<int>
    decreases keep.len(),
{
    if keep.len() == 0 {
        Seq::empty()
    } else {
        let rest = spec_kept_indices(keep.drop_last());
        if keep.last() {
            rest.push(keep.len() - 1)
        } else {
            rest
        }
    }
}

/// Kept positions are in range, kept, and strictly ascending.
pub proof fn lemma_kept_indices_props(keep: Seq<bool>)
    ensures
        forall|a: int|
            0 <= a < spec_kept_indices(keep).len() ==> 0 <= #[trigger] spec_kept_indices(keep)[a]
                < keep.len() && keep[spec_kept_indices(keep)[a]],
        forall|a: int, b: int|
            0 <= a < b < spec_kept_indices(keep).len() ==> #[trigger] spec_kept_indices(keep)[a]
                < #[trigger] spec_kept_indices(keep)[b],
    decreases keep.len(),
{
    if keep.len() > 0 {
        lemma_kept_indices_props(keep.drop_last());
        let rest = spec_kept_indices(keep.drop_last());
        assert(forall|a: int|
            0 <= a < rest.len() ==> 0 <= #[trigger] rest[a] < keep.len() - 1 && keep.drop_last()[
                rest[a]
            ]);
        assert(forall|a: int|
            0 <= a < rest.len() ==> keep[#[trigger] rest[a]] == keep.drop_last()[rest[a]]);
    }
}

/// The sameness relation induced on the kept candidates.
pub open spec fn spec_restrict(same: spec_fn(int, int) -> bool, idxs: Seq<int>) -> spec_fn(
    int,
    int,
) -> bool {
    |a: int, b: int| 0 <= a < idxs.len() && 0 <= b < idxs.len() && same(idxs[a], idxs[b])
}

/// Kept candidates are pairwise distinct clipboards: for two kept
/// positions in order, the sameness relation does not hold.
pub proof fn lemma_kept_pairwise_distinct(same: spec_fn(int, int) -> bool, n: nat, i: int, j: int)
    requires
        0 <= i < j < n,
        spec_keep(same, n)[i],
        spec_keep(same, n)[j],
    ensures
        !same(i, j),
{
    lemma_keep_at(same, n, j);
}

/// If no pair is the same clipboard, deduplication drops nothing.
pub proof fn lemma_keep_all_when_distinct(same: spec_fn(int, int) -> bool, m: nat)
    requires
        forall|a: int, b: int| 0 <= a < b < m ==> !(#[trigger] same(a, b)),
    ensures
        forall|a: int| 0 <= a < m ==> #[trigger] spec_keep(same, m)[a],
{
    lemma_keep_len(same, m);
    assert forall|a: int| 0 <= a < m implies #[trigger] spec_keep(same, m)[a] by {
        lemma_keep_at(same, m, a);
    }
}

/// Running deduplication a second time over the canonical set, with the
/// sameness relation it induces there, removes nothing: deduplication is
/// idempotent.
pub proof fn lemma_dedup_idempotent(same: spec_fn(int, int) -> bool, n: nat)
    ensures
        ({
            let kept = spec_kept_indices(spec_keep(same, n));
            let induced = spec_restrict(same, kept);
            forall|a: int|
                0 <= a < kept.len() ==> #[trigger] spec_keep(induced, kept.len() as nat)[a]
        }),
{
    let keep = spec_keep(same, n);
    let kept = spec_kept_indices(keep);
    let induced = spec_restrict(same, kept);
    lemma_keep_len(same, n);
    lemma_kept_indices_props(keep);
    assert forall|a: int, b: int| 0 <= a < b < kept.len() implies !(#[trigger] induced(a, b)) by {
        lemma_kept_pairwise_distinct(same, n, kept[a], kept[b]);
    }
    lemma_keep_all_when_distinct(induced, kept.len() as nat);
}

/// The pairwise sameness relation held in a square matrix: `m[i][j]`
/// says whether candidates `i` and `j` were judged the same clipboard.
pub open spec fn spec_matrix(m: Seq<Vec<bool>>) -> spec_fn(int, int) -> bool {
    |i: int, j: int| 0 <= i < m.len() && 0 <= j < m[i]@.len() && m[i]@[j]
}

/// Selects the canonical candidates under the judged sameness matrix:
/// a candidate is dropped exactly when an earlier kept candidate was
/// judged the same clipboard, so the earlier-discovered of an
/// equivalent pair always survives.
pub fn select_canonical(same: &Vec<Vec<bool>>) -> (keep: Vec<bool>)
    requires
        forall|i: int| 0 <= i < same@.len() ==> (#[trigger] same@[i])@.len() == same@.len(),
    ensures
        keep@ == spec_keep(spec_matrix(same@), same@.len() as nat),
{
    let ghost rel = spec_matrix(same@);
    let n = same.len();
    let mut keep: Vec<bool> = Vec::new();
    let mut j: usize = 0;
    while j < n
        invariant
            j <= n,
            n == same@.len(),
            forall|i: int| 0 <= i < same@.len() ==> (#[trigger] same@[i])@.len() == same@.len(),
            rel == spec_matrix(same@),
            keep@ == spec_keep(rel, j as nat),
            keep@.len() == j,
        decreases n - j,
    {
        let mut removed = false;
        let mut i: usize = 0;
        while i < j
            invariant
                i <= j < n,
                n == same@.len(),
                forall|i2: int|
                    0 <= i2 < same@.len() ==> (#[trigger] same@[i2])@.len() == same@.len(),
                rel == spec_matrix(same@),
                keep@.len() == j,
                removed == (exists|i2: int|
                    0 <= i2 < i && #[trigger] keep@[i2] && rel(i2, j as int)),
            decreases j - i,
        {
            if keep[i] && same[i][j] {
                removed = true;
                proof {
                    assert(keep@[i as int] && rel(i as int, j as int));
                }
            }
            i = i + 1;
        }
        keep.push(!removed);
        proof {
            lemma_keep_len(rel, j as nat);
            assert(keep@ =~= spec_keep(rel, (j + 1) as nat));
        }
        j = j + 1;
    }
    keep
}

/// The items at kept positions, in order.
pub open spec fn spec_filter_kept(items: Seq<Endpoint>, keep: Seq<bool>) -> Seq<Endpoint>
    decreases items.len(),
{
    if items.len() == 0 || keep.len() != items.len() {
        Seq::empty()
    } else {
        let rest = spec_filter_kept(items.drop_last(), keep.drop_last());
        if keep.last() {
            rest.push(items.last())
        } else {
            rest
        }
    }
}

/// Builds the canonical set: the candidates that survived selection, in
/// discovery order.
pub fn filter_kept(items: Vec<Endpoint>, keep: &Vec<bool>) -> (r: Vec<Endpoint>)
    requires
        items@.len() == keep@.len(),
    ensures
        r@ == spec_filter_kept(items@, keep@),
{
    let ghost all = items@;
    let ghost keeps = keep@;
    let mut items = items;
    let mut r: Vec<Endpoint> = Vec::new();
    let mut i: usize = 0;
    let n = items.len();
    while i < n
        invariant
            i <= n,
            n == all.len() == keeps.len(),
            keeps == keep@,
            items@ == all.skip(i as int),
            r@ == spec_filter_kept(all.take(i as int), keeps.take(i as int)),
        decreases n - i,
    {
        let e = items.remove(0);
        proof {
            assert(e == all[i as int]);
            assert(all.skip(i as int).skip(1) =~= all.skip(i + 1));
            assert(all.take(i + 1).drop_last() =~= all.take(i as int));
            assert(keeps.take(i + 1).drop_last() =~= keeps.take(i as int));
            assert(all.take(i + 1).last() == all[i as int]);
            assert(keeps.take(i + 1).last() == keeps[i as int]);
        }
        if keep[i] {
            r.push(e);
        }
        i = i + 1;
    }
    proof {
        assert(all.take(n as int) =~= all);
        assert(keeps.take(n as int) =~= keeps);
    }
    r
}

} // verus!
