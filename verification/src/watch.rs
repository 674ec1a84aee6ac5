//! The watch loop's decisions: baseline, change detection, propagation.
//!
//! The watch loop polls the canonical set in order, compares each value
//! against the last known baseline, and on the first divergent value
//! adopts it as the new baseline and pushes it to every endpoint. These
//! functions decide one tick from the polled values; the process around
//! the engine performs the get/set calls between ticks.

use vstd::prelude::*;

use crate::endpoint::Endpoint;
use crate::error::MyError;
use vstd::string::StringExecFns;

verus! {

/// The views of a sequence of polled values.
pub open spec fn spec_views(vs: Seq<String>) -> Seq<Seq<char>> {
    vs.map_values(|v: String| v@)
}

/// The first non-empty value, or empty if every value is empty.
pub open spec fn spec_first_nonempty(vs: Seq<Seq<char>>) -> Seq<char>
    decreases vs.len(),
{
    if vs.len() == 0 {
        Seq::empty()
    } else if vs[0].len() > 0 {
        vs[0]
    } else {
        spec_first_nonempty(vs.drop_first())
    }
}

/// The canonical start value: the first non-empty read across the
/// candidates, or empty when all of them read empty.
pub fn initial_baseline(values: &Vec<String>) -> (r: String)
    ensures
        r@ == spec_first_nonempty(spec_views(values@)),
{
    let n = values.len();
    proof {
        assert(spec_views(values@).skip(0) =~= spec_views(values@));
    }
    let mut i: usize = 0;
    while i < n
        invariant
            i <= n,
            n == values@.len(),
            spec_first_nonempty(spec_views(values@)) == spec_first_nonempty(
                spec_views(values@).skip(i as int),
            ),
        decreases n - i,
    {
        proof {
            assert(spec_views(values@).skip(i as int)[0] == values@[i as int]@);
            assert(spec_views(values@).skip(i as int).drop_first() =~= spec_views(values@).skip(
                i + 1,
            ));
        }
        if !values[i].as_str().is_empty() {
            return values[i].clone();
        }
        i = i + 1;
    }
    proof {
        assert(spec_views(values@).skip(n as int) =~= Seq::<Seq<char>>::empty());
    }
    String::new()
}

/// The baseline after one polling sweep: the first value that differs
/// from the old baseline, or the old baseline if none differs.
pub open spec fn spec_tick_baseline(baseline: Seq<char>, vs: Seq<Seq<char>>) -> Seq<char>
    decreases vs.len(),
{
    if vs.len() == 0 {
        baseline
    } else if vs[0] != baseline {
        vs[0]
    } else {
        spec_tick_baseline(baseline, vs.drop_first())
    }
}

/// Finds the first polled value that differs from the baseline, with its
/// position in the canonical order; `None` when nothing changed.
pub fn find_changed(baseline: &String, polled: &Vec<String>) -> (r: Option<(usize, String)>)
    ensures
        r matches Some((i, v)) ==> i < polled@.len() && polled@[i as int]@ == v@ && v@ != baseline@
            && (forall|k: int| 0 <= k < i ==> polled@[k]@ == baseline@),
        r is None ==> forall|k: int| 0 <= k < polled@.len() ==> polled@[k]@ == baseline@,
        r matches Some((i, v)) ==> v@ == spec_tick_baseline(baseline@, spec_views(polled@)),
        r is None ==> baseline@ == spec_tick_baseline(baseline@, spec_views(polled@)),
{
    let n = polled.len();
    proof {
        assert(spec_views(polled@).skip(0) =~= spec_views(polled@));
    }
    let mut i: usize = 0;
    while i < n
        invariant
            i <= n,
            n == polled@.len(),
            forall|k: int| 0 <= k < i ==> polled@[k]@ == baseline@,
            spec_tick_baseline(baseline@, spec_views(polled@)) == spec_tick_baseline(
                baseline@,
                spec_views(polled@).skip(i as int),
            ),
        decreases n - i,
    {
        proof {
            assert(spec_views(polled@).skip(i as int)[0] == polled@[i as int]@);
            assert(spec_views(polled@).skip(i as int).drop_first() =~= spec_views(polled@).skip(
                i + 1,
            ));
        }
        if !polled[i].eq(baseline) {
            return Some((i, polled[i].clone()));
        }
        i = i + 1;
    }
    proof {
        assert(spec_views(polled@).skip(n as int) =~= Seq::<Seq<char>>::empty());
    }
    None
}

/// One full watch tick over the canonical set's current values: the
/// first divergent value, if any, becomes the new baseline and is pushed
/// to every endpoint, the ones polled earlier in the tick included.
/// After a completed tick every endpoint holds the tick's baseline.
pub fn propagate(values: &Vec<String>, baseline: &String) -> (r: (Vec<String>, String))
    ensures
        r.1@ == spec_tick_baseline(baseline@, spec_views(values@)),
        r.0@.len() == values@.len(),
        forall|j: int| 0 <= j < values@.len() ==> #[trigger] r.0@[j]@ == r.1@,
{
    let n = values.len();
    match find_changed(baseline, values) {
        Some((_, v)) => {
            let mut out: Vec<String> = Vec::new();
            let mut j: usize = 0;
            while j < n
                invariant
                    j <= n,
                    out@.len() == j,
                    forall|k: int| 0 <= k < j ==> #[trigger] out@[k]@ == v@,
                decreases n - j,
            {
                out.push(v.clone());
                j = j + 1;
            }
            (out, v)
        },
        None => {
            let mut out: Vec<String> = Vec::new();
            let mut j: usize = 0;
            while j < n
                invariant
                    j <= n,
                    n == values@.len(),
                    out@.len() == j,
                    forall|k: int| 0 <= k < n ==> #[trigger] values@[k]@ == baseline@,
                    forall|k: int| 0 <= k < j ==> #[trigger] out@[k]@ == baseline@,
                decreases n - j,
            {
                out.push(values[j].clone());
                proof {
                    assert(values@[j as int]@ == baseline@);
                }
                j = j + 1;
            }
            (out, baseline.clone())
        },
    }
}

/// Watch-loop convergence: if exactly one endpoint's value was changed
/// away from the baseline, one full tick leaves every endpoint holding
/// the injected value.
pub proof fn lemma_tick_converges(baseline: Seq<char>, vs: Seq<Seq<char>>, c: int)
    requires
        0 <= c < vs.len(),
        vs[c] != baseline,
        forall|k: int| 0 <= k < vs.len() && k != c ==> vs[k] == baseline,
    ensures
        spec_tick_baseline(baseline, vs) == vs[c],
    decreases vs.len(),
{
    if c > 0 {
        assert(vs[0] == baseline);
        assert(vs.drop_first()[c - 1] == vs[c]);
        lemma_tick_converges(baseline, vs.drop_first(), c - 1);
    }
}

/// A canonical set must hold at least one endpoint for the watch loop
/// to run; an empty set is the `NoClipboards` error.
pub fn check_canonical_set(endpoints: &Vec<Endpoint>) -> (r: Result<(), MyError>)
    ensures
        r is Ok <==> endpoints@.len() > 0,
        r is Err ==> r == Err::<(), MyError>(MyError::NoClipboards),
{
    if endpoints.len() == 0 {
        Err(MyError::NoClipboards)
    } else {
        Ok(())
    }
}

} // verus!
