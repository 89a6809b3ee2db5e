//! Sets of surfaces kept as strictly increasing vectors, so that every
//! listing of them comes out in one deterministic order.

use vstd::prelude::*;

use crate::protocol::SurfaceId;

verus! {

/// Every surface precedes the ones after it: no duplicates, increasing order.
pub open spec fn strictly_sorted(s: Seq<SurfaceId>) -> bool {
    forall|i: int, j: int| 0 <= i < j < s.len() ==> (#[trigger] s[i]).spec_lt(#[trigger] s[j])
}

/// A strictly sorted sequence is fixed by its set of surfaces: two of them
/// with the same elements are equal.
pub proof fn lemma_sorted_set_determines_order(a: Seq<SurfaceId>, b: Seq<SurfaceId>)
    requires
        strictly_sorted(a),
        strictly_sorted(b),
        a.to_set() == b.to_set(),
    ensures
        a == b,
    decreases a.len(),
{
    if a.len() == 0 {
        if b.len() > 0 {
            assert(b.to_set().contains(b[0]));
        }
        assert(a =~= b);
    } else {
        assert(a.to_set().contains(a[0]));
        assert(b.len() > 0);
        assert(b.to_set().contains(b[0]));
        let j = choose|j: int| 0 <= j < b.len() && b[j] == a[0];
        let i = choose|i: int| 0 <= i < a.len() && a[i] == b[0];
        if j > 0 {
            assert(b[0].spec_lt(b[j]));
            if i > 0 {
                assert(a[0].spec_lt(a[i]));
            }
        }
        assert(a[0] == b[0]);
        let ra = a.drop_first();
        let rb = b.drop_first();
        assert(strictly_sorted(ra)) by {
            assert forall|x: int, y: int| 0 <= x < y < ra.len() implies (#[trigger] ra[x]).spec_lt(
                #[trigger] ra[y],
            ) by {
                assert(ra[x] == a[x + 1] && ra[y] == a[y + 1]);
            }
        }
        assert(strictly_sorted(rb)) by {
            assert forall|x: int, y: int| 0 <= x < y < rb.len() implies (#[trigger] rb[x]).spec_lt(
                #[trigger] rb[y],
            ) by {
                assert(rb[x] == b[x + 1] && rb[y] == b[y + 1]);
            }
        }
        assert(ra.to_set() =~= rb.to_set()) by {
            assert forall|v: SurfaceId| ra.to_set().contains(v) implies rb.to_set().contains(v) by {
                let x = choose|x: int| 0 <= x < ra.len() && ra[x] == v;
                assert(a[x + 1] == v);
                assert(a[0].spec_lt(a[x + 1]));
                assert(a.to_set().contains(v));
                let y = choose|y: int| 0 <= y < b.len() && b[y] == v;
                assert(y != 0);
                assert(rb[y - 1] == v);
            }
            assert forall|v: SurfaceId| rb.to_set().contains(v) implies ra.to_set().contains(v) by {
                let y = choose|y: int| 0 <= y < rb.len() && rb[y] == v;
                assert(b[y + 1] == v);
                assert(b[0].spec_lt(b[y + 1]));
                assert(b.to_set().contains(v));
                let x = choose|x: int| 0 <= x < a.len() && a[x] == v;
                assert(x != 0);
                assert(ra[x - 1] == v);
            }
        }
        lemma_sorted_set_determines_order(ra, rb);
        assert(a =~= seq![a[0]] + ra);
        assert(b =~= seq![b[0]] + rb);
    }
}

/// Whether `surface` occurs in the sorted vector.
pub fn sorted_contains(v: &Vec<SurfaceId>, surface: SurfaceId) -> (found: bool)
    ensures
        found == v@.contains(surface),
{
    let mut i: usize = 0;
    while i < v.len()
        invariant
            i <= v@.len(),
            forall|j: int| 0 <= j < i ==> v@[j] != surface,
        decreases v@.len() - i,
    {
        if v[i].same(&surface) {
            assert(v@[i as int] == surface);
            return true;
        }
        i = i + 1;
    }
    false
}

/// Adds `surface`, keeping the vector strictly sorted.
pub fn sorted_insert(v: &mut Vec<SurfaceId>, surface: SurfaceId)
    requires
        strictly_sorted(old(v)@),
    ensures
        strictly_sorted(final(v)@),
        final(v)@.to_set() == old(v)@.to_set().insert(surface),
{
    let mut i: usize = 0;
    while i < v.len() && v[i].precedes(&surface)
        invariant
            i <= v@.len(),
            v@ == old(v)@,
            strictly_sorted(v@),
            forall|j: int| 0 <= j < i ==> (#[trigger] v@[j]).spec_lt(surface),
        decreases v@.len() - i,
    {
        i = i + 1;
    }
    if i < v.len() && v[i].same(&surface) {
        assert(v@.to_set().insert(surface) =~= v@.to_set()) by {
            assert(v@.contains(surface));
        }
        return;
    }
    let ghost before = v@;
    v.insert(i, surface);
    assert(v@ == before.insert(i as int, surface));
    assert forall|a: int, b: int| 0 <= a < b < v@.len() implies (#[trigger] v@[a]).spec_lt(
        #[trigger] v@[b],
    ) by {
        if b < i {
        } else if b == i {
        } else if a < i {
            assert(before[a].spec_lt(surface));
            assert(surface.spec_lt(before[i as int]) || surface == before[i as int]);
        } else if a == i {
            assert(surface.spec_lt(before[i as int]) || surface == before[i as int]);
        } else {
        }
    }
    assert(v@.to_set() =~= before.to_set().insert(surface)) by {
        assert forall|x: SurfaceId| v@.to_set().contains(x) implies before.to_set().insert(
            surface,
        ).contains(x) by {
            let k = choose|k: int| 0 <= k < v@.len() && v@[k] == x;
            if k < i {
                assert(before[k] == x);
            } else if k > i {
                assert(before[k - 1] == x);
            }
        }
        assert forall|x: SurfaceId| before.to_set().insert(surface).contains(x) implies v@.to_set().contains(
            x,
        ) by {
            if x == surface {
                assert(v@[i as int] == x);
            } else {
                let k = choose|k: int| 0 <= k < before.len() && before[k] == x;
                if k < i {
                    assert(v@[k] == x);
                } else {
                    assert(v@[k + 1] == x);
                }
            }
        }
    }
}

/// Removes `surface` if present, keeping the vector strictly sorted.
pub fn sorted_remove(v: &mut Vec<SurfaceId>, surface: SurfaceId)
    requires
        strictly_sorted(old(v)@),
    ensures
        strictly_sorted(final(v)@),
        final(v)@.to_set() == old(v)@.to_set().remove(surface),
        final(v)@.len() <= old(v)@.len(),
        forall|x: SurfaceId| #[trigger] final(v)@.contains(x) <==> old(v)@.contains(x) && x != surface,
{
    let mut i: usize = 0;
    while i < v.len()
        invariant
            i <= v@.len(),
            v@ == old(v)@,
            strictly_sorted(v@),
            forall|j: int| 0 <= j < i ==> v@[j] != surface,
        decreases v@.len() - i,
    {
        if v[i].same(&surface) {
            let ghost before = v@;
            v.remove(i);
            assert(v@ == before.remove(i as int));
            assert forall|x: SurfaceId| #[trigger] v@.contains(x) <==> before.contains(x) && x
                != surface by {
                if v@.contains(x) {
                    let k = choose|k: int| 0 <= k < v@.len() && v@[k] == x;
                    if k < i {
                        assert(before[k] == x);
                        assert(before[k].spec_lt(before[i as int]));
                    } else {
                        assert(before[k + 1] == x);
                        assert(before[i as int].spec_lt(before[k + 1]));
                    }
                }
                if before.contains(x) && x != surface {
                    let k = choose|k: int| 0 <= k < before.len() && before[k] == x;
                    if k < i {
                        assert(v@[k] == x);
                    } else {
                        assert(k != i);
                        assert(v@[k - 1] == x);
                    }
                }
            }
            assert(v@.to_set() =~= before.to_set().remove(surface));
            return;
        }
        i = i + 1;
    }
    assert(v@.to_set() =~= old(v)@.to_set().remove(surface));
}

} // verus!
