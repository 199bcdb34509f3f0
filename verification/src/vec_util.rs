//! A small helper for growing vectors whose contracts speak in deep views.

use vstd::prelude::*;

verus! {

/// Appends one element, relating the vector's deep view to its old value.
pub(crate) fn push_and_view<T: DeepView>(v: &mut Vec<T>, x: T)
    ensures
        final(v).deep_view() == old(v).deep_view().push(x.deep_view()),
{
    let ghost prevd = v.deep_view();
    let ghost prevv = v@;
    let ghost xd = x.deep_view();
    v.push(x);
    proof {
        assert(prevd.len() == prevv.len());
        assert forall|j: int| 0 <= j < v.deep_view().len() implies v.deep_view()[j] == prevd.push(
            xd,
        )[j] by {
            assert(v.deep_view()[j] == v@[j].deep_view());
            if j < prevv.len() {
                assert(v@[j] == prevv[j]);
                assert(prevd[j] == prevv[j].deep_view());
            }
        }
        assert(v.deep_view() =~= prevd.push(xd));
    }
}

} // verus!
