//! Which items of a sequence were picked, by their places.

use vstd::prelude::*;

verus! {

/// Whether these are the places of exactly the chosen ones among `len` items, in their order.
pub open spec fn are_places_of(places: Seq<int>, len: nat, chosen: spec_fn(int) -> bool) -> bool {
    &&& forall|k: int|
        0 <= k < places.len() ==> 0 <= #[trigger] places[k] < len && chosen(places[k])
    &&& forall|k: int, l: int|
        0 <= k < l < places.len() ==> #[trigger] places[k] < #[trigger] places[l]
    &&& forall|i: int| 0 <= i < len && #[trigger] chosen(i) ==> places.contains(i)
}

/// One more item adds its place, if it is chosen, and else none.
pub proof fn lemma_one_more_place(
    places: Seq<int>,
    len: nat,
    chosen: spec_fn(int) -> bool,
    longer: spec_fn(int) -> bool,
)
    requires
        are_places_of(places, len, chosen),
        forall|i: int| 0 <= i < len ==> #[trigger] longer(i) == chosen(i),
    ensures
        longer(len as int) ==> are_places_of(places.push(len as int), len + 1, longer),
        !longer(len as int) ==> are_places_of(places, len + 1, longer),
{
    let more = places.push(len as int);
    assert forall|i: int| 0 <= i < len + 1 && #[trigger] longer(i) implies (if longer(len as int) {
        more.contains(i)
    } else {
        places.contains(i)
    }) by {
        if i < len {
            assert(chosen(i));
            let k = choose|k: int| 0 <= k < places.len() && places[k] == i;
            assert(more[k] == i);
        } else {
            assert(more[places.len() as int] == i);
        }
    }
    assert forall|k: int| 0 <= k < places.len() implies 0 <= #[trigger] places[k] < len + 1
        && longer(places[k]) by {
        assert(chosen(places[k]));
        assert(longer(places[k]) == chosen(places[k]));
    }
    if longer(len as int) {
        assert forall|k: int| 0 <= k < more.len() implies 0 <= #[trigger] more[k] < len + 1
            && longer(more[k]) by {
            if k < places.len() {
                assert(more[k] == places[k]);
            }
        }
        assert forall|k: int, l: int| 0 <= k < l < more.len() implies #[trigger] more[k]
            < #[trigger] more[l] by {
            assert(more[k] == places[k]);
            if l < places.len() {
                assert(more[l] == places[l]);
            }
        }
    }
}

/// There is one way to pick the chosen ones in their order.
pub proof fn places_are_unique(
    left: Seq<int>,
    right: Seq<int>,
    len: nat,
    chosen: spec_fn(int) -> bool,
)
    requires
        are_places_of(left, len, chosen),
        are_places_of(right, len, chosen),
    ensures
        left == right,
{
    lemma_places_agree(left, right, len, chosen, left.len() as int);
    lemma_places_agree(right, left, len, chosen, right.len() as int);
    assert(left == right);
}

/// Up to any point, two ways to pick the chosen ones agree.
proof fn lemma_places_agree(
    left: Seq<int>,
    right: Seq<int>,
    len: nat,
    chosen: spec_fn(int) -> bool,
    n: int,
)
    requires
        are_places_of(left, len, chosen),
        are_places_of(right, len, chosen),
        0 <= n <= left.len(),
    ensures
        n <= right.len(),
        forall|k: int| 0 <= k < n ==> #[trigger] left[k] == right[k],
    decreases n,
{
    if n > 0 {
        lemma_places_agree(left, right, len, chosen, n - 1);
        let place = left[n - 1];
        assert(chosen(place));
        let m = choose|m: int| 0 <= m < right.len() && right[m] == place;
        if m < n - 1 {
            assert(left[m] == right[m]);
            assert(left[m] < left[n - 1]);
        }
        if m > n - 1 {
            let earlier = right[n - 1];
            assert(right[n - 1] < right[m]);
            assert(chosen(earlier));
            let j = choose|j: int| 0 <= j < left.len() && left[j] == earlier;
            if j < n - 1 {
                assert(left[j] == right[j]);
                assert(right[j] < right[n - 1]);
            } else if j > n - 1 {
                assert(left[n - 1] < left[j]);
            }
        }
    }
}

} // verus!
