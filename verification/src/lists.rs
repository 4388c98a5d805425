//! Lists that keep some of the items of another list.
use vstd::prelude::*;

verus! {

/// Whether `places` are positions of `before`, each behind the last one.
pub open spec fn are_places<T>(before: Seq<T>, places: Seq<int>) -> bool {
    &&& forall|j: int| 0 <= j < places.len() ==> 0 <= #[trigger] places[j] < before.len()
    &&& forall|i: int, j: int|
        0 <= i < j < places.len() ==> #[trigger] places[i] < #[trigger] places[j]
}

/// Whether `after` has the items of `before` at `places`, in their order, and
/// these are exactly the places of the items that are to be kept.
pub open spec fn keeps_exactly<T>(
    before: Seq<T>,
    after: Seq<T>,
    places: Seq<int>,
    keep: spec_fn(T) -> bool,
) -> bool {
    &&& are_places(before, places)
    &&& after.len() == places.len()
    &&& forall|j: int| 0 <= j < after.len() ==> #[trigger] after[j] == before[places[j]]
    &&& forall|k: int|
        0 <= k < before.len() ==> (places.contains(k) <==> keep(#[trigger] before[k]))
}

/// One place more, behind all others, is a place; and no other is new.
pub(crate) proof fn lemma_place_added<T>(before: Seq<T>, places: Seq<int>)
    requires
        before.len() > 0,
        are_places(before.drop_last(), places),
    ensures
        are_places(before, places),
        are_places(before, places.push(before.len() - 1)),
        !places.contains(before.len() - 1),
        places.push(before.len() - 1).contains(before.len() - 1),
        forall|k: int|
            k != before.len() - 1 ==> #[trigger] places.push(before.len() - 1).contains(k)
                == places.contains(k),
{
    let last = before.len() - 1;
    let more = places.push(last);
    assert(more[places.len() as int] == last);
    assert forall|k: int| k != last implies #[trigger] more.contains(k) == places.contains(k) by {
        if places.contains(k) {
            let j = choose|j: int| 0 <= j < places.len() && places[j] == k;
            assert(more[j] == k);
        }
        if more.contains(k) {
            let j = choose|j: int| 0 <= j < more.len() && more[j] == k;
            assert(places[j] == k);
        }
    }
}

/// Filtering a list keeps exactly the items that pass.
pub(crate) proof fn lemma_filter_keeps_exactly<T>(
    items: Seq<T>,
    keep: spec_fn(T) -> bool,
) -> (places: Seq<int>)
    ensures
        keeps_exactly(items, items.filter(keep), places, keep),
    decreases items.len(),
{
    reveal(Seq::filter);
    if items.len() == 0 {
        seq![]
    } else {
        let rest = items.drop_last();
        let kept = rest.filter(keep);
        let last = items.len() - 1;
        let places = lemma_filter_keeps_exactly(rest, keep);
        lemma_place_added(items, places);
        let all = if keep(items.last()) {
            places.push(last)
        } else {
            places
        };
        assert forall|j: int| 0 <= j < items.filter(keep).len() implies #[trigger] items.filter(
            keep,
        )[j] == items[all[j]] by {
            if j < kept.len() {
                assert(kept[j] == rest[places[j]]);
            }
        }
        assert forall|k: int| 0 <= k < items.len() implies (all.contains(k) <==> keep(
            #[trigger] items[k],
        )) by {
            if k < last {
                assert(rest[k] == items[k]);
                assert(places.push(last).contains(k) == places.contains(k));
            }
        }
        all
    }
}

} // verus!
