//! Laws of the store, stated over its model.
use vstd::prelude::*;
use crate::keg::KegView;
use crate::tracker::{KegError, TrackerView};

verus! {

/// What a creation is given: label, capacity, location and time.
pub type NewKeg = (Seq<char>, i64, Seq<char>, u64);

/// The store after creating each of `items` in turn, starting from `v`.
pub open spec fn after_adds(v: TrackerView, items: Seq<NewKeg>) -> TrackerView
    decreases items.len(),
{
    if items.len() == 0 {
        v
    } else {
        let w = after_adds(v, items.drop_last());
        let (beer_type, size, location, now) = items.last();
        w.add(beer_type, size, location, now)
    }
}

/// Creation and fill updates keep a valid store valid: no keg ever holds more
/// than its capacity. An update is accepted for every volume up to the
/// capacity, negative ones included, and refused for every volume above it.
pub proof fn law_fill_never_exceeds_capacity(
    v: TrackerView,
    beer_type: Seq<char>,
    size: i64,
    location: Seq<char>,
    id: u32,
    volume: i64,
    now: u64,
)
    requires
        v.valid(),
        v.next_id < u32::MAX,
    ensures
        v.add(beer_type, size, location, now).valid(),
        v.update(id, volume, now).valid(),
        v.kegs.contains_key(id) ==> (v.update_outcome(id, volume) is Ok <==> volume <= v.kegs[id].size),
{
}

/// A creation hands out an id greater than every id already in the store, and
/// the new keg starts full.
pub proof fn law_create_fresh_and_full(
    v: TrackerView,
    beer_type: Seq<char>,
    size: i64,
    location: Seq<char>,
    now: u64,
)
    requires
        v.valid(),
        v.next_id < u32::MAX,
    ensures
        forall|k: u32| v.kegs.contains_key(k) ==> k < v.next_id,
        v.add(beer_type, size, location, now).next_id > v.next_id,
        v.add(beer_type, size, location, now).kegs[v.next_id].current_volume == size,
        v.add(beer_type, size, location, now).kegs[v.next_id].size == size,
{
}

/// Setting the fill level of an id that the store does not hold fails with
/// `NotFound` and changes nothing.
pub proof fn law_update_missing_id(v: TrackerView, id: u32, volume: i64, now: u64)
    requires
        !v.kegs.contains_key(id),
    ensures
        v.update_outcome(id, volume) == Err::<(), KegError>(KegError::NotFound),
        v.update(id, volume, now) == v,
{
}

/// Setting a fill level above the keg's capacity fails with `ExceedsCapacity`
/// and leaves the store, the keg's fill level included, as it was.
pub proof fn law_update_above_capacity(v: TrackerView, id: u32, volume: i64, now: u64)
    requires
        v.kegs.contains_key(id),
        volume > v.kegs[id].size,
    ensures
        v.update_outcome(id, volume) == Err::<(), KegError>(KegError::ExceedsCapacity),
        v.update(id, volume, now) == v,
        v.update(id, volume, now).kegs[id].current_volume == v.kegs[id].current_volume,
{
}

/// Setting the same fill level twice in a row answers the same both times and
/// leaves every record as the first call left it, but for the time stamp.
pub proof fn law_update_idempotent(v: TrackerView, id: u32, volume: i64, t1: u64, t2: u64)
    ensures
        ({
            let w1 = v.update(id, volume, t1);
            let w2 = w1.update(id, volume, t2);
            &&& w1.update_outcome(id, volume) == v.update_outcome(id, volume)
            &&& w2.next_id == w1.next_id
            &&& w2.kegs.dom() == w1.kegs.dom()
            &&& forall|k: u32| #[trigger] w1.kegs.contains_key(k) ==> w2.kegs[k] == (KegView {
                last_updated: w2.kegs[k].last_updated,
                ..w1.kegs[k]
            })
            &&& v.update_outcome(id, volume) is Err ==> w2 == w1
        }),
{
    let w1 = v.update(id, volume, t1);
    let w2 = w1.update(id, volume, t2);
    if v.update_outcome(id, volume) is Ok {
        assert(w2.kegs.dom() =~= w1.kegs.dom());
    }
}

/// An empty store holds no record; after `n` creations it holds exactly `n`,
/// under the ids 1 to `n`, each with the fields it was created with and full.
pub proof fn law_records_after_creations(items: Seq<NewKeg>)
    requires
        items.len() < u32::MAX,
    ensures
        TrackerView::empty().kegs.len() == 0,
        ({
            let w = after_adds(TrackerView::empty(), items);
            &&& w.valid()
            &&& w.next_id == items.len() + 1
            &&& w.kegs.len() == items.len()
            &&& forall|k: u32| #[trigger] w.kegs.contains_key(k) <==> 1 <= k <= items.len()
            &&& forall|i: int| 0 <= i < items.len() ==> w.kegs[(i + 1) as u32] == KegView::created(
                (i + 1) as u32,
                #[trigger] items[i].0,
                items[i].1,
                items[i].2,
                items[i].3,
            )
        }),
    decreases items.len(),
{
    assert(TrackerView::empty().kegs.dom() =~= Set::<u32>::empty());
    let w = after_adds(TrackerView::empty(), items);
    if items.len() == 0 {
        assert(w.kegs.dom() =~= Set::<u32>::empty());
    } else {
        let rest = items.drop_last();
        law_records_after_creations(rest);
        let u = after_adds(TrackerView::empty(), rest);
        let id = u.next_id;
        assert(!u.kegs.contains_key(id));
        assert(w.kegs.dom() =~= u.kegs.dom().insert(id));
        assert forall|i: int| 0 <= i < items.len() implies w.kegs[(i + 1) as u32] == KegView::created(
            (i + 1) as u32,
            #[trigger] items[i].0,
            items[i].1,
            items[i].2,
            items[i].3,
        ) by {
            if i < rest.len() {
                assert(rest[i] == items[i]);
            }
        }
    }
}

} // verus!
