use vstd::prelude::*;
use crate::keg::{Keg, KegView};

verus! {

/// Why a fill level could not be set.
#[derive(Clone, Copy, Debug, PartialEq, Eq, Structural)]
pub enum KegError {
    /// No keg has the given id.
    NotFound,
    /// The requested volume is greater than the keg's capacity.
    ExceedsCapacity,
}

impl KegError {
    /// A short message for the operator.
    pub fn message(&self) -> (r: &'static str)
        ensures
            *self == KegError::NotFound ==> r@ == "Keg not found"@,
            *self == KegError::ExceedsCapacity ==> r@ == "Volume cannot exceed keg size"@,
    {
        match self {
            KegError::NotFound => "Keg not found",
            KegError::ExceedsCapacity => "Volume cannot exceed keg size",
        }
    }
}

/// The store as mathematical values: its records by id, and the id that the
/// next creation will hand out.
pub struct TrackerView {
    pub kegs: Map<u32, KegView>,
    pub next_id: u32,
}

impl TrackerView {
    /// The empty store.
    pub open spec fn empty() -> TrackerView {
        TrackerView { kegs: Map::empty(), next_id: 1 }
    }

    /// Every record sits under its own id, ids are positive and below the next
    /// one, and no keg holds more than its capacity.
    pub open spec fn valid(self) -> bool {
        &&& self.kegs.dom().finite()
        &&& 1 <= self.next_id
        &&& forall|k: u32| #[trigger] self.kegs.contains_key(k) ==> {
            &&& self.kegs[k].id == k
            &&& 1 <= k < self.next_id
            &&& self.kegs[k].current_volume <= self.kegs[k].size
        }
    }

    /// The store after a creation: a full record under the next id.
    pub open spec fn add(self, beer_type: Seq<char>, size: i64, location: Seq<char>, now: u64) -> TrackerView {
        TrackerView {
            kegs: self.kegs.insert(
                self.next_id,
                KegView::created(self.next_id, beer_type, size, location, now),
            ),
            next_id: (self.next_id + 1) as u32,
        }
    }

    /// What setting keg `id` to `volume` answers.
    pub open spec fn update_outcome(self, id: u32, volume: i64) -> Result<(), KegError> {
        if !self.kegs.contains_key(id) {
            Err(KegError::NotFound)
        } else if volume > self.kegs[id].size {
            Err(KegError::ExceedsCapacity)
        } else {
            Ok(())
        }
    }

    /// The store after setting keg `id` to `volume` at time `now`: changed
    /// only where the outcome is a success.
    pub open spec fn update(self, id: u32, volume: i64, now: u64) -> TrackerView {
        if self.update_outcome(id, volume) is Ok {
            TrackerView { kegs: self.kegs.insert(id, self.kegs[id].refilled(volume, now)), ..self }
        } else {
            self
        }
    }
}

/// The records of `s`, keyed by their ids; a later record wins over an
/// earlier one with the same id.
pub open spec fn records_by_id(s: Seq<KegView>) -> Map<u32, KegView>
    decreases s.len(),
{
    if s.len() == 0 {
        Map::empty()
    } else {
        records_by_id(s.drop_last()).insert(s.last().id, s.last())
    }
}

/// The ids of `s` rise strictly from first to last.
pub open spec fn ids_increasing(s: Seq<KegView>) -> bool {
    forall|i: int, j: int| 0 <= i < j < s.len() ==> #[trigger] s[i].id < #[trigger] s[j].id
}

proof fn lemma_records_by_id_dom(s: Seq<KegView>, id: u32)
    ensures
        records_by_id(s).dom().finite(),
        records_by_id(s).contains_key(id) <==> exists|i: int| 0 <= i < s.len() && s[i].id == id,
    decreases s.len(),
{
    if s.len() > 0 {
        let t = s.drop_last();
        lemma_records_by_id_dom(t, id);
        if exists|i: int| 0 <= i < t.len() && t[i].id == id {
            let i = choose|i: int| 0 <= i < t.len() && t[i].id == id;
            assert(s[i] == t[i]);
        }
        if exists|i: int| 0 <= i < s.len() && s[i].id == id {
            let i = choose|i: int| 0 <= i < s.len() && s[i].id == id;
            if i < t.len() {
                assert(t[i] == s[i]);
            }
        }
    }
}

proof fn lemma_records_by_id_at(s: Seq<KegView>, i: int)
    requires
        ids_increasing(s),
        0 <= i < s.len(),
    ensures
        records_by_id(s).contains_key(s[i].id),
        records_by_id(s)[s[i].id] == s[i],
    decreases s.len(),
{
    if i < s.len() - 1 {
        let t = s.drop_last();
        assert(t[i] == s[i]);
        lemma_records_by_id_at(t, i);
        assert(s[i].id < s.last().id);
    }
}

proof fn lemma_records_by_id_update(s: Seq<KegView>, i: int, k: KegView)
    requires
        ids_increasing(s),
        0 <= i < s.len(),
        k.id == s[i].id,
    ensures
        records_by_id(s.update(i, k)) == records_by_id(s).insert(k.id, k),
    decreases s.len(),
{
    let u = s.update(i, k);
    if i == s.len() - 1 {
        assert(u.drop_last() == s.drop_last());
        assert(records_by_id(s).insert(k.id, k) == records_by_id(s.drop_last()).insert(k.id, k));
    } else {
        let t = s.drop_last();
        assert(u.drop_last() == t.update(i, k));
        lemma_records_by_id_update(t, i, k);
        assert(t[i].id < s.last().id);
        assert(records_by_id(u) == records_by_id(s).insert(k.id, k));
    }
}

proof fn lemma_records_by_id_len(s: Seq<KegView>)
    requires
        ids_increasing(s),
    ensures
        records_by_id(s).len() == s.len(),
    decreases s.len(),
{
    if s.len() > 0 {
        let t = s.drop_last();
        lemma_records_by_id_len(t);
        lemma_records_by_id_dom(t, s.last().id);
        if records_by_id(t).contains_key(s.last().id) {
            let i = choose|i: int| 0 <= i < t.len() && t[i].id == s.last().id;
            assert(s[i] == t[i]);
        }
    }
}

/// The inventory store: every keg record, and a counter that hands out ids.
pub struct KegTracker {
    kegs: Vec<Keg>,
    next_id: u32,
}

impl View for KegTracker {
    type V = TrackerView;

    closed spec fn view(&self) -> TrackerView {
        TrackerView { kegs: records_by_id(self.records()), next_id: self.next_id }
    }
}

impl KegTracker {
    spec fn records(&self) -> Seq<KegView> {
        self.kegs@.map_values(|k: Keg| k@)
    }

    /// The store's internal invariant: records kept in order of creation,
    /// which is the order of their ids.
    pub closed spec fn well_formed(&self) -> bool {
        &&& 1 <= self.next_id
        &&& ids_increasing(self.records())
        &&& forall|i: int| 0 <= i < self.kegs@.len() ==> {
            &&& 1 <= (#[trigger] self.kegs@[i])@.id < self.next_id
            &&& self.kegs@[i]@.current_volume <= self.kegs@[i]@.size
        }
    }

    proof fn lemma_view_valid(&self)
        requires
            self.well_formed(),
        ensures
            self@.valid(),
    {
        let s = self.records();
        lemma_records_by_id_dom(s, 0);
        assert forall|k: u32| #[trigger] self@.kegs.contains_key(k) implies {
            &&& self@.kegs[k].id == k
            &&& 1 <= k < self@.next_id
            &&& self@.kegs[k].current_volume <= self@.kegs[k].size
        } by {
            lemma_records_by_id_dom(s, k);
            let i = choose|i: int| 0 <= i < s.len() && s[i].id == k;
            lemma_records_by_id_at(s, i);
            assert(s[i] == self.kegs@[i]@);
        }
    }

    /// An empty store whose first record will get id 1.
    pub fn new() -> (r: KegTracker)
        ensures
            r.well_formed(),
            r@ == TrackerView::empty(),
    {
        let r = KegTracker { kegs: Vec::new(), next_id: 1 };
        assert(r.records() =~= Seq::<KegView>::empty());
        r
    }

    /// Records a new keg, full to its capacity and stamped with `now`, and
    /// returns its id. Any label, location and capacity is accepted, a zero or
    /// negative capacity too. The id is the next one and greater than every id
    /// handed out before.
    pub fn add_keg(&mut self, beer_type: String, size: i64, location: String, now: u64) -> (r: u32)
        requires
            old(self).well_formed(),
            old(self)@.next_id < u32::MAX,
        ensures
            final(self).well_formed(),
            final(self)@.valid(),
            r == old(self)@.next_id,
            forall|k: u32| old(self)@.kegs.contains_key(k) ==> k < r,
            final(self)@ == old(self)@.add(beer_type@, size, location@, now),
            final(self)@.kegs[r] == KegView::created(r, beer_type@, size, location@, now),
    {
        proof {
            self.lemma_view_valid();
        }
        let id = self.next_id;
        let keg = Keg::new(id, beer_type, size, location, now);
        self.kegs.push(keg);
        self.next_id = id + 1;
        proof {
            assert(self.records() =~= old(self).records().push(keg@));
            assert(self.records().drop_last() =~= old(self).records());
            self.lemma_view_valid();
        }
        id
    }

    /// Sets the fill level of keg `id` to `volume`, stamped with `now`.
    /// Fails with `NotFound` when no keg has that id, and otherwise with
    /// `ExceedsCapacity` when `volume` is above the keg's capacity; a failure
    /// changes nothing. Any volume up to the capacity is accepted, a negative
    /// one too.
    pub fn update_keg(&mut self, id: u32, volume: i64, now: u64) -> (r: Result<(), KegError>)
        requires
            old(self).well_formed(),
        ensures
            final(self).well_formed(),
            final(self)@.valid(),
            r == old(self)@.update_outcome(id, volume),
            final(self)@ == old(self)@.update(id, volume, now),
            r is Err ==> final(self)@ == old(self)@,
    {
        proof {
            self.lemma_view_valid();
            lemma_records_by_id_dom(self.records(), id);
        }
        let n = self.kegs.len();
        let mut i: usize = 0;
        while i < n
            invariant
                *self == *old(self),
                self.well_formed(),
                self@.valid(),
                n == self.kegs@.len(),
                0 <= i <= n,
                forall|j: int| 0 <= j < i ==> (#[trigger] self.kegs@[j])@.id != id,
            decreases n - i,
        {
            if self.kegs[i].id() == id {
                proof {
                    lemma_records_by_id_at(self.records(), i as int);
                    assert(self.records()[i as int] == self.kegs@[i as int]@);
                }
                if volume > self.kegs[i].size() {
                    return Err(KegError::ExceedsCapacity);
                }
                let ghost before = self.records();
                self.kegs[i].set_volume(volume, now);
                proof {
                    let k = before[i as int].refilled(volume, now);
                    assert(self.records() =~= before.update(i as int, k));
                    lemma_records_by_id_update(before, i as int, k);
                    self.lemma_view_valid();
                }
                return Ok(());
            }
            i = i + 1;
        }
        proof {
            assert forall|j: int| 0 <= j < self.records().len() implies self.records()[j].id != id by {
                assert(self.records()[j] == self.kegs@[j]@);
            }
        }
        Err(KegError::NotFound)
    }

    /// The id that the next creation will hand out.
    pub fn next_id(&self) -> (r: u32)
        ensures
            r == self@.next_id,
    {
        self.next_id
    }

    /// Every record of the store, each once. The order is that of creation.
    pub fn list_kegs(&self) -> (r: &Vec<Keg>)
        requires
            self.well_formed(),
        ensures
            r@.len() == self@.kegs.len(),
            forall|i: int, j: int| 0 <= i < j < r@.len() ==> r@[i]@.id != r@[j]@.id,
            forall|i: int| 0 <= i < r@.len() ==> self@.kegs.contains_key((#[trigger] r@[i])@.id)
                && self@.kegs[r@[i]@.id] == r@[i]@,
            forall|k: u32| self@.kegs.contains_key(k) ==> exists|i: int| 0 <= i < r@.len() && (#[trigger] r@[i])@.id == k,
    {
        let s = Ghost(self.records());
        proof {
            lemma_records_by_id_len(s@);
            assert forall|i: int| 0 <= i < self.kegs@.len() implies self@.kegs.contains_key((#[trigger] self.kegs@[i])@.id)
                && self@.kegs[self.kegs@[i]@.id] == self.kegs@[i]@ by {
                assert(s@[i] == self.kegs@[i]@);
                lemma_records_by_id_at(s@, i);
            }
            assert forall|i: int, j: int| 0 <= i < j < self.kegs@.len() implies self.kegs@[i]@.id != self.kegs@[j]@.id by {
                assert(s@[i] == self.kegs@[i]@);
                assert(s@[j] == self.kegs@[j]@);
            }
            assert forall|k: u32| self@.kegs.contains_key(k) implies exists|i: int| 0 <= i < self.kegs@.len() && (#[trigger] self.kegs@[i])@.id == k by {
                lemma_records_by_id_dom(s@, k);
                let i = choose|i: int| 0 <= i < s@.len() && s@[i].id == k;
                assert(s@[i] == self.kegs@[i]@);
            }
        }
        &self.kegs
    }
}

} // verus!
