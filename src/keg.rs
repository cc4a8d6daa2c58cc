use vstd::prelude::*;

verus! {

/// What a keg record holds, as mathematical values.
pub struct KegView {
    pub id: u32,
    pub beer_type: Seq<char>,
    pub size: i64,
    pub current_volume: i64,
    pub location: Seq<char>,
    pub last_updated: u64,
}

impl KegView {
    /// The record as it is right after creation: full, stamped with `now`.
    pub open spec fn created(
        id: u32,
        beer_type: Seq<char>,
        size: i64,
        location: Seq<char>,
        now: u64,
    ) -> KegView {
        KegView { id, beer_type, size, current_volume: size, location, last_updated: now }
    }

    /// The record with its fill level set to `volume` and stamped with `now`.
    pub open spec fn refilled(self, volume: i64, now: u64) -> KegView {
        KegView { current_volume: volume, last_updated: now, ..self }
    }
}

/// One keg of the inventory. Only the store creates records and changes them.
pub struct Keg {
    id: u32,
    beer_type: String,
    size: i64,
    current_volume: i64,
    location: String,
    last_updated: u64,
}

impl View for Keg {
    type V = KegView;

    closed spec fn view(&self) -> KegView {
        KegView {
            id: self.id,
            beer_type: self.beer_type@,
            size: self.size,
            current_volume: self.current_volume,
            location: self.location@,
            last_updated: self.last_updated,
        }
    }
}

impl Keg {
    pub(crate) fn new(id: u32, beer_type: String, size: i64, location: String, now: u64) -> (r: Keg)
        ensures
            r@ == KegView::created(id, beer_type@, size, location@, now),
    {
        Keg { id, beer_type, size, current_volume: size, location, last_updated: now }
    }

    pub(crate) fn set_volume(&mut self, volume: i64, now: u64)
        ensures
            final(self)@ == old(self)@.refilled(volume, now),
    {
        self.current_volume = volume;
        self.last_updated = now;
    }

    /// The identifier the store gave this keg.
    pub fn id(&self) -> (r: u32)
        ensures
            r == self@.id,
    {
        self.id
    }

    /// What the keg holds.
    pub fn beer_type(&self) -> (r: &str)
        ensures
            r@ == self@.beer_type,
    {
        self.beer_type.as_str()
    }

    /// The keg's capacity.
    pub fn size(&self) -> (r: i64)
        ensures
            r == self@.size,
    {
        self.size
    }

    /// How much the keg holds now.
    pub fn current_volume(&self) -> (r: i64)
        ensures
            r == self@.current_volume,
    {
        self.current_volume
    }

    /// Where the keg stands.
    pub fn location(&self) -> (r: &str)
        ensures
            r@ == self@.location,
    {
        self.location.as_str()
    }

    /// When the keg was created or last had its fill level set.
    pub fn last_updated(&self) -> (r: u64)
        ensures
            r == self@.last_updated,
    {
        self.last_updated
    }
}

} // verus!
