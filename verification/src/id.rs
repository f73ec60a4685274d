//! Unique Id generation.
use vstd::prelude::*;

verus! {

/// The counter from which all ids of one simulation are drawn.
///
/// It holds the last id that was handed out; `0` means none yet.
pub struct IdGenerator {
    pub pre_next_global_id: u64,
}

/// A unique Id within a simulation. Ids are never zero.
#[derive(Clone, Copy, PartialEq, Eq, Structural, Debug, Hash, PartialOrd, Ord)]
pub struct Id {
    pub value: u64,
}

/// A non-empty range of consecutive [Id]s, `first..=last`.
pub struct IdRange {
    pub first: u64,
    pub last: u64,
}

/// The id has been handed out by a generator in state `g` or earlier.
pub open spec fn issued_by(id: Id, g: IdGenerator) -> bool {
    1 <= id.value <= g.pre_next_global_id
}

impl IdGenerator {
    /// A generator that has not handed out any id.
    pub fn new() -> (g: IdGenerator)
        ensures
            g.pre_next_global_id == 0,
    {
        IdGenerator { pre_next_global_id: 0 }
    }
}

impl Id {
    /// Generate a new unique id: the one after the last id handed out.
    pub fn new(g: &mut IdGenerator) -> (id: Id)
        requires
            old(g).pre_next_global_id < u64::MAX,
        ensures
            id.value == old(g).pre_next_global_id + 1,
            final(g).pre_next_global_id == id.value,
            !issued_by(id, *old(g)),
            issued_by(id, *final(g)),
    {
        let id = g.pre_next_global_id + 1;
        g.pre_next_global_id = id;
        Id { value: id }
    }

    /// This id as a value to record in traces.
    pub fn tv(&self) -> (v: u64)
        ensures
            v == self.value,
    {
        self.value
    }

    /// The number behind this id.
    pub fn get(&self) -> (v: u64)
        ensures
            v == self.value,
    {
        self.value
    }
}

impl IdRange {
    pub open spec fn wf(self) -> bool {
        &&& 1 <= self.first <= self.last
        &&& self.last - self.first < usize::MAX
    }

    /// Generate a new range of `len` ids, the `len` ids after the last id handed out.
    pub fn new(g: &mut IdGenerator, len: usize) -> (r: IdRange)
        requires
            len > 0,
            old(g).pre_next_global_id + len <= u64::MAX,
        ensures
            r.wf(),
            r.first == old(g).pre_next_global_id + 1,
            r.last == old(g).pre_next_global_id + len,
            r.last - r.first + 1 == len,
            final(g).pre_next_global_id == r.last,
    {
        let last = g.pre_next_global_id + len as u64;
        g.pre_next_global_id = last;
        let first = last - (len as u64 - 1);
        IdRange { first, last }
    }

    /// The number of ids in the range.
    pub fn len(&self) -> (n: usize)
        requires
            self.wf(),
        ensures
            n == self.last - self.first + 1,
    {
        (self.last - self.first + 1) as usize
    }

    /// The id at position `index`, counted from the first id of the range.
    pub fn get(&self, index: usize) -> (id: Id)
        requires
            self.first + index <= u64::MAX,
        ensures
            id.value == self.first + index,
    {
        Id { value: self.first + index as u64 }
    }

    /// The id is one of the ids of the range.
    pub open spec fn contains(self, id: Id) -> bool {
        self.first <= id.value <= self.last
    }
}

/// Every id that a generator hands out is different from every id it handed
/// out before, and from every id of every range it handed out before.
pub proof fn lemma_later_ids_are_fresh(g1: IdGenerator, g2: IdGenerator, earlier: Id, later: Id)
    requires
        issued_by(earlier, g1),
        g1.pre_next_global_id <= g2.pre_next_global_id,
        !issued_by(later, g2),
        later.value >= 1,
    ensures
        earlier != later,
{
}

/// A new id lies above every id handed out before it, so it is fresh; and
/// it is the next number, so two runs that make the same calls get the same
/// ids.
pub proof fn lemma_new_id_is_above_every_issued_id(g: IdGenerator, earlier: Id)
    requires
        issued_by(earlier, g),
        g.pre_next_global_id < u64::MAX,
    ensures
        earlier.value < g.pre_next_global_id + 1,
        !issued_by(Id { value: (g.pre_next_global_id + 1) as u64 }, g),
{
}

/// A range of `len` ids holds exactly the `len` ids after the last one
/// handed out, one apart, none handed out before it; every later id lies
/// above the whole range; a later position holds a greater id.
pub proof fn lemma_range_ids_are_fresh_and_consecutive(
    g0: IdGenerator,
    g1: IdGenerator,
    r: IdRange,
    len: nat,
    i: int,
    j: int,
    earlier: Id,
    later: Id,
)
    requires
        len > 0,
        r.first == g0.pre_next_global_id + 1,
        r.last == g0.pre_next_global_id + len,
        g1.pre_next_global_id == r.last,
        0 <= i < len,
        issued_by(earlier, g0),
        !issued_by(later, g1),
        later.value >= 1,
    ensures
        r.last - r.first + 1 == len,
        r.contains(Id { value: (r.first + i) as u64 }),
        issued_by(Id { value: (r.first + i) as u64 }, g1),
        !issued_by(Id { value: (r.first + i) as u64 }, g0),
        earlier.value != r.first + i,
        later.value > r.last,
        i < j < len ==> r.first + i < r.first + j && r.contains(Id { value: (r.first + j) as u64 }),
{
}

} // verus!
