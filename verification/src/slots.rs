use vstd::prelude::*;

use crate::abi::CaliberStatus;
use crate::error::ResourceHandle;

verus! {

/// One external resource id: the registry handle behind it, the generation
/// callers must name, and whether the id currently owns a resource.
#[derive(Clone, Copy, Debug, PartialEq, Eq, Structural)]
pub struct ResourceSlot {
    pub resource_id: u64,
    pub handle: ResourceHandle,
    pub generation: u64,
    pub live: bool,
}

/// Whether the ids of `s` are pairwise distinct.
pub open spec fn distinct_ids(s: Seq<ResourceSlot>) -> bool {
    forall|i: int, j: int|
        0 <= i < s.len() && 0 <= j < s.len() && i != j ==> #[trigger] s[i].resource_id
            != #[trigger] s[j].resource_id
}

/// Whether some entry of `s` has id `id`.
pub open spec fn has_id(s: Seq<ResourceSlot>, id: u64) -> bool {
    exists|i: int| 0 <= i < s.len() && (#[trigger] s[i]).resource_id == id
}

/// The entry of `s` with id `id`, if any.
pub open spec fn entry_for(s: Seq<ResourceSlot>, id: u64) -> Option<ResourceSlot> {
    if has_id(s, id) {
        Some(s[choose|i: int| 0 <= i < s.len() && (#[trigger] s[i]).resource_id == id])
    } else {
        None
    }
}

/// The entries `s` after recording `slot`: the entry with its id replaced in
/// place, or `slot` appended when no entry has its id.
pub open spec fn recorded(s: Seq<ResourceSlot>, slot: ResourceSlot) -> Seq<ResourceSlot> {
    if has_id(s, slot.resource_id) {
        s.update(
            choose|i: int| 0 <= i < s.len() && (#[trigger] s[i]).resource_id == slot.resource_id,
            slot,
        )
    } else {
        s.push(slot)
    }
}

/// The position of the first released entry of `s`, or -1 when every entry
/// is live.
pub open spec fn first_free(s: Seq<ResourceSlot>) -> int
    decreases s.len(),
{
    if s.len() == 0 {
        -1
    } else {
        let f = first_free(s.drop_last());
        if f >= 0 {
            f
        } else if !s.last().live {
            s.len() - 1
        } else {
            -1
        }
    }
}

/// `first_free` is -1 or the position of a released entry with only live
/// entries before it; -1 means every entry is live.
pub proof fn lemma_first_free(s: Seq<ResourceSlot>)
    ensures
        -1 <= first_free(s) < s.len(),
        first_free(s) >= 0 ==> !s[first_free(s)].live,
        first_free(s) >= 0 ==> forall|j: int| 0 <= j < first_free(s) ==> (#[trigger] s[j]).live,
        first_free(s) == -1 ==> forall|j: int| 0 <= j < s.len() ==> (#[trigger] s[j]).live,
    decreases s.len(),
{
    if s.len() > 0 {
        lemma_first_free(s.drop_last());
        assert forall|j: int| 0 <= j < s.len() - 1 implies s[j] == s.drop_last()[j] by {}
    }
}

/// A released entry with only live entries before it is the first free one.
pub proof fn lemma_first_free_prefix(s: Seq<ResourceSlot>, i: int)
    requires
        0 <= i < s.len(),
        !s[i].live,
        forall|j: int| 0 <= j < i ==> (#[trigger] s[j]).live,
    ensures
        first_free(s) == i,
    decreases s.len(),
{
    lemma_first_free(s);
    if first_free(s) >= 0 && first_free(s) != i {
        if first_free(s) < i {
            assert(s[first_free(s)].live);
        } else {
            assert(s[i].live);
        }
    }
    if first_free(s) == -1 {
        assert(s[i].live);
    }
}

/// With distinct ids, the entry for an entry's id is that entry.
pub proof fn lemma_entry_at(s: Seq<ResourceSlot>, i: int)
    requires
        distinct_ids(s),
        0 <= i < s.len(),
    ensures
        entry_for(s, s[i].resource_id) == Some(s[i]),
{
    let id = s[i].resource_id;
    assert(has_id(s, id));
    let j = choose|j: int| 0 <= j < s.len() && (#[trigger] s[j]).resource_id == id;
    assert(i == j);
}

/// What reserving an id gives for a table of entries `s`, bound `max` and
/// next fresh id `next_id`: the first released entry with its next
/// generation, else a fresh id with generation one while the table has room.
pub open spec fn reserve_outcome(s: Seq<ResourceSlot>, max: nat, next_id: u64) -> Result<
    (u64, u64),
    CaliberStatus,
> {
    if first_free(s) >= 0 {
        let e = s[first_free(s)];
        if e.generation == u64::MAX {
            Err(CaliberStatus::Internal)
        } else {
            Ok((e.resource_id, (e.generation + 1) as u64))
        }
    } else if s.len() >= max {
        Err(CaliberStatus::QueueFull)
    } else if next_id == u64::MAX {
        Err(CaliberStatus::Internal)
    } else {
        Ok((next_id, 1))
    }
}

/// Bounded external resource-id bookkeeping. Released ids stay as entries
/// so that a later publication reuses their slot with a new generation
/// instead of growing the table.
#[derive(Debug)]
pub struct ResourceSlots {
    entries: Vec<ResourceSlot>,
    max_entries: usize,
    next_id: u64,
}

impl View for ResourceSlots {
    /// The entries, in the order their ids were first issued.
    type V = Seq<ResourceSlot>;

    closed spec fn view(&self) -> Seq<ResourceSlot> {
        self.entries@
    }
}

impl ResourceSlots {
    /// The table's invariant: ids are distinct, below the next id, and the
    /// table is within its bound.
    pub closed spec fn wf(&self) -> bool {
        &&& distinct_ids(self.entries@)
        &&& self.entries@.len() <= self.max_entries
        &&& self.next_id >= 1
        &&& forall|i: int| 0 <= i < self.entries@.len() ==> (#[trigger] self.entries@[i]).resource_id
            < self.next_id
    }

    /// The maximum number of entries.
    pub closed spec fn spec_max_entries(&self) -> nat {
        self.max_entries as nat
    }

    /// The id the next new entry will receive.
    pub closed spec fn spec_next_id(&self) -> u64 {
        self.next_id
    }

    /// Creates an empty table of at most `max_entries` entries, reserving its
    /// storage up front.
    pub fn new(max_entries: usize) -> (r: Result<Self, CaliberStatus>)
        ensures
            r matches Ok(s) ==> s.wf() && s@ == Seq::<ResourceSlot>::empty() && s.spec_max_entries()
                == max_entries && s.spec_next_id() == 1,
            r is Err ==> r == Err::<Self, CaliberStatus>(CaliberStatus::Internal),
    {
        let mut entries: Vec<ResourceSlot> = Vec::new();
        if entries.try_reserve(max_entries).is_err() {
            return Err(CaliberStatus::Internal);
        }
        Ok(ResourceSlots { entries, max_entries, next_id: 1 })
    }

    /// Chooses the id and generation for the next publication without
    /// recording it: the first released entry is reused with its next
    /// generation; otherwise a fresh id with generation one is issued while
    /// the table has room.
    pub fn reserve_slot(&mut self) -> (r: Result<(u64, u64), CaliberStatus>)
        requires
            old(self).wf(),
        ensures
            final(self).wf(),
            final(self)@ == old(self)@,
            final(self).spec_max_entries() == old(self).spec_max_entries(),
            r == reserve_outcome(old(self)@, old(self).spec_max_entries(), old(self).spec_next_id()),
            final(self).spec_next_id() == if first_free(old(self)@) == -1 && old(self)@.len()
                < old(self).spec_max_entries() && old(self).spec_next_id() < u64::MAX {
                (old(self).spec_next_id() + 1) as u64
            } else {
                old(self).spec_next_id()
            },
    {
        let mut i: usize = 0;
        while i < self.entries.len()
            invariant
                i <= self.entries@.len(),
                old(self).wf(),
                self.entries@ == old(self).entries@,
                self.max_entries == old(self).max_entries,
                self.next_id == old(self).next_id,
                forall|j: int| 0 <= j < i ==> (#[trigger] self.entries@[j]).live,
            decreases self.entries@.len() - i,
        {
            let entry = self.entries[i];
            if !entry.live {
                proof {
                    lemma_first_free_prefix(self.entries@, i as int);
                }
                let generation = match entry.generation.checked_add(1) {
                    Some(g) => g,
                    None => {
                        return Err(CaliberStatus::Internal);
                    },
                };
                return Ok((entry.resource_id, generation));
            }
            i = i + 1;
        }
        proof {
            lemma_first_free(self.entries@);
            if first_free(self.entries@) >= 0 {
                assert(self.entries@[first_free(self.entries@)].live);
            }
        }
        if self.entries.len() >= self.max_entries {
            return Err(CaliberStatus::QueueFull);
        }
        let id = self.next_id;
        self.next_id = match self.next_id.checked_add(1) {
            Some(next) => next,
            None => {
                return Err(CaliberStatus::Internal);
            },
        };
        Ok((id, 1))
    }

    /// Looks up the entry for `resource_id`.
    pub fn get(&self, resource_id: u64) -> (r: Option<ResourceSlot>)
        requires
            self.wf(),
        ensures
            r == entry_for(self@, resource_id),
    {
        let mut i: usize = 0;
        while i < self.entries.len()
            invariant
                self.wf(),
                i <= self.entries@.len(),
                forall|j: int| 0 <= j < i ==> (#[trigger] self.entries@[j]).resource_id != resource_id,
            decreases self.entries@.len() - i,
        {
            if self.entries[i].resource_id == resource_id {
                proof {
                    lemma_entry_at(self.entries@, i as int);
                }
                return Some(self.entries[i]);
            }
            i = i + 1;
        }
        proof {
            assert(!has_id(self.entries@, resource_id));
        }
        None
    }

    /// Records `slot` under its id: an existing entry with that id is
    /// overwritten in place, otherwise the entry is appended.
    pub fn record(&mut self, slot: ResourceSlot)
        requires
            old(self).wf(),
            has_id(old(self)@, slot.resource_id) || (old(self)@.len() < old(self).spec_max_entries()
                && slot.resource_id < old(self).spec_next_id()),
        ensures
            final(self).wf(),
            final(self).spec_max_entries() == old(self).spec_max_entries(),
            final(self).spec_next_id() == old(self).spec_next_id(),
            entry_for(final(self)@, slot.resource_id) == Some(slot),
            forall|id: u64| id != slot.resource_id ==> entry_for(final(self)@, id) == entry_for(
                old(self)@,
                id,
            ),
            has_id(old(self)@, slot.resource_id) ==> final(self)@.len() == old(self)@.len(),
            final(self)@ == recorded(old(self)@, slot),
    {
        let mut i: usize = 0;
        while i < self.entries.len()
            invariant
                old(self).wf(),
                self.entries@ == old(self).entries@,
                self.max_entries == old(self).max_entries,
                self.next_id == old(self).next_id,
                i <= self.entries@.len(),
                forall|j: int| 0 <= j < i ==> (#[trigger] self.entries@[j]).resource_id
                    != slot.resource_id,
            decreases self.entries@.len() - i,
        {
            if self.entries[i].resource_id == slot.resource_id {
                let ghost before = self.entries@;
                self.entries.set(i, slot);
                proof {
                    let after = self.entries@;
                    assert(after == before.update(i as int, slot));
                    assert(has_id(before, slot.resource_id));
                    let c = choose|c: int|
                        0 <= c < before.len() && (#[trigger] before[c]).resource_id == slot.resource_id;
                    assert(c == i);
                    assert(distinct_ids(after));
                    lemma_entry_at(after, i as int);
                    assert forall|id: u64| id != slot.resource_id implies entry_for(after, id)
                        == entry_for(before, id) by {
                        if has_id(before, id) {
                            let k = choose|k: int| 0 <= k < before.len() && (#[trigger] before[k]).resource_id == id;
                            lemma_entry_at(before, k);
                            assert(after[k] == before[k]);
                            lemma_entry_at(after, k);
                        } else {
                            if has_id(after, id) {
                                let k = choose|k: int| 0 <= k < after.len() && (#[trigger] after[k]).resource_id == id;
                                assert(before[k].resource_id == id);
                            }
                        }
                    }
                }
                return;
            }
            i = i + 1;
        }
        let ghost before = self.entries@;
        proof {
            assert(!has_id(before, slot.resource_id));
        }
        self.entries.push(slot);
        proof {
            let after = self.entries@;
            assert(after == before.push(slot));
            assert(distinct_ids(after));
            lemma_entry_at(after, before.len() as int);
            assert forall|id: u64| id != slot.resource_id implies entry_for(after, id) == entry_for(
                before,
                id,
            ) by {
                if has_id(before, id) {
                    let k = choose|k: int| 0 <= k < before.len() && (#[trigger] before[k]).resource_id == id;
                    lemma_entry_at(before, k);
                    assert(after[k] == before[k]);
                    lemma_entry_at(after, k);
                } else {
                    if has_id(after, id) {
                        let k = choose|k: int| 0 <= k < after.len() && (#[trigger] after[k]).resource_id == id;
                        assert(k < before.len());
                        assert(before[k].resource_id == id);
                    }
                }
            }
        }
    }
}

/// An id that is reused receives the next generation of its released entry,
/// so a pair issued before the release cannot select the new resource; an
/// id that is not reused is one no entry has.
pub proof fn law_reused_id_gets_new_generation(slots: ResourceSlots, resource_id: u64, generation: u64)
    requires
        slots.wf(),
        reserve_outcome(slots@, slots.spec_max_entries(), slots.spec_next_id()) == Ok::<
            (u64, u64),
            CaliberStatus,
        >((resource_id, generation)),
    ensures
        match entry_for(slots@, resource_id) {
            Some(e) => !e.live && generation == e.generation + 1,
            None => generation == 1,
        },
{
    let s = slots@;
    lemma_first_free(s);
    let f = first_free(s);
    if f >= 0 {
        lemma_entry_at(s, f);
    } else {
        if has_id(s, resource_id) {
            let k = choose|i: int| 0 <= i < s.len() && (#[trigger] s[i]).resource_id == resource_id;
            assert(s[k].resource_id < slots.spec_next_id());
        }
    }
}

} // verus!
