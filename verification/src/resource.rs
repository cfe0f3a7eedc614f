use vstd::prelude::*;

use crate::bytes::copy_bytes;
use crate::error::{Error, ResourceHandle, Revision, DEFAULT_MAX_RESOURCES, DEFAULT_MAX_RESOURCE_BYTES};

verus! {

/// An immutable resource view: the bytes a handle resolved to when it was
/// looked up. It stays valid after the registry releases or replaces the
/// entry.
#[derive(Debug, PartialEq, Eq)]
pub struct ResourceView {
    handle: ResourceHandle,
    bytes: Vec<u8>,
}

impl View for ResourceView {
    type V = (ResourceHandle, Seq<u8>);

    closed spec fn view(&self) -> (ResourceHandle, Seq<u8>) {
        (self.handle, self.bytes@)
    }
}

impl ResourceView {
    /// Returns the handle associated with this view.
    pub fn handle(&self) -> (h: ResourceHandle)
        ensures
            h == self@.0,
    {
        self.handle
    }

    /// Returns the immutable resource bytes.
    pub fn bytes(&self) -> (b: &[u8])
        ensures
            b@ == self@.1,
    {
        self.bytes.as_slice()
    }
}

impl Clone for ResourceView {
    fn clone(&self) -> (c: Self)
        ensures
            c@ == self@,
    {
        ResourceView { handle: self.handle, bytes: copy_bytes(self.bytes.as_slice()) }
    }
}

#[derive(Debug)]
struct ResourceSlot {
    generation: Revision,
    bytes: Option<Vec<u8>>,
}

/// The model of one registry slot: its current generation and, while the
/// registry owns a resource there, the resource bytes.
pub type SlotView = (Revision, Option<Seq<u8>>);

/// The number of slots of `slots` that hold a live resource.
pub open spec fn live_count(slots: Seq<SlotView>) -> nat
    decreases slots.len(),
{
    if slots.len() == 0 {
        0
    } else {
        live_count(slots.drop_last()) + if slots.last().1 is Some {
            1nat
        } else {
            0nat
        }
    }
}

/// Whether some slot is free.
pub open spec fn has_free_slot(slots: Seq<SlotView>) -> bool {
    exists|i: int| 0 <= i < slots.len() && (#[trigger] slots[i]).1 is None
}

/// The slot that a resource id names: ids are one-based slot positions.
pub open spec fn slot_of(slots: Seq<SlotView>, id: u64) -> Option<SlotView> {
    if 1 <= id && id <= slots.len() {
        Some(slots[id - 1])
    } else {
        None
    }
}

/// What looking up `handle` in `slots` gives: an unknown id, a stale
/// generation or free slot, or the live bytes.
pub open spec fn lookup(slots: Seq<SlotView>, handle: ResourceHandle) -> Result<Seq<u8>, Error> {
    match slot_of(slots, handle.id) {
        None => Err(Error::UnknownResource(handle)),
        Some(slot) => if slot.0 != handle.generation {
            Err(Error::StaleResource(handle))
        } else {
            match slot.1 {
                Some(bytes) => Ok(bytes),
                None => Err(Error::StaleResource(handle)),
            }
        },
    }
}

/// No more resources are live than there are slots, and every slot is live
/// when none is free.
pub proof fn lemma_live_count_bound(slots: Seq<SlotView>)
    ensures
        live_count(slots) <= slots.len(),
        !has_free_slot(slots) ==> live_count(slots) == slots.len(),
    decreases slots.len(),
{
    if slots.len() > 0 {
        lemma_live_count_bound(slots.drop_last());
        if !has_free_slot(slots) {
            assert forall|i: int| 0 <= i < slots.drop_last().len() implies (
            #[trigger] slots.drop_last()[i]).1 is Some by {
                assert(slots[i] == slots.drop_last()[i]);
            }
            assert(!has_free_slot(slots.drop_last()));
            assert(slots[slots.len() - 1].1 is Some);
        }
    }
}

/// Setting one slot changes the live count by what the slot held before and
/// after.
pub proof fn lemma_live_count_update(slots: Seq<SlotView>, i: int, s: SlotView)
    requires
        0 <= i < slots.len(),
    ensures
        live_count(slots.update(i, s)) + (if slots[i].1 is Some {
            1nat
        } else {
            0nat
        }) == live_count(slots) + (if s.1 is Some {
            1nat
        } else {
            0nat
        }),
    decreases slots.len(),
{
    let u = slots.update(i, s);
    if i == slots.len() - 1 {
        assert(u.drop_last() =~= slots.drop_last());
    } else {
        lemma_live_count_update(slots.drop_last(), i, s);
        assert(u.drop_last() =~= slots.drop_last().update(i, s));
    }
}

/// Appending a slot adds one to the live count when the slot is live.
pub proof fn lemma_live_count_push(slots: Seq<SlotView>, s: SlotView)
    ensures
        live_count(slots.push(s)) == live_count(slots) + (if s.1 is Some {
            1nat
        } else {
            0nat
        }),
{
    assert(slots.push(s).drop_last() =~= slots);
}

/// Owns immutable bulk resources and validates generational handles.
///
/// Releasing a handle removes the registry's ownership but does not
/// invalidate already issued [`ResourceView`] values. New lookups with the
/// released handle fail.
///
/// Ids are handed out consecutively from one and a slot, once made, is never
/// removed, so the slots are kept by id in a vector: slot `i` belongs to id
/// `i + 1`. Which free slot an insert reuses is left open by the contract.
#[derive(Debug)]
pub struct ResourceRegistry {
    slots: Vec<ResourceSlot>,
    max_resources: usize,
    max_resource_bytes: usize,
}

impl View for ResourceRegistry {
    /// Slot `i` is the slot of resource id `i + 1`.
    type V = Seq<SlotView>;

    closed spec fn view(&self) -> Seq<SlotView> {
        self.slots@.map_values(|s: ResourceSlot| (s.generation, match s.bytes {
            Some(b) => Some(b@),
            None => None,
        }))
    }
}

impl ResourceRegistry {
    /// The registry's invariant: both limits are non-zero, and no more slots
    /// exist than resources may be live at once.
    pub closed spec fn wf(&self) -> bool {
        &&& self.max_resources > 0
        &&& self.max_resource_bytes > 0
        &&& self.slots@.len() <= self.max_resources
    }

    /// The maximum number of live resources.
    pub closed spec fn spec_max_resources(&self) -> nat {
        self.max_resources as nat
    }

    /// The maximum size of one resource.
    pub closed spec fn spec_max_resource_bytes(&self) -> nat {
        self.max_resource_bytes as nat
    }

    /// What a well-formed registry guarantees: no more slots, and so no more
    /// live resources, than its resource limit.
    pub proof fn lemma_bounds(&self)
        requires
            self.wf(),
        ensures
            self@.len() <= self.spec_max_resources(),
            live_count(self@) <= self.spec_max_resources(),
            self.spec_max_resources() > 0,
            self.spec_max_resource_bytes() > 0,
    {
        lemma_live_count_bound(self@);
    }

    /// Creates an empty registry with count and per-resource byte limits.
    pub fn new(max_resources: usize, max_resource_bytes: usize) -> (r: Result<Self, Error>)
        ensures
            max_resources == 0 ==> r == Err::<Self, Error>(Error::InvalidLimit { name: "resource count" }),
            max_resources > 0 && max_resource_bytes == 0 ==> r == Err::<Self, Error>(
                Error::InvalidLimit { name: "resource bytes" },
            ),
            max_resources > 0 && max_resource_bytes > 0 ==> (r matches Ok(reg) && reg.wf()
                && reg@ == Seq::<SlotView>::empty() && reg.spec_max_resources() == max_resources
                && reg.spec_max_resource_bytes() == max_resource_bytes),
    {
        if max_resources == 0 {
            return Err(Error::InvalidLimit { name: "resource count" });
        }
        if max_resource_bytes == 0 {
            return Err(Error::InvalidLimit { name: "resource bytes" });
        }
        let reg = ResourceRegistry { slots: Vec::new(), max_resources, max_resource_bytes };
        proof {
            assert(reg@ =~= Seq::<SlotView>::empty());
        }
        Ok(reg)
    }

    /// Creates a registry using conservative defaults.
    pub fn with_defaults() -> (reg: Self)
        ensures
            reg.wf(),
            reg@ == Seq::<SlotView>::empty(),
            reg.spec_max_resources() == DEFAULT_MAX_RESOURCES,
            reg.spec_max_resource_bytes() == DEFAULT_MAX_RESOURCE_BYTES,
    {
        match Self::new(DEFAULT_MAX_RESOURCES, DEFAULT_MAX_RESOURCE_BYTES) {
            Ok(reg) => reg,
            Err(_) => {
                proof {
                    assert(false);
                }
                ResourceRegistry {
                    slots: Vec::new(),
                    max_resources: DEFAULT_MAX_RESOURCES,
                    max_resource_bytes: DEFAULT_MAX_RESOURCE_BYTES,
                }
            },
        }
    }

    /// Returns the number of live registry-owned resources.
    pub fn len(&self) -> (n: usize)
        ensures
            n == live_count(self@),
    {
        let mut count: usize = 0;
        let mut i: usize = 0;
        while i < self.slots.len()
            invariant
                i <= self.slots@.len(),
                count == live_count(self@.subrange(0, i as int)),
                count <= i,
            decreases self.slots@.len() - i,
        {
            proof {
                assert(self@.subrange(0, i + 1).drop_last() =~= self@.subrange(0, i as int));
            }
            if self.slots[i].bytes.is_some() {
                count = count + 1;
            }
            i = i + 1;
        }
        proof {
            assert(self@.subrange(0, i as int) =~= self@);
        }
        count
    }

    /// Returns whether no registry-owned resources are live.
    pub fn is_empty(&self) -> (b: bool)
        ensures
            b == (live_count(self@) == 0),
    {
        self.len() == 0
    }

    /// Inserts an immutable copy and returns its generation-checked handle.
    ///
    /// The free slot of the lowest id is reused with its current generation;
    /// otherwise a new slot with generation one is appended.
    pub fn insert(&mut self, bytes: &[u8]) -> (r: Result<ResourceHandle, Error>)
        requires
            old(self).wf(),
        ensures
            final(self).wf(),
            generations_advance(old(self)@, final(self)@),
            final(self).spec_max_resources() == old(self).spec_max_resources(),
            final(self).spec_max_resource_bytes() == old(self).spec_max_resource_bytes(),
            bytes@.len() > old(self).spec_max_resource_bytes() ==> r == Err::<ResourceHandle, Error>(
                Error::TooLarge {
                    kind: "resource",
                    actual: bytes@.len() as usize,
                    maximum: old(self).spec_max_resource_bytes() as usize,
                },
            ),
            bytes@.len() <= old(self).spec_max_resource_bytes() && live_count(old(self)@)
                == old(self).spec_max_resources() ==> r == Err::<ResourceHandle, Error>(
                Error::Full { kind: "resource registry" },
            ),
            bytes@.len() <= old(self).spec_max_resource_bytes() && live_count(old(self)@)
                < old(self).spec_max_resources() && has_free_slot(old(self)@) ==> (r matches Ok(h)
                && slot_of(old(self)@, h.id) == Some((h.generation, None::<Seq<u8>>))
                && (forall|j: int| 0 <= j < h.id - 1 ==> (#[trigger] old(self)@[j]).1 is Some)
                && final(self)@ == old(self)@.update(h.id - 1, (h.generation, Some(bytes@)))),
            bytes@.len() <= old(self).spec_max_resource_bytes() && live_count(old(self)@)
                < old(self).spec_max_resources() && !has_free_slot(old(self)@) ==> (r matches Ok(h)
                && h.id == old(self)@.len() + 1 && h.generation == 1 && final(self)@ == old(
                self,
            )@.push((1, Some(bytes@)))) || r == Err::<ResourceHandle, Error>(
                Error::AllocationFailed { kind: "resource registry" },
            ),
            r is Ok ==> live_count(final(self)@) == live_count(old(self)@) + 1,
            r matches Ok(h) ==> inserted(old(self)@, final(self)@, h, bytes@),
            r is Err ==> final(self)@ == old(self)@,
    {
        if bytes.len() > self.max_resource_bytes {
            return Err(
                Error::TooLarge {
                    kind: "resource",
                    actual: bytes.len(),
                    maximum: self.max_resource_bytes,
                },
            );
        }
        if self.len() == self.max_resources {
            return Err(Error::Full { kind: "resource registry" });
        }
        proof {
            lemma_live_count_bound(self@);
        }
        let ghost old_view = self@;
        let mut i: usize = 0;
        while i < self.slots.len()
            invariant
                i <= self.slots@.len(),
                self@ == old_view,
                old_view == old(self)@,
                self.slots@.len() == old(self).slots@.len(),
                self.max_resources == old(self).max_resources,
                self.max_resource_bytes == old(self).max_resource_bytes,
                old(self).wf(),
                live_count(old_view) < self.max_resources,
                bytes@.len() <= self.max_resource_bytes,
                forall|j: int| 0 <= j < i ==> (#[trigger] self@[j]).1 is Some,
            decreases self.slots@.len() - i,
        {
            if self.slots[i].bytes.is_none() {
                let generation = self.slots[i].generation;
                let copy = copy_bytes(bytes);
                let ghost prev = self.slots@;
                let slot = ResourceSlot { generation, bytes: Some(copy) };
                self.slots.set(i, slot);
                proof {
                    assert(self@ =~= old_view.update(i as int, (generation, Some(bytes@)))) by {
                        assert(self.slots@ == prev.update(i as int, slot));
                    }
                    lemma_live_count_update(old_view, i as int, (generation, Some(bytes@)));
                }
                return Ok(ResourceHandle { id: (i + 1) as u64, generation });
            }
            i = i + 1;
        }
        proof {
            assert(!has_free_slot(old_view));
        }
        if self.slots.try_reserve(1).is_err() {
            return Err(Error::AllocationFailed { kind: "resource registry" });
        }
        let id = (self.slots.len() + 1) as u64;
        let copy = copy_bytes(bytes);
        let ghost prev = self.slots@;
        let slot = ResourceSlot { generation: 1, bytes: Some(copy) };
        self.slots.push(slot);
        proof {
            assert(self@ =~= old_view.push((1, Some(bytes@)))) by {
                assert(self.slots@ == prev.push(slot));
            }
            lemma_live_count_push(old_view, (1, Some(bytes@)));
        }
        Ok(ResourceHandle { id, generation: 1 })
    }

    /// Resolves a live handle to an immutable view.
    pub fn get(&self, handle: ResourceHandle) -> (r: Result<ResourceView, Error>)
        ensures
            match lookup(self@, handle) {
                Ok(bytes) => r matches Ok(view) && view@ == (handle, bytes),
                Err(e) => r == Err::<ResourceView, Error>(e),
            },
    {
        if handle.id == 0 || handle.id > self.slots.len() as u64 {
            return Err(Error::UnknownResource(handle));
        }
        let index = (handle.id - 1) as usize;
        let slot = &self.slots[index];
        if slot.generation != handle.generation {
            return Err(Error::StaleResource(handle));
        }
        match &slot.bytes {
            Some(bytes) => Ok(ResourceView { handle, bytes: copy_bytes(bytes.as_slice()) }),
            None => Err(Error::StaleResource(handle)),
        }
    }

    /// Releases the registry's ownership of a live handle and advances the
    /// slot's generation, so that the handle no longer resolves.
    ///
    /// When the generation cannot advance, the slot is still freed and the
    /// call reports [`Error::RevisionExhausted`].
    pub fn release(&mut self, handle: ResourceHandle) -> (r: Result<(), Error>)
        requires
            old(self).wf(),
        ensures
            final(self).wf(),
            generations_advance(old(self)@, final(self)@),
            final(self).spec_max_resources() == old(self).spec_max_resources(),
            final(self).spec_max_resource_bytes() == old(self).spec_max_resource_bytes(),
            lookup(old(self)@, handle) is Err ==> r == Err::<(), Error>(
                lookup(old(self)@, handle)->Err_0,
            ) && final(self)@ == old(self)@,
            lookup(old(self)@, handle) is Ok && handle.generation < u64::MAX ==> r == Ok::<(), Error>(())
                && final(self)@ == old(self)@.update(
                handle.id - 1,
                ((handle.generation + 1) as u64, None::<Seq<u8>>),
            ),
            lookup(old(self)@, handle) is Ok && handle.generation == u64::MAX ==> r == Err::<(), Error>(
                Error::RevisionExhausted,
            ) && final(self)@ == old(self)@.update(handle.id - 1, (handle.generation, None::<Seq<u8>>)),
            lookup(old(self)@, handle) is Ok ==> live_count(final(self)@) + 1 == live_count(
                old(self)@,
            ),
    {
        if handle.id == 0 || handle.id > self.slots.len() as u64 {
            return Err(Error::UnknownResource(handle));
        }
        let index = (handle.id - 1) as usize;
        let generation = self.slots[index].generation;
        if generation != handle.generation || self.slots[index].bytes.is_none() {
            return Err(Error::StaleResource(handle));
        }
        let ghost prev = self.slots@;
        let cleared = ResourceSlot { generation, bytes: None };
        self.slots.set(index, cleared);
        proof {
            assert(self.slots@ == prev.update(index as int, cleared));
            assert(self@ =~= old(self)@.update(index as int, (generation, None::<Seq<u8>>)));
            lemma_live_count_update(old(self)@, index as int, (generation, None::<Seq<u8>>));
        }
        let next = match generation.checked_add(1) {
            Some(next) => next,
            None => {
                return Err(Error::RevisionExhausted);
            },
        };
        let ghost mid = self.slots@;
        let advanced = ResourceSlot { generation: next, bytes: None };
        self.slots.set(index, advanced);
        proof {
            assert(self.slots@ == mid.update(index as int, advanced));
            assert(self@ =~= old(self)@.update(index as int, (next, None::<Seq<u8>>)));
            lemma_live_count_update(old(self)@, index as int, (next, None::<Seq<u8>>));
        }
        Ok(())
    }

    /// Replaces a live resource in place and advances its generation.
    ///
    /// Existing [`ResourceView`] values retain the old bytes. The returned
    /// handle is the only handle that resolves to the replacement.
    pub fn replace(&mut self, handle: ResourceHandle, bytes: &[u8]) -> (r: Result<
        ResourceHandle,
        Error,
    >)
        requires
            old(self).wf(),
        ensures
            final(self).wf(),
            generations_advance(old(self)@, final(self)@),
            final(self).spec_max_resources() == old(self).spec_max_resources(),
            final(self).spec_max_resource_bytes() == old(self).spec_max_resource_bytes(),
            bytes@.len() > old(self).spec_max_resource_bytes() ==> r == Err::<ResourceHandle, Error>(
                Error::TooLarge {
                    kind: "resource",
                    actual: bytes@.len() as usize,
                    maximum: old(self).spec_max_resource_bytes() as usize,
                },
            ),
            bytes@.len() <= old(self).spec_max_resource_bytes() && lookup(old(self)@, handle) is Err
                ==> r == Err::<ResourceHandle, Error>(lookup(old(self)@, handle)->Err_0),
            bytes@.len() <= old(self).spec_max_resource_bytes() && lookup(old(self)@, handle) is Ok
                && handle.generation == u64::MAX ==> r == Err::<ResourceHandle, Error>(
                Error::RevisionExhausted,
            ),
            bytes@.len() <= old(self).spec_max_resource_bytes() && lookup(old(self)@, handle) is Ok
                && handle.generation < u64::MAX ==> r == Ok::<ResourceHandle, Error>(
                ResourceHandle { id: handle.id, generation: (handle.generation + 1) as u64 },
            ) && final(self)@ == old(self)@.update(
                handle.id - 1,
                ((handle.generation + 1) as u64, Some(bytes@)),
            ),
            r is Ok ==> live_count(final(self)@) == live_count(old(self)@),
            r is Err ==> final(self)@ == old(self)@,
    {
        if bytes.len() > self.max_resource_bytes {
            return Err(
                Error::TooLarge {
                    kind: "resource",
                    actual: bytes.len(),
                    maximum: self.max_resource_bytes,
                },
            );
        }
        if handle.id == 0 || handle.id > self.slots.len() as u64 {
            return Err(Error::UnknownResource(handle));
        }
        let index = (handle.id - 1) as usize;
        let generation = self.slots[index].generation;
        if generation != handle.generation || self.slots[index].bytes.is_none() {
            return Err(Error::StaleResource(handle));
        }
        let next = match generation.checked_add(1) {
            Some(next) => next,
            None => {
                return Err(Error::RevisionExhausted);
            },
        };
        let copy = copy_bytes(bytes);
        let ghost prev = self.slots@;
        let replaced = ResourceSlot { generation: next, bytes: Some(copy) };
        self.slots.set(index, replaced);
        proof {
            assert(self.slots@ == prev.update(index as int, replaced));
            assert(self@ =~= old(self)@.update(index as int, (next, Some(bytes@))));
            lemma_live_count_update(old(self)@, index as int, (next, Some(bytes@)));
        }
        Ok(ResourceHandle { id: handle.id, generation: next })
    }
}

/// Releasing a resource retires its handle: whatever generation the slot
/// is left with, the released handle no longer resolves.
pub proof fn law_released_handle_is_stale(slots: Seq<SlotView>, handle: ResourceHandle, generation: u64)
    requires
        lookup(slots, handle) is Ok,
    ensures
        lookup(slots.update(handle.id - 1, (generation, None::<Seq<u8>>)), handle) is Err,
{
}

/// Replacing a resource retires the old handle and the successor handle
/// resolves to the new bytes.
pub proof fn law_replace_moves_to_successor(slots: Seq<SlotView>, handle: ResourceHandle, bytes: Seq<u8>)
    requires
        lookup(slots, handle) is Ok,
        handle.generation < u64::MAX,
    ensures
        ({
            let after = slots.update(
                handle.id - 1,
                ((handle.generation + 1) as u64, Some(bytes)),
            );
            &&& lookup(after, handle) is Err
            &&& lookup(after, ResourceHandle { id: handle.id, generation: (handle.generation + 1) as u64 })
                == Ok::<Seq<u8>, Error>(bytes)
        }),
{
}

/// A resource inserted into a fresh slot resolves, through the handle that
/// insertion returns, to the inserted bytes.
pub proof fn law_fresh_insert_resolves(slots: Seq<SlotView>, bytes: Seq<u8>)
    requires
        slots.len() < u64::MAX,
    ensures
        lookup(
            slots.push((1u64, Some(bytes))),
            ResourceHandle { id: (slots.len() + 1) as u64, generation: 1 },
        ) == Ok::<Seq<u8>, Error>(bytes),
{
}

/// A resource inserted into a free slot resolves, under that slot's
/// generation, to the inserted bytes.
pub proof fn law_reused_insert_resolves(slots: Seq<SlotView>, bytes: Seq<u8>, handle: ResourceHandle)
    requires
        slot_of(slots, handle.id) == Some((handle.generation, None::<Seq<u8>>)),
    ensures
        lookup(slots.update(handle.id - 1, (handle.generation, Some(bytes))), handle) == Ok::<
            Seq<u8>,
            Error,
        >(bytes),
{
}

/// Whether `after` keeps every slot of `before`, each at the same or a
/// later generation.
pub open spec fn generations_advance(before: Seq<SlotView>, after: Seq<SlotView>) -> bool {
    before.len() <= after.len() && forall|i: int|
        0 <= i < before.len() ==> before[i].0 <= #[trigger] after[i].0
}

/// Whether `handle` fits a registry whose slots are now `slots`, as every
/// handle it has issued does: its slot exists, and it names an older
/// generation of the slot or the current generation of a live slot.
pub open spec fn issued_consistent(slots: Seq<SlotView>, handle: ResourceHandle) -> bool {
    match slot_of(slots, handle.id) {
        Some(slot) => handle.generation < slot.0 || (handle.generation == slot.0 && slot.1 is Some),
        None => false,
    }
}

/// What a successful insert of `bytes` made of the slots: either a free slot
/// filled at its generation, or a new slot of generation one after the
/// others, named by `handle`.
pub open spec fn inserted(
    before: Seq<SlotView>,
    after: Seq<SlotView>,
    handle: ResourceHandle,
    bytes: Seq<u8>,
) -> bool {
    ||| slot_of(before, handle.id) == Some((handle.generation, None::<Seq<u8>>)) && after
        == before.update(handle.id - 1, (handle.generation, Some(bytes)))
    ||| handle.id == before.len() + 1 && handle.generation == 1 && after == before.push(
        (1u64, Some(bytes)),
    )
}

/// A handle that an insert issues differs from every handle the registry
/// issued before; it resolves to the inserted bytes, every earlier handle
/// resolves as it did, and all of them still fit the registry.
pub proof fn law_inserted_handle_is_new(
    before: Seq<SlotView>,
    after: Seq<SlotView>,
    handle: ResourceHandle,
    bytes: Seq<u8>,
    issued: Set<ResourceHandle>,
)
    requires
        inserted(before, after, handle, bytes),
        forall|h: ResourceHandle| issued.contains(h) ==> issued_consistent(before, h),
    ensures
        !issued.contains(handle),
        lookup(after, handle) == Ok::<Seq<u8>, Error>(bytes),
        issued_consistent(after, handle),
        forall|h: ResourceHandle|
            issued.contains(h) ==> lookup(after, h) == lookup(before, h) && issued_consistent(
                after,
                h,
            ),
{
    if issued.contains(handle) {
        assert(issued_consistent(before, handle));
    }
    assert forall|h: ResourceHandle| issued.contains(h) implies lookup(after, h) == lookup(
        before,
        h,
    ) && issued_consistent(after, h) by {
        assert(issued_consistent(before, h));
        if h.id == handle.id {
            assert(h.generation < handle.generation);
        }
    }
}

/// Releasing a live handle keeps every issued handle fitting the registry,
/// unless the generation cannot advance.
pub proof fn law_release_keeps_issued_consistent(
    before: Seq<SlotView>,
    handle: ResourceHandle,
    issued: Set<ResourceHandle>,
)
    requires
        lookup(before, handle) is Ok,
        handle.generation < u64::MAX,
        forall|h: ResourceHandle| issued.contains(h) ==> issued_consistent(before, h),
    ensures
        forall|h: ResourceHandle|
            issued.contains(h) ==> issued_consistent(
                before.update(handle.id - 1, ((handle.generation + 1) as u64, None::<Seq<u8>>)),
                h,
            ),
{
    assert forall|h: ResourceHandle| issued.contains(h) implies issued_consistent(
        before.update(handle.id - 1, ((handle.generation + 1) as u64, None::<Seq<u8>>)),
        h,
    ) by {
        assert(issued_consistent(before, h));
    }
}

/// Replacing a live resource issues a handle that differs from every handle
/// issued before, and keeps all of them fitting the registry.
pub proof fn law_replaced_handle_is_new(
    before: Seq<SlotView>,
    handle: ResourceHandle,
    bytes: Seq<u8>,
    issued: Set<ResourceHandle>,
)
    requires
        lookup(before, handle) is Ok,
        handle.generation < u64::MAX,
        forall|h: ResourceHandle| issued.contains(h) ==> issued_consistent(before, h),
    ensures
        ({
            let after = before.update(
                handle.id - 1,
                ((handle.generation + 1) as u64, Some(bytes)),
            );
            let successor = ResourceHandle {
                id: handle.id,
                generation: (handle.generation + 1) as u64,
            };
            &&& !issued.contains(successor)
            &&& issued_consistent(after, successor)
            &&& forall|h: ResourceHandle| issued.contains(h) ==> issued_consistent(after, h)
        }),
{
    let successor = ResourceHandle { id: handle.id, generation: (handle.generation + 1) as u64 };
    if issued.contains(successor) {
        assert(issued_consistent(before, successor));
    }
    let after = before.update(handle.id - 1, ((handle.generation + 1) as u64, Some(bytes)));
    assert forall|h: ResourceHandle| issued.contains(h) implies issued_consistent(after, h) by {
        assert(issued_consistent(before, h));
    }
}

/// Generations only advance, over any number of registry operations.
pub proof fn law_generations_advance_compose(a: Seq<SlotView>, b: Seq<SlotView>, c: Seq<SlotView>)
    requires
        generations_advance(a, b),
        generations_advance(b, c),
    ensures
        generations_advance(a, c),
{
    assert forall|i: int| 0 <= i < a.len() implies a[i].0 <= #[trigger] c[i].0 by {
        assert(a[i].0 <= b[i].0);
        assert(b[i].0 <= c[i].0);
    }
}

/// A handle older than its slot's current generation never resolves again,
/// however the registry changes afterwards: a reused slot cannot be reached
/// through a retired handle.
pub proof fn law_retired_handle_never_resolves(before: Seq<SlotView>, after: Seq<SlotView>, handle: ResourceHandle)
    requires
        generations_advance(before, after),
        slot_of(before, handle.id) matches Some(slot) && handle.generation < slot.0,
    ensures
        lookup(after, handle) is Err,
{
    assert(before[handle.id - 1].0 <= after[handle.id - 1].0);
}

/// Changing one slot leaves every handle of the other slots resolving as
/// before.
pub proof fn law_other_slots_unchanged(slots: Seq<SlotView>, index: int, slot: SlotView, handle: ResourceHandle)
    requires
        0 <= index < slots.len(),
        handle.id - 1 != index,
    ensures
        lookup(slots.update(index, slot), handle) == lookup(slots, handle),
{
}

} // verus!
