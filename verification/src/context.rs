use vstd::prelude::*;

use crate::abi::{
    configured_limits, map_core_error, nonzero_limits, spec_map_core_error, within_hard_limits,
    CaliberContextConfig, CaliberStatus, CaliberTelemetryInfo, Limits,
};
use crate::control::ControlQueue;
use crate::error::{Error, ResourceHandle, Revision};
use crate::resource::{has_free_slot, live_count, lookup, ResourceRegistry, ResourceView, SlotView};
use crate::slots::{entry_for, has_id, recorded, reserve_outcome, ResourceSlot, ResourceSlots};
use crate::state::{StatePublication, StatePublisher};
use crate::telemetry::LatestTelemetry;

verus! {

/// The host side of the C table: one bounded command queue, one state
/// publisher, one resource registry behind external id/generation pairs,
/// one telemetry slot and a wake sequence that changes on every event.
#[derive(Debug)]
pub struct CaliberContext {
    limits: Limits,
    control: ControlQueue,
    command_peek: Option<Vec<u8>>,
    state: StatePublisher,
    resources: ResourceRegistry,
    resource_slots: ResourceSlots,
    telemetry: LatestTelemetry,
    wake_sequence: u64,
}

/// What mapping the pair `resource_id`/`generation` gives for the external
/// ids `slots` over the registry `resources`: an unknown id, a released or
/// mismatched generation, or the registry's answer for the handle behind it.
pub open spec fn map_outcome(
    slots: Seq<ResourceSlot>,
    resources: Seq<SlotView>,
    resource_id: u64,
    generation: u64,
) -> Result<(ResourceHandle, Seq<u8>), CaliberStatus> {
    match entry_for(slots, resource_id) {
        None => Err(CaliberStatus::NotFound),
        Some(e) => if !e.live || e.generation != generation {
            Err(CaliberStatus::Stale)
        } else {
            match lookup(resources, e.handle) {
                Ok(bytes) => Ok((e.handle, bytes)),
                Err(error) => Err(spec_map_core_error(error)),
            }
        },
    }
}

/// Whether the live external ids own distinct registry handles that
/// resolve: every live entry whose handle generation has not reached the
/// largest value resolves in the registry, and two such entries name
/// different registry slots.
pub open spec fn live_entries_resolve(slots: Seq<ResourceSlot>, resources: Seq<SlotView>) -> bool {
    &&& forall|id: u64|
        #![trigger entry_for(slots, id)]
        entry_for(slots, id) is Some && entry_for(slots, id)->0.live && entry_for(slots, id)->0.handle.generation
            < u64::MAX ==> lookup(resources, entry_for(slots, id)->0.handle) is Ok
    &&& forall|a: u64, b: u64|
        #![trigger entry_for(slots, a), entry_for(slots, b)]
        a != b && entry_for(slots, a) is Some && entry_for(slots, a)->0.live && entry_for(
            slots,
            a,
        )->0.handle.generation < u64::MAX && entry_for(slots, b) is Some && entry_for(
            slots,
            b,
        )->0.live && entry_for(slots, b)->0.handle.generation < u64::MAX ==> entry_for(
            slots,
            a,
        )->0.handle.id != entry_for(slots, b)->0.handle.id
    &&& forall|id: u64|
        #![trigger entry_for(slots, id)]
        entry_for(slots, id) is Some ==> 1 <= entry_for(slots, id)->0.handle.id <= resources.len()
}

/// The resource ids a context has issued: those of its entries. Only a
/// successful `publish_resource` adds one and nothing removes one, so an id
/// is in this set exactly when a publication returned it.
pub open spec fn issued_ids(slots: Seq<ResourceSlot>) -> Set<u64> {
    Set::new(|id: u64| has_id(slots, id))
}

/// Recording an entry for `id` adds `id` to the issued ids and nothing else.
proof fn lemma_issued_after_record(before: Seq<ResourceSlot>, after: Seq<ResourceSlot>, id: u64)
    requires
        entry_for(after, id) is Some,
        forall|other: u64| other != id ==> entry_for(after, other) == entry_for(before, other),
    ensures
        issued_ids(after) == issued_ids(before).insert(id),
{
    assert forall|k: u64| #[trigger] issued_ids(after).contains(k) == issued_ids(before).insert(
        id,
    ).contains(k) by {
        if k != id {
            assert(entry_for(after, k) == entry_for(before, k));
        }
    }
    assert(issued_ids(after) =~= issued_ids(before).insert(id));
}

impl CaliberContext {
    /// The context's invariant: its limits are valid and every mechanism is
    /// well formed and built with them.
    pub closed spec fn wf(&self) -> bool {
        &&& nonzero_limits(self.limits)
        &&& within_hard_limits(self.limits)
        &&& self.control.wf()
        &&& self.control.spec_capacity() == self.limits.pending_commands
        &&& self.control.spec_max_message_bytes() == self.limits.command_bytes
        &&& (self.command_peek matches Some(p) ==> p@.len() <= self.limits.command_bytes)
        &&& self.state.wf()
        &&& self.state.spec_max_state_bytes() == self.limits.publication_bytes
        &&& self.resources.wf()
        &&& self.resources.spec_max_resources() == self.limits.max_resources
        &&& self.resources.spec_max_resource_bytes() == self.limits.resource_bytes
        &&& self.resource_slots.wf()
        &&& self.resource_slots.spec_max_entries() == self.limits.max_resources
        &&& self.telemetry.wf()
        &&& self.telemetry.spec_width() == self.limits.telemetry_width
        &&& live_entries_resolve(self.resource_slots@, self.resources@)
    }

    /// The limits the context enforces.
    pub closed spec fn spec_limits(&self) -> Limits {
        self.limits
    }

    /// The pending commands, oldest first, including one already peeked.
    pub closed spec fn commands(&self) -> Seq<Seq<u8>> {
        match self.command_peek {
            Some(p) => seq![p@] + self.control@,
            None => self.control@,
        }
    }

    /// Whether the oldest command has been moved out of the bounded queue by
    /// a peek.
    pub closed spec fn peeked(&self) -> bool {
        self.command_peek is Some
    }

    /// The number of commands in the bounded queue.
    pub closed spec fn queued(&self) -> nat {
        self.control@.len()
    }

    /// The current state publication.
    pub closed spec fn spec_state(&self) -> Option<(Revision, u32, Seq<u8>)> {
        self.state@
    }

    /// The latest published state revision, zero before the first.
    pub closed spec fn spec_state_revision(&self) -> nat {
        self.state.spec_latest_revision()
    }

    /// The resource registry's slots.
    pub closed spec fn spec_resources(&self) -> Seq<SlotView> {
        self.resources@
    }

    /// The external resource ids.
    pub closed spec fn spec_slots(&self) -> Seq<ResourceSlot> {
        self.resource_slots@
    }

    /// The next fresh external resource id.
    pub closed spec fn spec_next_id(&self) -> u64 {
        self.resource_slots.spec_next_id()
    }

    /// The telemetry slot's publication count and latest sample.
    pub closed spec fn spec_telemetry(&self) -> (nat, Seq<usize>) {
        self.telemetry@
    }

    /// The wake sequence.
    pub closed spec fn spec_wake(&self) -> u64 {
        self.wake_sequence
    }

    /// Everything but the commands is as in `other`.
    pub open spec fn same_but_commands(&self, other: &Self) -> bool {
        &&& self.spec_limits() == other.spec_limits()
        &&& self.spec_state() == other.spec_state()
        &&& self.spec_state_revision() == other.spec_state_revision()
        &&& self.spec_resources() == other.spec_resources()
        &&& self.spec_slots() == other.spec_slots()
        &&& self.spec_next_id() == other.spec_next_id()
        &&& self.spec_telemetry() == other.spec_telemetry()
    }

    /// Creates a context with the limits `config` selects.
    pub fn new(config: CaliberContextConfig) -> (r: Result<Box<Self>, CaliberStatus>)
        ensures
            !within_hard_limits(configured_limits(config)) ==> r == Err::<Box<Self>, CaliberStatus>(
                CaliberStatus::LimitExceeded,
            ),
            within_hard_limits(configured_limits(config)) ==> r is Ok || r == Err::<
                Box<Self>,
                CaliberStatus,
            >(CaliberStatus::Internal),
            r matches Ok(c) ==> {
                &&& c.wf()
                &&& c.spec_limits() == configured_limits(config)
                &&& c.commands() == Seq::<Seq<u8>>::empty()
                &&& c.queued() == 0
                &&& !c.peeked()
                &&& c.spec_state_revision() == 0
                &&& c.spec_state() is None
                &&& c.spec_resources() == Seq::<SlotView>::empty()
                &&& c.spec_slots() == Seq::<ResourceSlot>::empty()
                &&& c.spec_next_id() == 1
                &&& c.spec_telemetry().0 == 0
                &&& c.spec_wake() == 0
            },
    {
        let limits = match Limits::from_config(config) {
            Ok(limits) => limits,
            Err(status) => {
                return Err(status);
            },
        };
        let control = match ControlQueue::new(limits.pending_commands, limits.command_bytes) {
            Ok(q) => q,
            Err(e) => {
                return Err(map_core_error(e));
            },
        };
        let state = match StatePublisher::new(limits.publication_bytes) {
            Ok(s) => s,
            Err(e) => {
                return Err(map_core_error(e));
            },
        };
        let resources = match ResourceRegistry::new(limits.max_resources, limits.resource_bytes) {
            Ok(r) => r,
            Err(e) => {
                return Err(map_core_error(e));
            },
        };
        let resource_slots = match ResourceSlots::new(limits.max_resources) {
            Ok(s) => s,
            Err(status) => {
                return Err(status);
            },
        };
        let telemetry = match LatestTelemetry::new(limits.telemetry_width) {
            Ok(t) => t,
            Err(e) => {
                return Err(map_core_error(e));
            },
        };
        Ok(
            Box::new(
                CaliberContext {
                    limits,
                    control,
                    command_peek: None,
                    state,
                    resources,
                    resource_slots,
                    telemetry,
                    wake_sequence: 0,
                },
            ),
        )
    }

    fn bump_wake(&mut self)
        ensures
            final(self).wake_sequence == old(self).wake_sequence.wrapping_add(1),
            final(self).limits == old(self).limits,
            final(self).control == old(self).control,
            final(self).command_peek == old(self).command_peek,
            final(self).state == old(self).state,
            final(self).resources == old(self).resources,
            final(self).resource_slots == old(self).resource_slots,
            final(self).telemetry == old(self).telemetry,
    {
        self.wake_sequence = self.wake_sequence.wrapping_add(1);
    }

    /// Returns the wake sequence: a change means at least one command,
    /// publication, resource or telemetry event happened since the caller's
    /// last observation. It is not a count and may wrap.
    pub fn wake_sequence(&self) -> (w: u64)
        ensures
            w == self.spec_wake(),
    {
        self.wake_sequence
    }

    /// Copies a command packet into the bounded queue.
    pub fn dispatch(&mut self, bytes: &[u8]) -> (s: CaliberStatus)
        requires
            old(self).wf(),
        ensures
            final(self).wf(),
            final(self).same_but_commands(&*old(self)),
            final(self).peeked() == old(self).peeked(),
            bytes@.len() > old(self).spec_limits().command_bytes ==> s == CaliberStatus::LimitExceeded,
            bytes@.len() <= old(self).spec_limits().command_bytes && old(self).queued() == old(
                self,
            ).spec_limits().pending_commands ==> s == CaliberStatus::QueueFull,
            bytes@.len() <= old(self).spec_limits().command_bytes && old(self).queued() < old(
                self,
            ).spec_limits().pending_commands ==> s == CaliberStatus::Success || s
                == CaliberStatus::Internal,
            s == CaliberStatus::Success ==> final(self).commands() == old(self).commands().push(bytes@)
                && final(self).spec_wake() == old(self).spec_wake().wrapping_add(1),
            s != CaliberStatus::Success ==> final(self).commands() == old(self).commands()
                && final(self).spec_wake() == old(self).spec_wake(),
    {
        if bytes.len() > self.limits.command_bytes {
            return CaliberStatus::LimitExceeded;
        }
        match self.control.try_push(bytes) {
            Ok(()) => {
                self.bump_wake();
                proof {
                    if self.command_peek is Some {
                        assert(self.commands() =~= old(self).commands().push(bytes@));
                    }
                }
                CaliberStatus::Success
            },
            Err(error) => map_core_error(error),
        }
    }

    /// Moves the oldest queued command into the peek slot when it is empty.
    fn fill_peek(&mut self)
        requires
            old(self).wf(),
        ensures
            final(self).wf(),
            final(self).same_but_commands(&*old(self)),
            final(self).spec_wake() == old(self).spec_wake(),
            final(self).commands() == old(self).commands(),
            final(self).peeked() == (old(self).commands().len() > 0),
            final(self).queued() == if old(self).peeked() || old(self).queued() == 0 {
                old(self).queued()
            } else {
                (old(self).queued() - 1) as nat
            },
    {
        proof {
            self.control.lemma_bounds();
        }
        if self.command_peek.is_none() {
            self.command_peek = self.control.try_pop();
            proof {
                if self.command_peek is Some {
                    assert(self.commands() =~= old(self).commands());
                }
            }
        }
    }

    /// Reports the size of the oldest pending command without removing it.
    pub fn peek_command_size(&mut self) -> (r: Result<usize, CaliberStatus>)
        requires
            old(self).wf(),
        ensures
            final(self).wf(),
            final(self).same_but_commands(&*old(self)),
            final(self).spec_wake() == old(self).spec_wake(),
            final(self).commands() == old(self).commands(),
            final(self).peeked() == (old(self).commands().len() > 0),
            final(self).queued() == if old(self).peeked() || old(self).queued() == 0 {
                old(self).queued()
            } else {
                (old(self).queued() - 1) as nat
            },
            old(self).commands().len() == 0 ==> r == Err::<usize, CaliberStatus>(
                CaliberStatus::Unavailable,
            ),
            old(self).commands().len() > 0 ==> r == Ok::<usize, CaliberStatus>(
                old(self).commands()[0].len() as usize,
            ),
    {
        self.fill_peek();
        match &self.command_peek {
            Some(command) => Ok(command.len()),
            None => Err(CaliberStatus::Unavailable),
        }
    }

    /// Copies and removes the oldest pending command. A destination shorter
    /// than the command leaves it pending and reports `BufferTooSmall`.
    pub fn take_command(&mut self, out: &mut [u8]) -> (r: Result<usize, CaliberStatus>)
        requires
            old(self).wf(),
        ensures
            final(self).wf(),
            final(self).same_but_commands(&*old(self)),
            final(self).spec_wake() == old(self).spec_wake(),
            old(self).commands().len() == 0 ==> r == Err::<usize, CaliberStatus>(
                CaliberStatus::Unavailable,
            ) && final(self).commands() == old(self).commands(),
            old(self).commands().len() > 0 && old(out)@.len() < old(self).commands()[0].len() ==> r
                == Err::<usize, CaliberStatus>(CaliberStatus::BufferTooSmall) && final(self).commands()
                == old(self).commands(),
            old(self).commands().len() > 0 && old(out)@.len() >= old(self).commands()[0].len() ==> {
                let command = old(self).commands()[0];
                &&& r == Ok::<usize, CaliberStatus>(command.len() as usize)
                &&& final(self).commands() == old(self).commands().drop_first()
                &&& !final(self).peeked()
                &&& final(out)@ == command + old(out)@.subrange(command.len() as int, old(out)@.len() as int)
            },
            r is Err ==> final(out)@ == old(out)@,
    {
        self.fill_peek();
        let len = match &self.command_peek {
            Some(command) => command.len(),
            None => {
                return Err(CaliberStatus::Unavailable);
            },
        };
        if out.len() < len {
            return Err(CaliberStatus::BufferTooSmall);
        }
        let command = match self.command_peek.take() {
            Some(command) => command,
            None => {
                return Err(CaliberStatus::Unavailable);
            },
        };
        let mut i: usize = 0;
        while i < len
            invariant
                i <= len,
                len == command@.len(),
                len <= out@.len(),
                out@.len() == old(out)@.len(),
                forall|j: int| 0 <= j < i ==> out@[j] == command@[j],
                forall|j: int| len <= j < out@.len() ==> out@[j] == old(out)@[j],
            decreases len - i,
        {
            out[i] = command[i];
            i = i + 1;
        }
        proof {
            assert(out@ =~= command@ + old(out)@.subrange(len as int, old(out)@.len() as int));
            assert(self.commands() =~= old(self).commands().drop_first());
        }
        Ok(len)
    }

    /// Returns a copy of the latest state publication.
    pub fn read_state(&self) -> (r: Result<StatePublication, CaliberStatus>)
        ensures
            match self.spec_state() {
                Some(p) => r matches Ok(publication) && publication@ == p,
                None => r == Err::<StatePublication, CaliberStatus>(CaliberStatus::Unavailable),
            },
    {
        match self.state.read() {
            Some(publication) => Ok(publication),
            None => Err(CaliberStatus::Unavailable),
        }
    }

    /// Publishes a state payload and returns its revision.
    pub fn publish_state(&mut self, schema: u32, bytes: &[u8]) -> (r: Result<u64, CaliberStatus>)
        requires
            old(self).wf(),
        ensures
            final(self).wf(),
            final(self).spec_limits() == old(self).spec_limits(),
            final(self).commands() == old(self).commands(),
            final(self).peeked() == old(self).peeked(),
            final(self).queued() == old(self).queued(),
            final(self).spec_resources() == old(self).spec_resources(),
            final(self).spec_slots() == old(self).spec_slots(),
            final(self).spec_next_id() == old(self).spec_next_id(),
            final(self).spec_telemetry() == old(self).spec_telemetry(),
            schema == 0 ==> r == Err::<u64, CaliberStatus>(CaliberStatus::InvalidArgument),
            schema != 0 && bytes@.len() > old(self).spec_limits().publication_bytes ==> r == Err::<
                u64,
                CaliberStatus,
            >(CaliberStatus::LimitExceeded),
            schema != 0 && bytes@.len() <= old(self).spec_limits().publication_bytes
                && old(self).spec_state_revision() + 1 == u64::MAX ==> r == Err::<u64, CaliberStatus>(
                CaliberStatus::InvalidArgument,
            ),
            schema != 0 && bytes@.len() <= old(self).spec_limits().publication_bytes
                && old(self).spec_state_revision() + 1 < u64::MAX ==> r == Ok::<u64, CaliberStatus>(
                (old(self).spec_state_revision() + 1) as u64,
            ),
            r matches Ok(rev) ==> final(self).spec_state() == Some((rev, schema, bytes@))
                && final(self).spec_state_revision() == rev && final(self).spec_wake() == old(
                self,
            ).spec_wake().wrapping_add(1),
            r is Err ==> final(self).spec_state() == old(self).spec_state()
                && final(self).spec_state_revision() == old(self).spec_state_revision()
                && final(self).spec_wake() == old(self).spec_wake(),
    {
        if schema == 0 {
            return Err(CaliberStatus::InvalidArgument);
        }
        match self.state.publish(schema, bytes) {
            Ok(revision) => {
                self.bump_wake();
                Ok(revision)
            },
            Err(error) => Err(map_core_error(error)),
        }
    }

    /// Registers immutable bytes and returns the external id/generation pair
    /// that a frontend may later map.
    ///
    /// The id is chosen as [`reserve_outcome`] describes; the bytes then go
    /// to the registry, whose refusals are reported as statuses.
    pub fn publish_resource(&mut self, bytes: &[u8]) -> (r: Result<(u64, u64), CaliberStatus>)
        requires
            old(self).wf(),
        ensures
            final(self).wf(),
            final(self).spec_limits() == old(self).spec_limits(),
            final(self).commands() == old(self).commands(),
            final(self).peeked() == old(self).peeked(),
            final(self).queued() == old(self).queued(),
            final(self).spec_state() == old(self).spec_state(),
            final(self).spec_state_revision() == old(self).spec_state_revision(),
            final(self).spec_telemetry() == old(self).spec_telemetry(),
            ({
                let reserved = reserve_outcome(
                    old(self).spec_slots(),
                    old(self).spec_limits().max_resources as nat,
                    old(self).spec_next_id(),
                );
                &&& reserved is Err ==> r == reserved
                &&& reserved is Ok && bytes@.len() > old(self).spec_limits().resource_bytes ==> r
                    == Err::<(u64, u64), CaliberStatus>(CaliberStatus::LimitExceeded)
                &&& reserved is Ok && bytes@.len() <= old(self).spec_limits().resource_bytes
                    && live_count(old(self).spec_resources()) == old(self).spec_limits().max_resources
                    ==> r == Err::<(u64, u64), CaliberStatus>(CaliberStatus::QueueFull)
                &&& reserved is Ok && bytes@.len() <= old(self).spec_limits().resource_bytes
                    && live_count(old(self).spec_resources()) < old(self).spec_limits().max_resources
                    ==> r == reserved || r == Err::<(u64, u64), CaliberStatus>(CaliberStatus::Internal)
                &&& reserved is Ok && bytes@.len() <= old(self).spec_limits().resource_bytes
                    && live_count(old(self).spec_resources()) < old(self).spec_limits().max_resources
                    && has_free_slot(old(self).spec_resources()) ==> r == reserved
            }),
            r matches Ok(pair) ==> {
                &&& entry_for(final(self).spec_slots(), pair.0) matches Some(e)
                &&& e.resource_id == pair.0
                &&& e.generation == pair.1
                &&& e.live
                &&& lookup(final(self).spec_resources(), e.handle) == Ok::<Seq<u8>, Error>(bytes@)
                &&& forall|id: u64| id != pair.0 ==> entry_for(final(self).spec_slots(), id) == entry_for(
                    old(self).spec_slots(),
                    id,
                )
                &&& final(self).spec_wake() == old(self).spec_wake().wrapping_add(1)
                &&& issued_ids(final(self).spec_slots()) == issued_ids(old(self).spec_slots()).insert(
                    pair.0,
                )
                &&& exists|h: ResourceHandle|
                    final(self).spec_slots() == recorded(
                        old(self).spec_slots(),
                        (ResourceSlot { resource_id: pair.0, handle: h, generation: pair.1, live: true }),
                    )
            },
            r is Err ==> final(self).spec_slots() == old(self).spec_slots() && final(self).spec_resources()
                == old(self).spec_resources() && final(self).spec_wake() == old(self).spec_wake(),
    {
        let (resource_id, generation) = match self.resource_slots.reserve_slot() {
            Ok(pair) => pair,
            Err(status) => {
                return Err(status);
            },
        };
        let handle = match self.resources.insert(bytes) {
            Ok(handle) => handle,
            Err(error) => {
                return Err(map_core_error(error));
            },
        };
        proof {
            old(self).resources.lemma_bounds();
            let s = old(self).resource_slots@;
            if crate::slots::first_free(s) >= 0 {
                crate::slots::lemma_first_free(s);
                assert(has_id(s, resource_id)) by {
                    assert(s[crate::slots::first_free(s)].resource_id == resource_id);
                }
            }
        }
        let slot = ResourceSlot { resource_id, handle, generation, live: true };
        self.resource_slots.record(slot);
        self.bump_wake();
        proof {
            let old_res = old(self).resources@;
            if has_free_slot(old_res) {
                assert(lookup(self.resources@, handle) == Ok::<Seq<u8>, Error>(bytes@));
            } else {
                assert(self.resources@[handle.id - 1] == (1u64, Some(bytes@)));
            }
            lemma_issued_after_record(old(self).resource_slots@, self.resource_slots@, resource_id);
        }
        Ok((resource_id, generation))
    }

    /// Maps a resource by id and exact generation to an immutable view.
    pub fn map_resource(&self, resource_id: u64, generation: u64) -> (r: Result<
        ResourceView,
        CaliberStatus,
    >)
        requires
            self.wf(),
        ensures
            match map_outcome(self.spec_slots(), self.spec_resources(), resource_id, generation) {
                Ok((handle, bytes)) => r matches Ok(view) && view@ == (handle, bytes),
                Err(status) => r == Err::<ResourceView, CaliberStatus>(status),
            },
    {
        let slot = match self.resource_slots.get(resource_id) {
            Some(slot) => slot,
            None => {
                return Err(CaliberStatus::NotFound);
            },
        };
        if !slot.live || slot.generation != generation {
            return Err(CaliberStatus::Stale);
        }
        match self.resources.get(slot.handle) {
            Ok(view) => Ok(view),
            Err(Error::StaleResource(_)) => Err(CaliberStatus::Stale),
            Err(Error::UnknownResource(_)) => Err(CaliberStatus::NotFound),
            Err(error) => Err(map_core_error(error)),
        }
    }

    /// Releases the registry's ownership of a resource generation. Views
    /// already mapped stay readable.
    pub fn release_resource(&mut self, resource_id: u64, generation: u64) -> (s: CaliberStatus)
        requires
            old(self).wf(),
        ensures
            final(self).wf(),
            final(self).spec_limits() == old(self).spec_limits(),
            final(self).commands() == old(self).commands(),
            final(self).peeked() == old(self).peeked(),
            final(self).queued() == old(self).queued(),
            final(self).spec_state() == old(self).spec_state(),
            final(self).spec_state_revision() == old(self).spec_state_revision(),
            final(self).spec_telemetry() == old(self).spec_telemetry(),
            final(self).spec_next_id() == old(self).spec_next_id(),
            match entry_for(old(self).spec_slots(), resource_id) {
                None => s == CaliberStatus::NotFound && final(self).spec_resources() == old(
                    self,
                ).spec_resources(),
                Some(e) => if !e.live || e.generation != generation {
                    s == CaliberStatus::Stale && final(self).spec_resources() == old(
                        self,
                    ).spec_resources()
                } else {
                    match lookup(old(self).spec_resources(), e.handle) {
                        Err(error) => s == spec_map_core_error(error),
                        Ok(_) => if e.handle.generation < u64::MAX {
                            &&& s == CaliberStatus::Success
                            &&& entry_for(final(self).spec_slots(), resource_id) == Some(
                                ResourceSlot { live: false, ..e },
                            )
                            &&& final(self).spec_resources() == old(self).spec_resources().update(
                                e.handle.id - 1,
                                ((e.handle.generation + 1) as u64, None::<Seq<u8>>),
                            )
                            &&& final(self).spec_wake() == old(self).spec_wake().wrapping_add(1)
                        } else {
                            s == CaliberStatus::InvalidArgument
                        },
                    }
                },
            },
            entry_for(old(self).spec_slots(), resource_id) matches Some(e) && e.live && e.generation
                == generation && e.handle.generation < u64::MAX ==> s == CaliberStatus::Success,
            s == CaliberStatus::Success ==> forall|id: u64| id != resource_id ==> entry_for(
                final(self).spec_slots(),
                id,
            ) == entry_for(old(self).spec_slots(), id),
            s != CaliberStatus::Success ==> final(self).spec_slots() == old(self).spec_slots()
                && final(self).spec_wake() == old(self).spec_wake(),
            issued_ids(final(self).spec_slots()) == issued_ids(old(self).spec_slots()),
            s == CaliberStatus::NotFound <==> !issued_ids(old(self).spec_slots()).contains(resource_id),
    {
        let slot = match self.resource_slots.get(resource_id) {
            Some(slot) => slot,
            None => {
                return CaliberStatus::NotFound;
            },
        };
        if !slot.live || slot.generation != generation {
            return CaliberStatus::Stale;
        }
        match self.resources.release(slot.handle) {
            Ok(()) => {
                proof {
                    assert(has_id(self.resource_slots@, resource_id));
                }
                self.resource_slots.record(ResourceSlot { live: false, ..slot });
                self.bump_wake();
                proof {
                    lemma_issued_after_record(
                        old(self).resource_slots@,
                        self.resource_slots@,
                        resource_id,
                    );
                    assert(issued_ids(old(self).resource_slots@).insert(resource_id) =~= issued_ids(
                        old(self).resource_slots@,
                    ));
                }
                CaliberStatus::Success
            },
            Err(error) => map_core_error(error),
        }
    }

    /// Publishes a fixed-width telemetry value.
    pub fn publish_telemetry(&mut self, values: &[usize]) -> (s: CaliberStatus)
        requires
            old(self).wf(),
        ensures
            final(self).wf(),
            final(self).spec_limits() == old(self).spec_limits(),
            final(self).commands() == old(self).commands(),
            final(self).peeked() == old(self).peeked(),
            final(self).queued() == old(self).queued(),
            final(self).spec_state() == old(self).spec_state(),
            final(self).spec_state_revision() == old(self).spec_state_revision(),
            final(self).spec_resources() == old(self).spec_resources(),
            final(self).spec_slots() == old(self).spec_slots(),
            final(self).spec_next_id() == old(self).spec_next_id(),
            values@.len() != old(self).spec_limits().telemetry_width ==> s
                == CaliberStatus::InvalidArgument,
            values@.len() == old(self).spec_limits().telemetry_width && old(self).spec_telemetry().0
                == LatestTelemetry::max_sequence() ==> s == CaliberStatus::InvalidArgument,
            values@.len() == old(self).spec_limits().telemetry_width && old(self).spec_telemetry().0
                < LatestTelemetry::max_sequence() ==> s == CaliberStatus::Success,
            s == CaliberStatus::Success ==> final(self).spec_telemetry() == (
                old(self).spec_telemetry().0 + 1,
                values@,
            ) && final(self).spec_wake() == old(self).spec_wake().wrapping_add(1),
            s != CaliberStatus::Success ==> final(self).spec_telemetry() == old(self).spec_telemetry()
                && final(self).spec_wake() == old(self).spec_wake(),
    {
        proof {
            self.telemetry.lemma_bounds();
        }
        match self.telemetry.publish(values) {
            Ok(_) => {
                self.bump_wake();
                CaliberStatus::Success
            },
            Err(error) => map_core_error(error),
        }
    }

    /// Copies the latest telemetry value into a buffer of the configured
    /// width.
    pub fn read_telemetry(&self, out: &mut [usize]) -> (r: Result<CaliberTelemetryInfo, CaliberStatus>)
        requires
            self.wf(),
        ensures
            old(out)@.len() != self.spec_limits().telemetry_width ==> r == Err::<
                CaliberTelemetryInfo,
                CaliberStatus,
            >(CaliberStatus::BufferTooSmall),
            old(out)@.len() == self.spec_limits().telemetry_width && self.spec_telemetry().0 == 0
                ==> r == Err::<CaliberTelemetryInfo, CaliberStatus>(CaliberStatus::Unavailable),
            old(out)@.len() == self.spec_limits().telemetry_width && self.spec_telemetry().0 > 0 ==> r
                == Ok::<CaliberTelemetryInfo, CaliberStatus>(
                CaliberTelemetryInfo {
                    sequence: self.spec_telemetry().0 as u64,
                    schema: 0,
                    reserved: 0,
                    value_count: self.spec_limits().telemetry_width,
                    value_size: vstd::layout::size_of::<usize>() as usize,
                },
            ) && final(out)@ == self.spec_telemetry().1,
            r is Err ==> final(out)@ == old(out)@,
    {
        proof {
            self.telemetry.lemma_bounds();
        }
        if out.len() != self.limits.telemetry_width {
            return Err(CaliberStatus::BufferTooSmall);
        }
        let sequence = match self.telemetry.read_into(out) {
            Ok(sequence) => sequence,
            Err(Error::NoTelemetry) => {
                return Err(CaliberStatus::Unavailable);
            },
            Err(error) => {
                return Err(map_core_error(error));
            },
        };
        Ok(
            CaliberTelemetryInfo {
                sequence,
                schema: 0,
                reserved: 0,
                value_count: out.len(),
                value_size: core::mem::size_of::<usize>(),
            },
        )
    }

    /// Describes the latest telemetry value without copying it.
    pub fn telemetry_info(&self) -> (r: Result<CaliberTelemetryInfo, CaliberStatus>)
        requires
            self.wf(),
        ensures
            self.spec_telemetry().0 == 0 ==> r == Err::<CaliberTelemetryInfo, CaliberStatus>(
                CaliberStatus::Unavailable,
            ),
            self.spec_telemetry().0 > 0 ==> r == Ok::<CaliberTelemetryInfo, CaliberStatus>(
                CaliberTelemetryInfo {
                    sequence: self.spec_telemetry().0 as u64,
                    schema: 0,
                    reserved: 0,
                    value_count: self.spec_limits().telemetry_width,
                    value_size: vstd::layout::size_of::<usize>() as usize,
                },
            ),
    {
        proof {
            self.telemetry.lemma_bounds();
        }
        let sequence = self.telemetry.sequence();
        if sequence == 0 {
            return Err(CaliberStatus::Unavailable);
        }
        Ok(
            CaliberTelemetryInfo {
                sequence,
                schema: 0,
                reserved: 0,
                value_count: self.limits.telemetry_width,
                value_size: core::mem::size_of::<usize>(),
            },
        )
    }
    /// The take operation of the C table over a destination `out`: the
    /// status, and the length to report. A destination shorter than the
    /// oldest command reports the required length with `BufferTooSmall` and
    /// leaves the command pending.
    pub fn take_command_into(&mut self, out: &mut [u8]) -> (r: (CaliberStatus, Option<usize>))
        requires
            old(self).wf(),
        ensures
            final(self).wf(),
            final(self).same_but_commands(&*old(self)),
            final(self).spec_wake() == old(self).spec_wake(),
            old(self).commands().len() == 0 ==> r == (CaliberStatus::Unavailable, None::<usize>)
                && final(self).commands() == old(self).commands() && final(out)@ == old(out)@,
            old(self).commands().len() > 0 && old(out)@.len() < old(self).commands()[0].len() ==> r
                == (CaliberStatus::BufferTooSmall, Some(old(self).commands()[0].len() as usize))
                && final(self).commands() == old(self).commands() && final(out)@ == old(out)@,
            old(self).commands().len() > 0 && old(out)@.len() >= old(self).commands()[0].len() ==> {
                let command = old(self).commands()[0];
                &&& r == (CaliberStatus::Success, Some(command.len() as usize))
                &&& final(self).commands() == old(self).commands().drop_first()
                &&& final(out)@ == command + old(out)@.subrange(command.len() as int, old(out)@.len() as int)
            },
    {
        let required = match self.peek_command_size() {
            Ok(required) => required,
            Err(status) => {
                return (status, None);
            },
        };
        if out.len() < required {
            return (CaliberStatus::BufferTooSmall, Some(required));
        }
        match self.take_command(out) {
            Ok(actual) => (CaliberStatus::Success, Some(actual)),
            Err(status) => (status, Some(required)),
        }
    }

    /// The telemetry read of the C table over a destination `out`: the
    /// status, and the metadata to report. Whenever a value exists the
    /// metadata is reported, also with `BufferTooSmall` for a destination of
    /// the wrong width, which is then left untouched.
    pub fn read_latest_telemetry_into(&self, out: &mut [usize]) -> (r: (
        CaliberStatus,
        Option<CaliberTelemetryInfo>,
    ))
        requires
            self.wf(),
        ensures
            self.spec_telemetry().0 == 0 ==> r == (CaliberStatus::Unavailable, None::<CaliberTelemetryInfo>)
                && final(out)@ == old(out)@,
            self.spec_telemetry().0 > 0 ==> {
                let info = CaliberTelemetryInfo {
                    sequence: self.spec_telemetry().0 as u64,
                    schema: 0,
                    reserved: 0,
                    value_count: self.spec_limits().telemetry_width,
                    value_size: vstd::layout::size_of::<usize>() as usize,
                };
                if old(out)@.len() != self.spec_limits().telemetry_width {
                    r == (CaliberStatus::BufferTooSmall, Some(info)) && final(out)@ == old(out)@
                } else {
                    r == (CaliberStatus::Success, Some(info)) && final(out)@ == self.spec_telemetry().1
                }
            },
    {
        let info = match self.telemetry_info() {
            Ok(info) => info,
            Err(status) => {
                return (status, None);
            },
        };
        if out.len() != info.value_count {
            return (CaliberStatus::BufferTooSmall, Some(info));
        }
        match self.read_telemetry(out) {
            Ok(info) => (CaliberStatus::Success, Some(info)),
            Err(status) => (status, None),
        }
    }
}

/// Mapping the id/generation pair that publishing a resource returned gives
/// back exactly the published bytes.
pub proof fn law_map_returns_published_bytes(
    slots: Seq<ResourceSlot>,
    resources: Seq<SlotView>,
    resource_id: u64,
    generation: u64,
    bytes: Seq<u8>,
)
    requires
        entry_for(slots, resource_id) matches Some(e) && e.generation == generation && e.live
            && lookup(resources, e.handle) == Ok::<Seq<u8>, Error>(bytes),
    ensures
        map_outcome(slots, resources, resource_id, generation) matches Ok((_, b)) && b == bytes,
{
}

/// A released pair, or one naming any generation but the id's current one,
/// is refused as stale; an id never issued is not found.
pub proof fn law_only_current_pair_maps(
    slots: Seq<ResourceSlot>,
    resources: Seq<SlotView>,
    resource_id: u64,
    generation: u64,
)
    ensures
        entry_for(slots, resource_id) is None ==> map_outcome(slots, resources, resource_id, generation)
            == Err::<(ResourceHandle, Seq<u8>), CaliberStatus>(CaliberStatus::NotFound),
        entry_for(slots, resource_id) matches Some(e) && (!e.live || e.generation != generation)
            ==> map_outcome(slots, resources, resource_id, generation) == Err::<
            (ResourceHandle, Seq<u8>),
            CaliberStatus,
        >(CaliberStatus::Stale),
{
}

} // verus!
