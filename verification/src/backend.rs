use std::collections::BTreeSet;
use vstd::prelude::*;

use crate::error::{Error as CoreError, ResourceHandle, Revision};
use crate::resource::{lookup, live_count, ResourceRegistry, ResourceView, SlotView};
use crate::state::StatePublisher;
use crate::synthetic::{
    app_of_wire, decode_state, encodable, encode_state, invalid_state, known_sample,
    lemma_wire_round_trip, wire_of, wire_valid, AppState, AppView, BackendError, WaveformRef,
    MAX_QUERY_BYTES, MAX_STATE_BYTES, METER_WIDTH, SAMPLE_HAT, SAMPLE_KICK, SAMPLE_SNARE,
    STATE_SCHEMA, WAVEFORM_KEY,
};
use crate::telemetry::LatestTelemetry;
use crate::text::{ascii_lower, ascii_lowercase, byte_len, seq_contains, str_contains, str_equal};
use crate::wire::{postcard_state_decoding, postcard_state_encoding};

verus! {

broadcast use vstd::std_specs::btree::group_btree_axioms, vstd::laws_cmp::group_laws_cmp;

/// The fixture's waveform: 64 bytes of a rectified sine period.
pub const WAVEFORM: [u8; 64] = [
    0u8, 25u8, 50u8, 75u8, 99u8, 121u8, 143u8, 163u8, 182u8, 199u8, 214u8, 226u8, 237u8, 245u8,
    251u8, 254u8, 254u8, 253u8, 248u8, 241u8, 232u8, 220u8, 207u8, 191u8, 173u8, 153u8, 132u8,
    110u8, 87u8, 62u8, 38u8, 12u8, 12u8, 38u8, 62u8, 87u8, 110u8, 132u8, 153u8, 173u8, 191u8,
    207u8, 220u8, 232u8, 241u8, 248u8, 253u8, 254u8, 254u8, 251u8, 245u8, 237u8, 226u8, 214u8,
    199u8, 182u8, 163u8, 143u8, 121u8, 99u8, 75u8, 50u8, 25u8, 0u8,
];

/// One sample exposed by the backend's application schema.
#[derive(Clone, Copy, Debug, PartialEq, Eq)]
pub struct SampleSummary {
    pub id: u32,
    pub name: &'static str,
    pub duration_ms: u32,
    pub favorite: bool,
}

/// The model of a sample summary: id, name, duration and favorite flag.
pub type SampleModel = (u32, Seq<char>, u32, bool);

pub open spec fn summary_view(s: SampleSummary) -> SampleModel {
    (s.id, s.name@, s.duration_ms, s.favorite)
}

/// Whether `samples` is the fixture library: kick, snare and hat.
pub open spec fn is_fixture(samples: Seq<SampleSummary>) -> bool {
    &&& samples.len() == 3
    &&& summary_view(samples[0]) == (SAMPLE_KICK, "kick"@, 420u32, false)
    &&& summary_view(samples[1]) == (SAMPLE_SNARE, "snare"@, 310u32, false)
    &&& summary_view(samples[2]) == (SAMPLE_HAT, "hat"@, 180u32, false)
}

/// The samples of `samples` whose name contains the lowered query `q` (all of
/// them for an empty query), each flagged by whether it is a favorite.
pub open spec fn visible_spec(samples: Seq<SampleSummary>, q: Seq<char>, fav: Set<u32>) -> Seq<SampleModel>
    decreases samples.len(),
{
    if samples.len() == 0 {
        Seq::empty()
    } else {
        let prev = visible_spec(samples.drop_last(), q, fav);
        let s = samples.last();
        if q.len() == 0 || seq_contains(s.name@, q) {
            prev.push((s.id, s.name@, s.duration_ms, fav.contains(s.id)))
        } else {
            prev
        }
    }
}

/// Whether the list `v` has an entry for the sample `id`.
pub open spec fn lists_sample(v: Seq<SampleModel>, id: u32) -> bool {
    exists|j: int| 0 <= j < v.len() && (#[trigger] v[j]).0 == id
}

/// The model of sample `s` with its favorite flag from `fav`.
pub open spec fn flagged(s: SampleSummary, fav: Set<u32>) -> SampleModel {
    (s.id, s.name@, s.duration_ms, fav.contains(s.id))
}

/// The search lists a sample exactly when its name contains the query
/// anywhere (every sample for an empty query), and every listed entry is one
/// of the samples, flagged by whether it is a favorite.
pub proof fn law_visible_samples_match_query(samples: Seq<SampleSummary>, q: Seq<char>, fav: Set<u32>)
    requires
        forall|i: int, j: int| 0 <= i < j < samples.len() ==> samples[i].id != samples[j].id,
    ensures
        forall|k: int|
            0 <= k < samples.len() ==> (lists_sample(visible_spec(samples, q, fav), #[trigger] samples[k].id)
                <==> (q.len() == 0 || seq_contains(samples[k].name@, q))),
        forall|j: int|
            0 <= j < visible_spec(samples, q, fav).len() ==> exists|k: int|
                0 <= k < samples.len() && #[trigger] visible_spec(samples, q, fav)[j] == flagged(
                    samples[k],
                    fav,
                ),
    decreases samples.len(),
{
    if samples.len() > 0 {
        let n = samples.len() - 1;
        let prevs = samples.drop_last();
        law_visible_samples_match_query(prevs, q, fav);
        let pv = visible_spec(prevs, q, fav);
        let v = visible_spec(samples, q, fav);
        let last = samples[n];
        let shown = q.len() == 0 || seq_contains(last.name@, q);
        assert(shown ==> v == pv.push(flagged(last, fav)));
        assert(!shown ==> v == pv);
        assert forall|j: int| 0 <= j < v.len() implies exists|k: int|
            0 <= k < samples.len() && #[trigger] v[j] == flagged(samples[k], fav) by {
            if j < pv.len() {
                assert(v[j] == pv[j]);
                let k = choose|k: int| 0 <= k < prevs.len() && #[trigger] pv[j] == flagged(prevs[k], fav);
                assert(prevs[k] == samples[k]);
            } else {
                assert(v[j] == flagged(samples[n], fav));
            }
        }
        assert forall|k: int| 0 <= k < samples.len() implies (lists_sample(v, #[trigger] samples[k].id)
            <==> (q.len() == 0 || seq_contains(samples[k].name@, q))) by {
            let id = samples[k].id;
            if k < n {
                assert(samples[k] == prevs[k]);
                if lists_sample(v, id) {
                    let j = choose|j: int| 0 <= j < v.len() && (#[trigger] v[j]).0 == id;
                    if j >= pv.len() {
                        assert(v[j].0 == last.id);
                    } else {
                        assert(pv[j] == v[j]);
                    }
                }
                if lists_sample(pv, id) {
                    let j = choose|j: int| 0 <= j < pv.len() && (#[trigger] pv[j]).0 == id;
                    assert(v[j] == pv[j]);
                }
            } else {
                if lists_sample(pv, id) {
                    let j = choose|j: int| 0 <= j < pv.len() && (#[trigger] pv[j]).0 == id;
                    let k2 = choose|k2: int| 0 <= k2 < prevs.len() && #[trigger] pv[j] == flagged(prevs[k2], fav);
                    assert(prevs[k2] == samples[k2]);
                }
                if shown {
                    assert(v[pv.len() as int].0 == id);
                }
            }
        }
    }
}

/// Application commands. `based_on_revision` is the state revision the
/// command was issued against.
#[derive(Debug, PartialEq, Eq)]
pub enum Command {
    SetSearch { query: String, based_on_revision: Revision },
    SelectSample { sample_id: u32, based_on_revision: Revision },
    StartPreview { sample_id: u32, based_on_revision: Revision },
    StopPreview { based_on_revision: Revision },
    ToggleFavorite { sample_id: u32, based_on_revision: Revision },
}

/// The revision a command was issued against.
pub open spec fn command_revision(c: Command) -> Revision {
    match c {
        Command::SetSearch { based_on_revision, .. } => based_on_revision,
        Command::SelectSample { based_on_revision, .. } => based_on_revision,
        Command::StartPreview { based_on_revision, .. } => based_on_revision,
        Command::StopPreview { based_on_revision } => based_on_revision,
        Command::ToggleFavorite { based_on_revision, .. } => based_on_revision,
    }
}

impl Command {
    /// Returns the revision the command was issued against.
    pub fn based_on_revision(&self) -> (r: Revision)
        ensures
            r == command_revision(*self),
    {
        match self {
            Command::SetSearch { based_on_revision, .. } => *based_on_revision,
            Command::SelectSample { based_on_revision, .. } => *based_on_revision,
            Command::StartPreview { based_on_revision, .. } => *based_on_revision,
            Command::StopPreview { based_on_revision } => *based_on_revision,
            Command::ToggleFavorite { based_on_revision, .. } => *based_on_revision,
        }
    }
}

impl Clone for Command {
    fn clone(&self) -> (c: Self)
        ensures
            c == *self,
    {
        match self {
            Command::SetSearch { query, based_on_revision } => Command::SetSearch {
                query: query.clone(),
                based_on_revision: *based_on_revision,
            },
            Command::SelectSample { sample_id, based_on_revision } => Command::SelectSample {
                sample_id: *sample_id,
                based_on_revision: *based_on_revision,
            },
            Command::StartPreview { sample_id, based_on_revision } => Command::StartPreview {
                sample_id: *sample_id,
                based_on_revision: *based_on_revision,
            },
            Command::StopPreview { based_on_revision } => Command::StopPreview {
                based_on_revision: *based_on_revision,
            },
            Command::ToggleFavorite { sample_id, based_on_revision } => Command::ToggleFavorite {
                sample_id: *sample_id,
                based_on_revision: *based_on_revision,
            },
        }
    }
}

/// Whether a command names a sample outside the fixture.
pub open spec fn names_unknown_sample(c: Command) -> Option<u32> {
    match c {
        Command::SelectSample { sample_id, .. } => if known_sample(sample_id) {
            None
        } else {
            Some(sample_id)
        },
        Command::StartPreview { sample_id, .. } => if known_sample(sample_id) {
            None
        } else {
            Some(sample_id)
        },
        Command::ToggleFavorite { sample_id, .. } => if known_sample(sample_id) {
            None
        } else {
            Some(sample_id)
        },
        _ => None,
    }
}

/// The state a command produces from `s`; `waveform` is the reference a
/// selection publishes.
pub open spec fn apply_command(s: AppView, c: Command, waveform: (Seq<char>, usize)) -> AppView {
    match c {
        Command::SetSearch { query, .. } => (query@, s.1, s.2, s.3, s.4, s.5),
        Command::SelectSample { sample_id, .. } => (s.0, Some(sample_id), s.2, s.3, s.4, Some(waveform)),
        Command::StartPreview { sample_id, .. } => (s.0, s.1, Some(sample_id), s.3, s.4, s.5),
        Command::StopPreview { .. } => (s.0, s.1, None, s.3, s.4, s.5),
        Command::ToggleFavorite { sample_id, .. } => (s.0, s.1, s.2, if s.3.contains(sample_id) {
            s.3.remove(sample_id)
        } else {
            s.3.insert(sample_id)
        }, s.4, s.5),
    }
}

/// What each command does to the state: a search sets only the query,
/// selecting a sample sets only the selection and the waveform, starting a
/// preview sets only the previewed sample, stopping clears only it, and
/// toggling a favorite flips that one sample's membership, leaving every
/// other sample a favorite exactly when it was one before.
pub proof fn law_commands_change_only_their_field(
    s: AppView,
    c: Command,
    waveform: (Seq<char>, usize),
)
    ensures
        ({
            let t = apply_command(s, c, waveform);
            match c {
                Command::SetSearch { query, .. } => t.0 == query@ && t.1 == s.1 && t.2 == s.2
                    && t.3 == s.3 && t.4 == s.4 && t.5 == s.5,
                Command::SelectSample { sample_id, .. } => t.0 == s.0 && t.1 == Some(sample_id)
                    && t.2 == s.2 && t.3 == s.3 && t.4 == s.4 && t.5 == Some(waveform),
                Command::StartPreview { sample_id, .. } => t.0 == s.0 && t.1 == s.1 && t.2 == Some(
                    sample_id,
                ) && t.3 == s.3 && t.4 == s.4 && t.5 == s.5,
                Command::StopPreview { .. } => t.0 == s.0 && t.1 == s.1 && t.2 is None && t.3
                    == s.3 && t.4 == s.4 && t.5 == s.5,
                Command::ToggleFavorite { sample_id, .. } => {
                    &&& t.3.contains(sample_id) == !s.3.contains(sample_id)
                    &&& forall|x: u32| x != sample_id ==> (t.3.contains(x) == s.3.contains(x))
                    &&& t.0 == s.0 && t.1 == s.1 && t.2 == s.2 && t.4 == s.4 && t.5 == s.5
                },
            }
        }),
{
}

/// Toggling the same favorite twice gives back the favorites one started
/// with.
pub proof fn law_toggle_twice_restores_favorites(
    s: AppView,
    sample_id: u32,
    first: Revision,
    second: Revision,
    waveform: (Seq<char>, usize),
)
    ensures
        apply_command(
            apply_command(s, Command::ToggleFavorite { sample_id, based_on_revision: first }, waveform),
            Command::ToggleFavorite { sample_id, based_on_revision: second },
            waveform,
        ).3 == s.3,
{
    let once = apply_command(s, Command::ToggleFavorite { sample_id, based_on_revision: first }, waveform);
    let twice = apply_command(once, Command::ToggleFavorite { sample_id, based_on_revision: second }, waveform);
    law_commands_change_only_their_field(s, Command::ToggleFavorite { sample_id, based_on_revision: first }, waveform);
    law_commands_change_only_their_field(once, Command::ToggleFavorite { sample_id, based_on_revision: second }, waveform);
    assert(twice.3 =~= s.3);
}

/// The search keeps the samples' order: of two listed entries, the earlier
/// one is of an earlier sample.
pub proof fn law_visible_samples_keep_order(samples: Seq<SampleSummary>, q: Seq<char>, fav: Set<u32>)
    requires
        forall|i: int, j: int| 0 <= i < j < samples.len() ==> samples[i].id != samples[j].id,
    ensures
        forall|a: int, b: int|
            0 <= a < b < visible_spec(samples, q, fav).len() ==> exists|i: int, j: int|
                0 <= i < j < samples.len() && #[trigger] visible_spec(samples, q, fav)[a] == flagged(
                    samples[i],
                    fav,
                ) && #[trigger] visible_spec(samples, q, fav)[b] == flagged(samples[j], fav),
    decreases samples.len(),
{
    if samples.len() > 0 {
        let n = samples.len() - 1;
        let prevs = samples.drop_last();
        law_visible_samples_keep_order(prevs, q, fav);
        law_visible_samples_match_query(prevs, q, fav);
        let pv = visible_spec(prevs, q, fav);
        let v = visible_spec(samples, q, fav);
        let last = samples[n];
        let shown = q.len() == 0 || seq_contains(last.name@, q);
        assert(shown ==> v == pv.push(flagged(last, fav)));
        assert(!shown ==> v == pv);
        assert forall|a: int, b: int| 0 <= a < b < v.len() implies exists|i: int, j: int|
            0 <= i < j < samples.len() && #[trigger] v[a] == flagged(samples[i], fav) && #[trigger] v[b]
                == flagged(samples[j], fav) by {
            assert(v[a] == pv[a]);
            if b < pv.len() {
                assert(v[b] == pv[b]);
                let (i, j) = choose|i: int, j: int|
                    0 <= i < j < prevs.len() && #[trigger] pv[a] == flagged(prevs[i], fav) && #[trigger] pv[b]
                        == flagged(prevs[j], fav);
                assert(prevs[i] == samples[i] && prevs[j] == samples[j]);
            } else {
                let i = choose|i: int| 0 <= i < prevs.len() && #[trigger] pv[a] == flagged(prevs[i], fav);
                assert(prevs[i] == samples[i]);
                assert(v[b] == flagged(samples[n], fav));
            }
        }
    }
}

/// A command that names a sample is refused as naming an unknown sample
/// exactly when the sample is not kick, snare or hat; a search or a stop
/// names no sample.
pub proof fn law_unknown_samples(c: Command)
    ensures
        match c {
            Command::SelectSample { sample_id, .. } => (names_unknown_sample(c) == Some(sample_id))
                == !(sample_id == 1 || sample_id == 2 || sample_id == 3) && (names_unknown_sample(c)
                is None || names_unknown_sample(c) == Some(sample_id)),
            Command::StartPreview { sample_id, .. } => (names_unknown_sample(c) == Some(sample_id))
                == !(sample_id == 1 || sample_id == 2 || sample_id == 3) && (names_unknown_sample(c)
                is None || names_unknown_sample(c) == Some(sample_id)),
            Command::ToggleFavorite { sample_id, .. } => (names_unknown_sample(c) == Some(sample_id))
                == !(sample_id == 1 || sample_id == 2 || sample_id == 3) && (names_unknown_sample(c)
                is None || names_unknown_sample(c) == Some(sample_id)),
            _ => names_unknown_sample(c) is None,
        },
{
}

/// A snapshot of the fixture lists each sample exactly when its name
/// contains the lowered query anywhere (every sample for an empty query),
/// flagged by whether it is among the state's favorites.
pub proof fn law_snapshot_lists_matching_samples(revision: Revision, st: AppView, samples: Seq<SampleSummary>)
    requires
        is_fixture(samples),
    ensures
        forall|k: int|
            0 <= k < samples.len() ==> (lists_sample(
                snapshot_model(revision, st, samples).2,
                #[trigger] samples[k].id,
            ) <==> (st.0.len() == 0 || seq_contains(samples[k].name@, ascii_lower(st.0)))),
        forall|j: int|
            0 <= j < snapshot_model(revision, st, samples).2.len() ==> exists|k: int|
                0 <= k < samples.len() && #[trigger] snapshot_model(revision, st, samples).2[j]
                    == flagged(samples[k], st.3),
{
    assert(ascii_lower(st.0).len() == st.0.len());
    law_visible_samples_match_query(samples, ascii_lower(st.0), st.3);
}

/// A deterministic record of one attempted command.
#[derive(Debug, PartialEq, Eq)]
pub struct TraceEntry {
    pub command: Command,
    pub outcome: TraceOutcome,
}

/// The outcome of one attempted command, including rejections.
#[derive(Debug, PartialEq, Eq)]
pub enum TraceOutcome {
    Published(Revision),
    Rejected(BackendError),
}

impl Clone for TraceOutcome {
    fn clone(&self) -> (c: Self)
        ensures
            c == *self,
    {
        match self {
            TraceOutcome::Published(r) => TraceOutcome::Published(*r),
            TraceOutcome::Rejected(e) => TraceOutcome::Rejected(e.clone()),
        }
    }
}

impl Clone for TraceEntry {
    fn clone(&self) -> (c: Self)
        ensures
            c == *self,
    {
        TraceEntry { command: self.command.clone(), outcome: self.outcome.clone() }
    }
}

/// The decoded application-visible state.
#[derive(Clone, Debug, PartialEq, Eq)]
pub struct StateSnapshot {
    pub revision: Revision,
    pub query: String,
    pub visible_samples: Vec<SampleSummary>,
    pub selected_sample: Option<u32>,
    pub preview_sample: Option<u32>,
    pub favorite_samples: BTreeSet<u32>,
    pub indexing_percent: u8,
    pub waveform: Option<WaveformRef>,
}

/// The model of a snapshot: revision, query, visible samples, selection,
/// preview, favorites, indexing percentage and waveform reference.
pub type SnapshotModel = (
    Revision,
    Seq<char>,
    Seq<SampleModel>,
    Option<u32>,
    Option<u32>,
    Set<u32>,
    u8,
    Option<(Seq<char>, usize)>,
);

pub open spec fn snapshot_view(s: StateSnapshot) -> SnapshotModel {
    (s.revision, s.query@, s.visible_samples@.map_values(|x: SampleSummary| summary_view(x)),
    s.selected_sample, s.preview_sample, s.favorite_samples@, s.indexing_percent, match s.waveform {
        Some(w) => Some(w@),
        None => None,
    })
}

/// The snapshot of state `st` published at `revision` over `samples`.
pub open spec fn snapshot_model(revision: Revision, st: AppView, samples: Seq<SampleSummary>) -> SnapshotModel {
    (revision, st.0, visible_spec(samples, ascii_lower(st.0), st.3), st.1, st.2, st.3, st.4, st.5)
}

/// Whether `bits` is the bit pattern of a finite 32-bit float: its exponent
/// field is not all ones.
pub open spec fn finite_f32_bits(bits: u32) -> bool {
    bits & 0x7f80_0000u32 != 0x7f80_0000u32
}

/// A deliberately small backend over the bounded mechanisms: commands are
/// ordered operations, state is a revisioned publication, the waveform is one
/// immutable resource and the meter a latest-value telemetry slot.
#[derive(Debug)]
pub struct SyntheticBackend {
    samples: Vec<SampleSummary>,
    state: AppState,
    publisher: StatePublisher,
    resources: ResourceRegistry,
    waveform_handle: ResourceHandle,
    waveform_ref: WaveformRef,
    meter: LatestTelemetry,
    trace: Vec<TraceEntry>,
}

/// Whether postcard encodes the initial state within the state limit.
pub open spec fn initial_state_encodes() -> bool {
    postcard_state_encoding(wire_of(crate::synthetic::initial_app_view())) matches Some(b) && b.len()
        <= MAX_STATE_BYTES
}

/// Whether building the backend may end with `e`: the allocator refusing the
/// waveform's registry slot or the meter's storage, or any error at all
/// where the initial state cannot be encoded within the state limit.
pub open spec fn setup_error(e: BackendError) -> bool {
    ||| e == BackendError::Core(CoreError::AllocationFailed { kind: "resource registry" })
    ||| e == BackendError::Core(CoreError::AllocationFailed { kind: "telemetry slot" })
    ||| !initial_state_encodes()
}

impl SyntheticBackend {
    /// The backend's invariant apart from its publication: the fixture, the
    /// mechanisms' limits, the waveform reference, and a valid state.
    pub closed spec fn core_wf(&self) -> bool {
        &&& is_fixture(self.samples@)
        &&& self.publisher.wf()
        &&& self.publisher.spec_max_state_bytes() == MAX_STATE_BYTES
        &&& self.resources.wf()
        &&& self.resources@.len() == 1
        &&& self.waveform_handle.id == 1
        &&& (self.resources@[0].1 is Some ==> self.resources@[0].0 == self.waveform_handle.generation)
        &&& self.meter.wf()
        &&& self.meter.spec_width() == METER_WIDTH
        &&& self.waveform_ref@ == (WAVEFORM_KEY@, 64usize)
        &&& self.spec_state_valid(self.state@)
    }

    /// The backend's invariant: the core invariant, and the current
    /// publication decodes, with nothing left over, to the current state.
    pub closed spec fn wf(&self) -> bool {
        &&& self.core_wf()
        &&& self.publisher@ matches Some(p) && p.1 == STATE_SCHEMA && ({
            let decoded = postcard_state_decoding(p.2);
            &&& p.2.len() <= MAX_STATE_BYTES
            &&& decoded matches Some((w, rest)) && rest == 0 && wire_valid(w) && app_of_wire(w)
                == self.state@
        })
    }

    /// Whether a state may be published: it can be encoded, its indexing
    /// percentage is at most one hundred, it names only fixture samples, and
    /// it references no resource but the waveform.
    pub open spec fn spec_state_valid(&self, s: AppView) -> bool {
        &&& encodable(s)
        &&& s.4 <= 100
        &&& (s.1 matches Some(id) ==> known_sample(id))
        &&& (s.2 matches Some(id) ==> known_sample(id))
        &&& (s.5 matches Some(w) ==> w == (WAVEFORM_KEY@, 64usize))
    }

    /// The current application state.
    pub closed spec fn spec_state(&self) -> AppView {
        self.state@
    }

    /// The latest published revision, zero before the first.
    pub closed spec fn spec_revision(&self) -> nat {
        self.publisher.spec_latest_revision()
    }

    /// The current publication.
    pub closed spec fn spec_publication(&self) -> Option<(Revision, u32, Seq<u8>)> {
        self.publisher@
    }

    /// The fixture samples.
    pub closed spec fn spec_samples(&self) -> Seq<SampleSummary> {
        self.samples@
    }

    /// The command trace.
    pub closed spec fn spec_trace(&self) -> Seq<TraceEntry> {
        self.trace@
    }

    /// The resource registry's slots.
    pub closed spec fn spec_resources(&self) -> Seq<SlotView> {
        self.resources@
    }

    /// The handle of the waveform resource.
    pub closed spec fn spec_waveform_handle(&self) -> ResourceHandle {
        self.waveform_handle
    }

    /// The meter's publication count and latest words.
    pub closed spec fn spec_meter(&self) -> (nat, Seq<usize>) {
        self.meter@
    }

    /// The waveform reference's model.
    pub open spec fn waveform_model() -> (Seq<char>, usize) {
        (WAVEFORM_KEY@, 64usize)
    }

    /// Builds the fixture and publishes its empty state at revision one.
    pub fn new() -> (r: Result<Self, BackendError>)
        ensures
            r matches Err(e) ==> setup_error(e),
            r matches Ok(b) ==> {
                &&& b.wf()
                &&& is_fixture(b.spec_samples())
                &&& b.spec_revision() == 1
                &&& b.spec_state() == crate::synthetic::initial_app_view()
                &&& b.spec_trace() == Seq::<TraceEntry>::empty()
                &&& lookup(b.spec_resources(), b.spec_waveform_handle()) == Ok::<Seq<u8>, CoreError>(
                    WAVEFORM@,
                )
                &&& live_count(b.spec_resources()) == 1
                &&& b.spec_meter().0 == 0
            },
    {
        let samples = vec![
            SampleSummary { id: SAMPLE_KICK, name: "kick", duration_ms: 420, favorite: false },
            SampleSummary { id: SAMPLE_SNARE, name: "snare", duration_ms: 310, favorite: false },
            SampleSummary { id: SAMPLE_HAT, name: "hat", duration_ms: 180, favorite: false },
        ];
        let mut resources = match ResourceRegistry::new(4, 64 * 1024) {
            Ok(r) => r,
            Err(e) => {
                return Err(BackendError::from(e));
            },
        };
        let waveform_handle = match resources.insert(&WAVEFORM) {
            Ok(h) => h,
            Err(e) => {
                return Err(BackendError::from(e));
            },
        };
        let waveform_ref = WaveformRef { resource_key: WAVEFORM_KEY, byte_len: WAVEFORM.len() };
        let publisher = match StatePublisher::new(MAX_STATE_BYTES) {
            Ok(p) => p,
            Err(e) => {
                return Err(BackendError::from(e));
            },
        };
        let meter = match LatestTelemetry::new(METER_WIDTH) {
            Ok(m) => m,
            Err(e) => {
                return Err(BackendError::from(e));
            },
        };
        let mut backend = SyntheticBackend {
            samples,
            state: AppState::initial(),
            publisher,
            resources,
            waveform_handle,
            waveform_ref,
            meter,
            trace: Vec::new(),
        };
        proof {
            assert(backend.resources@ =~= Seq::<SlotView>::empty().push((1u64, Some(WAVEFORM@))));
            assert(live_count(backend.resources@) == 1) by {
                assert(backend.resources@.drop_last() =~= Seq::<SlotView>::empty());
            }
            assert(backend.state@.3 =~= Set::<u32>::empty());
            assert(byte_len(backend.state@.0) == 0) by {
                assert(backend.state@.0 =~= Seq::<char>::empty());
            }
        }
        let initial = backend.state.clone();
        match backend.publish_state(initial) {
            Ok(_) => {},
            Err(e) => {
                return Err(e);
            },
        }
        Ok(backend)
    }

    fn current_revision(&self) -> (r: Revision)
        requires
            self.publisher.wf(),
        ensures
            r == self.spec_revision(),
    {
        match self.publisher.latest_revision() {
            Some(revision) => revision,
            None => 0,
        }
    }

    fn require_sample(&self, id: u32) -> (r: Result<(), BackendError>)
        requires
            is_fixture(self.samples@),
        ensures
            known_sample(id) ==> r is Ok,
            !known_sample(id) ==> r == Err::<(), BackendError>(BackendError::UnknownSample(id)),
    {
        let mut i: usize = 0;
        while i < self.samples.len()
            invariant
                is_fixture(self.samples@),
                i <= self.samples@.len(),
                forall|j: int| 0 <= j < i ==> self.samples@[j].id != id,
            decreases self.samples@.len() - i,
        {
            if self.samples[i].id == id {
                return Ok(());
            }
            i = i + 1;
        }
        Err(BackendError::UnknownSample(id))
    }

    /// Checks that a decoded state names only fixture samples and references
    /// only the waveform resource.
    fn validate_state(&self, state: &AppState) -> (r: Result<(), BackendError>)
        requires
            is_fixture(self.samples@),
            self.waveform_ref@ == (WAVEFORM_KEY@, 64usize),
        ensures
            match state@.1 {
                Some(id) => !known_sample(id) ==> r == Err::<(), BackendError>(
                    BackendError::UnknownSample(id),
                ),
                None => true,
            },
            (state@.1 matches Some(id) ==> known_sample(id)) ==> match state@.2 {
                Some(id) => !known_sample(id) ==> r == Err::<(), BackendError>(
                    BackendError::UnknownSample(id),
                ),
                None => true,
            },
            r is Ok <==> ((state@.1 matches Some(id) ==> known_sample(id)) && (state@.2 matches Some(
                id,
            ) ==> known_sample(id)) && crate::synthetic::favorites_known(state@.3) && (
            state@.5 matches Some(w) ==> w == (WAVEFORM_KEY@, 64usize))),
            r matches Err(e) ==> e is UnknownSample || e is InvalidState,
    {
        if let Some(id) = state.selected_sample {
            match self.require_sample(id) {
                Ok(()) => {},
                Err(e) => {
                    return Err(e);
                },
            }
        }
        if let Some(id) = state.preview_sample {
            match self.require_sample(id) {
                Ok(()) => {},
                Err(e) => {
                    return Err(e);
                },
            }
        }
        for sample_id in it: state.favorite_samples.iter()
            invariant
                is_fixture(self.samples@),
                state@.1 matches Some(id) ==> known_sample(id),
                state@.2 matches Some(id) ==> known_sample(id),
                it.seq().unref().to_set() == state.favorite_samples@,
                forall|j: int| 0 <= j < it.index() ==> known_sample(*#[trigger] it.seq()[j]),
                it.index() == it.seq().len() ==> crate::synthetic::favorites_known(state@.3),
        {
            match self.require_sample(*sample_id) {
                Ok(()) => {},
                Err(e) => {
                    proof {
                        assert(it.seq().unref()[it.index() as int] == *it.seq()[it.index() as int]);
                        assert(it.seq().unref().to_set().contains(*it.seq()[it.index() as int]));
                        assert(!crate::synthetic::favorites_known(state@.3));
                    }
                    return Err(e);
                },
            }
        }
        assert(crate::synthetic::favorites_known(state@.3));
        if let Some(reference) = &state.waveform {
            if !str_equal(reference.resource_key, self.waveform_ref.resource_key) || reference.byte_len
                != self.waveform_ref.byte_len {
                return Err(
                    BackendError::InvalidState(
                        String::from_str("waveform reference does not name the immutable resource"),
                    ),
                );
            }
        }
        Ok(())
    }

    /// Encodes `candidate`, checks that the encoding decodes back to a valid
    /// state, and publishes it. Nothing changes unless publication succeeds.
    fn publish_state(&mut self, candidate: AppState) -> (r: Result<Revision, BackendError>)
        requires
            old(self).core_wf(),
        ensures
            final(self).core_wf(),
            final(self).spec_samples() == old(self).spec_samples(),
            final(self).spec_trace() == old(self).spec_trace(),
            final(self).spec_resources() == old(self).spec_resources(),
            final(self).spec_waveform_handle() == old(self).spec_waveform_handle(),
            final(self).spec_meter() == old(self).spec_meter(),
            old(self).spec_state_valid(candidate@) && (postcard_state_encoding(wire_of(candidate@)) matches Some(
                b,
            ) && b.len() <= MAX_STATE_BYTES) && old(self).spec_revision() + 1 < u64::MAX ==> r is Ok,
            !old(self).spec_state_valid(candidate@) ==> r is Err,
            r matches Ok(rev) ==> {
                &&& rev == old(self).spec_revision() + 1
                &&& old(self).spec_revision() + 1 < u64::MAX
                &&& postcard_state_encoding(wire_of(candidate@)) matches Some(b) && b.len()
                    <= MAX_STATE_BYTES
                &&& final(self).wf()
                &&& final(self).spec_state() == candidate@
                &&& final(self).spec_revision() == rev
            },
            r is Err ==> final(self).spec_state() == old(self).spec_state()
                && final(self).spec_publication() == old(self).spec_publication(),
    {
        proof {
            old(self).publisher.lemma_bounds();
        }
        let payload = match encode_state(&candidate) {
            Ok(payload) => payload,
            Err(e) => {
                return Err(e);
            },
        };
        proof {
            if candidate@.4 <= 100 {
                lemma_wire_round_trip(candidate@);
            }
        }
        let decoded = match decode_state(payload.as_slice()) {
            Ok(decoded) => decoded,
            Err(e) => {
                return Err(e);
            },
        };
        match self.validate_state(&decoded) {
            Ok(()) => {},
            Err(e) => {
                return Err(e);
            },
        }
        let revision = match self.publisher.publish(STATE_SCHEMA, payload.as_slice()) {
            Ok(revision) => revision,
            Err(e) => {
                return Err(BackendError::from(e));
            },
        };
        self.state = candidate;
        Ok(revision)
    }

    /// Decodes a raw payload and publishes it unchanged if it is a valid
    /// state; a refused payload leaves the last publication in place.
    pub fn try_publish_raw_for_test(&mut self, payload: &[u8]) -> (r: Result<Revision, BackendError>)
        requires
            old(self).wf(),
        ensures
            final(self).wf(),
            final(self).spec_trace() == old(self).spec_trace(),
            payload@.len() > MAX_STATE_BYTES ==> r == Err::<Revision, BackendError>(
                BackendError::StateTooLarge { bytes: payload@.len() as usize, maximum: MAX_STATE_BYTES },
            ),
            payload@.len() <= MAX_STATE_BYTES && postcard_state_decoding(payload@) is None ==> (r matches Err(
                e,
            ) && e is InvalidState),
            r matches Ok(rev) ==> rev == old(self).spec_revision() + 1 && final(self).spec_revision()
                == rev,
            r is Err ==> final(self).spec_state() == old(self).spec_state() && final(self).spec_revision()
                == old(self).spec_revision() && final(self).spec_publication() == old(self).spec_publication(),
    {
        proof {
            old(self).publisher.lemma_bounds();
        }
        let candidate = match decode_state(payload) {
            Ok(candidate) => candidate,
            Err(e) => {
                return Err(e);
            },
        };
        match self.validate_state(&candidate) {
            Ok(()) => {},
            Err(e) => {
                return Err(e);
            },
        }
        let revision = match self.publisher.publish(STATE_SCHEMA, payload) {
            Ok(revision) => revision,
            Err(e) => {
                return Err(BackendError::from(e));
            },
        };
        self.state = candidate;
        Ok(revision)
    }

    /// The visible samples for `state`: those whose name contains the
    /// lowered query, each flagged by whether it is a favorite.
    fn visible_samples(&self, state: &AppState) -> (v: Vec<SampleSummary>)
        ensures
            v@.map_values(|x: SampleSummary| summary_view(x)) == visible_spec(
                self.samples@,
                ascii_lower(state@.0),
                state@.3,
            ),
    {
        let query = ascii_lowercase(state.query.as_str());
        let mut visible: Vec<SampleSummary> = Vec::new();
        let mut i: usize = 0;
        while i < self.samples.len()
            invariant
                i <= self.samples@.len(),
                query@ == ascii_lower(state@.0),
                visible@.map_values(|x: SampleSummary| summary_view(x)) == visible_spec(
                    self.samples@.subrange(0, i as int),
                    query@,
                    state@.3,
                ),
            decreases self.samples@.len() - i,
        {
            let sample = self.samples[i];
            proof {
                assert(self.samples@.subrange(0, i + 1).drop_last() =~= self.samples@.subrange(
                    0,
                    i as int,
                ));
                assert(self.samples@.subrange(0, i + 1).last() == sample);
            }
            if query.as_str().is_empty() || str_contains(sample.name, query.as_str()) {
                let ghost before = visible@;
                let shown = SampleSummary {
                    id: sample.id,
                    name: sample.name,
                    duration_ms: sample.duration_ms,
                    favorite: state.favorite_samples.contains(&sample.id),
                };
                visible.push(shown);
                proof {
                    assert(visible@.map_values(|x: SampleSummary| summary_view(x)) =~= before.map_values(
                        |x: SampleSummary| summary_view(x),
                    ).push(summary_view(shown)));
                }
            }
            i = i + 1;
        }
        proof {
            assert(self.samples@.subrange(0, i as int) =~= self.samples@);
        }
        visible
    }

    /// Reads and decodes the current publication. The publication, not the
    /// backend's fields, is the source of the returned revision and state.
    pub fn read_state(&self) -> (r: Result<StateSnapshot, BackendError>)
        requires
            self.wf(),
        ensures
            r matches Ok(s) && snapshot_view(s) == snapshot_model(
                self.spec_revision() as u64,
                self.spec_state(),
                self.spec_samples(),
            ),
    {
        let publication = match self.publisher.read() {
            Some(p) => p,
            None => {
                return Err(BackendError::InvalidState(String::from_str("no initial publication")));
            },
        };
        let state = match decode_state(publication.payload()) {
            Ok(state) => state,
            Err(e) => {
                return Err(e);
            },
        };
        let visible_samples = self.visible_samples(&state);
        let AppState {
            query,
            selected_sample,
            preview_sample,
            favorite_samples,
            indexing_percent,
            waveform,
        } = state;
        Ok(
            StateSnapshot {
                revision: publication.revision(),
                query,
                visible_samples,
                selected_sample,
                preview_sample,
                favorite_samples,
                indexing_percent,
                waveform,
            },
        )
    }
    /// Applies one command under the reject-on-stale policy.
    ///
    /// A command issued against any revision but the latest is refused, as
    /// is an oversized query or an unknown sample; otherwise the command's
    /// state is published and its snapshot returned. Every attempt, refused
    /// or not, is appended to the trace, and a refused one leaves the last
    /// publication in place.
    pub fn dispatch(&mut self, command: Command) -> (r: Result<StateSnapshot, BackendError>)
        requires
            old(self).wf(),
        ensures
            final(self).wf(),
            final(self).spec_samples() == old(self).spec_samples(),
            final(self).spec_resources() == old(self).spec_resources(),
            final(self).spec_waveform_handle() == old(self).spec_waveform_handle(),
            final(self).spec_meter() == old(self).spec_meter(),
            command_revision(command) != old(self).spec_revision() ==> r == Err::<
                StateSnapshot,
                BackendError,
            >(
                BackendError::StaleRevision {
                    expected: old(self).spec_revision() as u64,
                    supplied: command_revision(command),
                },
            ),
            command_revision(command) == old(self).spec_revision() ==> match command {
                Command::SetSearch { query, .. } => byte_len(query@) > MAX_QUERY_BYTES ==> r == Err::<
                    StateSnapshot,
                    BackendError,
                >(BackendError::QueryTooLarge { bytes: byte_len(query@) as usize, maximum: MAX_QUERY_BYTES }),
                _ => true,
            },
            command_revision(command) == old(self).spec_revision() ==> match names_unknown_sample(
                command,
            ) {
                Some(id) => r == Err::<StateSnapshot, BackendError>(BackendError::UnknownSample(id)),
                None => true,
            },
            command_revision(command) == old(self).spec_revision() && names_unknown_sample(command)
                is None && !(command matches Command::SetSearch { query, .. } && byte_len(query@)
                > MAX_QUERY_BYTES) && (postcard_state_encoding(
                wire_of(apply_command(old(self).spec_state(), command, Self::waveform_model())),
            ) matches Some(b) && b.len() <= MAX_STATE_BYTES) && old(self).spec_revision() + 1
                < u64::MAX ==> r is Ok,
            r is Ok <==> dispatch_accepts(old(self).spec_state(), old(self).spec_revision(), command),
            r matches Ok(snapshot) ==> {
                let next = apply_command(old(self).spec_state(), command, Self::waveform_model());
                &&& final(self).spec_state() == next
                &&& final(self).spec_revision() == old(self).spec_revision() + 1
                &&& snapshot_view(snapshot) == snapshot_model(
                    (old(self).spec_revision() + 1) as u64,
                    next,
                    old(self).spec_samples(),
                )
                &&& final(self).spec_trace() == old(self).spec_trace().push(
                    TraceEntry {
                        command,
                        outcome: TraceOutcome::Published((old(self).spec_revision() + 1) as u64),
                    },
                )
            },
            r matches Err(e) ==> {
                &&& final(self).spec_state() == old(self).spec_state()
                &&& final(self).spec_revision() == old(self).spec_revision()
                &&& final(self).spec_publication() == old(self).spec_publication()
                &&& final(self).spec_trace() == old(self).spec_trace().push(
                    TraceEntry { command, outcome: TraceOutcome::Rejected(e) },
                )
            },
    {
        proof {
            old(self).publisher.lemma_bounds();
        }
        let supplied = command.based_on_revision();
        let expected = self.current_revision();
        if supplied != expected {
            let error = BackendError::StaleRevision { expected, supplied };
            self.trace.push(TraceEntry { command, outcome: TraceOutcome::Rejected(error.clone()) });
            return Err(error);
        }
        let mut candidate = self.state.clone();
        let result: Result<(), BackendError> = match &command {
            Command::SetSearch { query, .. } => {
                let query_bytes = query.as_str().as_bytes().len();
                if query_bytes > MAX_QUERY_BYTES {
                    Err(BackendError::QueryTooLarge { bytes: query_bytes, maximum: MAX_QUERY_BYTES })
                } else {
                    candidate.query = query.clone();
                    Ok(())
                }
            },
            Command::SelectSample { sample_id, .. } => match self.require_sample(*sample_id) {
                Ok(()) => {
                    candidate.selected_sample = Some(*sample_id);
                    candidate.waveform = Some(self.waveform_ref);
                    Ok(())
                },
                Err(e) => Err(e),
            },
            Command::StartPreview { sample_id, .. } => match self.require_sample(*sample_id) {
                Ok(()) => {
                    candidate.preview_sample = Some(*sample_id);
                    Ok(())
                },
                Err(e) => Err(e),
            },
            Command::StopPreview { .. } => {
                candidate.preview_sample = None;
                Ok(())
            },
            Command::ToggleFavorite { sample_id, .. } => match self.require_sample(*sample_id) {
                Ok(()) => {
                    if !candidate.favorite_samples.insert(*sample_id) {
                        candidate.favorite_samples.remove(sample_id);
                    }
                    Ok(())
                },
                Err(e) => Err(e),
            },
        };
        if let Err(error) = result {
            self.trace.push(TraceEntry { command, outcome: TraceOutcome::Rejected(error.clone()) });
            return Err(error);
        }
        proof {
            assert(candidate@ == apply_command(old(self).spec_state(), command, Self::waveform_model()));
            assert(self.spec_state_valid(candidate@)) by {
                if let Command::ToggleFavorite { sample_id, .. } = command {
                    assert(crate::synthetic::favorites_known(candidate@.3));
                }
            }
        }
        let published = candidate.clone();
        let revision = match self.publish_state(published) {
            Ok(revision) => revision,
            Err(error) => {
                self.trace.push(TraceEntry { command, outcome: TraceOutcome::Rejected(error.clone()) });
                return Err(error);
            },
        };
        self.state = candidate;
        self.trace.push(TraceEntry { command, outcome: TraceOutcome::Published(revision) });
        self.read_state()
    }

    /// Maps the one waveform reference to an immutable view of its bytes.
    pub fn map_waveform(&self, reference: &WaveformRef) -> (r: Result<ResourceView, BackendError>)
        requires
            self.wf(),
        ensures
            reference@ != Self::waveform_model() ==> (r matches Err(e) && invalid_state(
                e,
                "unknown waveform reference"@,
            )),
            reference@ == Self::waveform_model() ==> match lookup(
                self.spec_resources(),
                self.spec_waveform_handle(),
            ) {
                Ok(bytes) => r matches Ok(view) && view@ == (self.spec_waveform_handle(), bytes),
                Err(e) => r == Err::<ResourceView, BackendError>(BackendError::Core(e)),
            },
    {
        if !str_equal(reference.resource_key, self.waveform_ref.resource_key) || reference.byte_len
            != self.waveform_ref.byte_len {
            return Err(BackendError::InvalidState(String::from_str("unknown waveform reference")));
        }
        match self.resources.get(self.waveform_handle) {
            Ok(view) => Ok(view),
            Err(e) => Err(BackendError::from(e)),
        }
    }

    /// Releases the registry's ownership of the waveform while publications
    /// still reference it: views already mapped stay valid, and new maps fail.
    pub fn release_waveform_for_test(&mut self) -> (r: Result<(), BackendError>)
        requires
            old(self).wf(),
        ensures
            final(self).wf(),
            final(self).spec_state() == old(self).spec_state(),
            final(self).spec_revision() == old(self).spec_revision(),
            final(self).spec_publication() == old(self).spec_publication(),
            final(self).spec_trace() == old(self).spec_trace(),
            final(self).spec_waveform_handle() == old(self).spec_waveform_handle(),
            final(self).spec_samples() == old(self).spec_samples(),
            final(self).spec_meter() == old(self).spec_meter(),
            ({
                let h = old(self).spec_waveform_handle();
                match lookup(old(self).spec_resources(), h) {
                    Err(e) => r == Err::<(), BackendError>(BackendError::Core(e))
                        && final(self).spec_resources() == old(self).spec_resources(),
                    Ok(_) => if h.generation < u64::MAX {
                        r == Ok::<(), BackendError>(()) && final(self).spec_resources() == old(
                            self,
                        ).spec_resources().update(
                            h.id - 1,
                            ((h.generation + 1) as u64, None::<Seq<u8>>),
                        )
                    } else {
                        r == Err::<(), BackendError>(BackendError::Core(CoreError::RevisionExhausted))
                            && final(self).spec_resources() == old(self).spec_resources().update(
                            h.id - 1,
                            (h.generation, None::<Seq<u8>>),
                        )
                    },
                }
            }),
    {
        match self.resources.release(self.waveform_handle) {
            Ok(()) => Ok(()),
            Err(e) => Err(BackendError::from(e)),
        }
    }

    /// Publishes a meter sample given as the bit patterns of two 32-bit
    /// floats. A non-finite value is refused.
    pub fn publish_meter_bits(&mut self, left_bits: u32, right_bits: u32) -> (r: Result<
        Revision,
        BackendError,
    >)
        requires
            old(self).wf(),
        ensures
            final(self).wf(),
            final(self).spec_state() == old(self).spec_state(),
            final(self).spec_publication() == old(self).spec_publication(),
            final(self).spec_revision() == old(self).spec_revision(),
            final(self).spec_trace() == old(self).spec_trace(),
            final(self).spec_resources() == old(self).spec_resources(),
            final(self).spec_waveform_handle() == old(self).spec_waveform_handle(),
            !finite_f32_bits(left_bits) || !finite_f32_bits(right_bits) ==> (r matches Err(e)
                && invalid_state(e, "meter must be finite"@)),
            finite_f32_bits(left_bits) && finite_f32_bits(right_bits) && old(self).spec_meter().0
                < LatestTelemetry::max_sequence() ==> r == Ok::<Revision, BackendError>(
                (old(self).spec_meter().0 + 1) as u64,
            ) && final(self).spec_meter() == (
                old(self).spec_meter().0 + 1,
                seq![left_bits as usize, right_bits as usize],
            ),
            finite_f32_bits(left_bits) && finite_f32_bits(right_bits) && old(self).spec_meter().0
                == LatestTelemetry::max_sequence() ==> r == Err::<Revision, BackendError>(
                BackendError::Core(CoreError::RevisionExhausted),
            ),
            r is Err ==> final(self).spec_meter() == old(self).spec_meter(),
    {
        if left_bits & 0x7f80_0000 == 0x7f80_0000 || right_bits & 0x7f80_0000 == 0x7f80_0000 {
            return Err(BackendError::InvalidState(String::from_str("meter must be finite")));
        }
        let values: [usize; 2] = [left_bits as usize, right_bits as usize];
        proof {
            self.meter.lemma_bounds();
            assert(values@ =~= seq![left_bits as usize, right_bits as usize]);
        }
        match self.meter.publish(&values) {
            Ok(sequence) => Ok(sequence),
            Err(e) => Err(BackendError::from(e)),
        }
    }

    /// Reads the newest meter sample as its sequence and the two values' bit
    /// patterns. Older samples may have been overwritten.
    pub fn read_meter_bits(&self) -> (r: Result<(Revision, u32, u32), BackendError>)
        requires
            self.wf(),
        ensures
            self.spec_meter().0 == 0 ==> r == Err::<(Revision, u32, u32), BackendError>(
                BackendError::Core(CoreError::NoTelemetry),
            ),
            self.spec_meter().0 > 0 ==> r == Ok::<(Revision, u32, u32), BackendError>(
                (
                    self.spec_meter().0 as u64,
                    self.spec_meter().1[0] as u32,
                    self.spec_meter().1[1] as u32,
                ),
            ),
    {
        proof {
            self.meter.lemma_bounds();
        }
        let mut values: [usize; 2] = [0, 0];
        let sequence = match self.meter.read_into(&mut values) {
            Ok(sequence) => sequence,
            Err(e) => {
                return Err(BackendError::from(e));
            },
        };
        Ok((sequence, values[0] as u32, values[1] as u32))
    }

    /// Returns a copy of the command trace.
    pub fn trace(&self) -> (t: Vec<TraceEntry>)
        ensures
            t@ == self.spec_trace(),
    {
        let mut copy: Vec<TraceEntry> = Vec::new();
        let mut i: usize = 0;
        while i < self.trace.len()
            invariant
                i <= self.trace@.len(),
                copy@ == self.trace@.subrange(0, i as int),
            decreases self.trace@.len() - i,
        {
            copy.push(self.trace[i].clone());
            i = i + 1;
            proof {
                assert(copy@ =~= self.trace@.subrange(0, i as int));
            }
        }
        proof {
            assert(self.trace@.subrange(0, i as int) =~= self.trace@);
        }
        copy
    }

    /// The registry holds one slot, the waveform's: exactly one resource is
    /// live while the waveform resolves, and none once it has been released.
    /// No command, publication or read adds or drops a registry entry, so a
    /// backend keeps exactly one live resource from `new` on until the
    /// waveform is released.
    pub proof fn law_waveform_is_the_only_resource(&self)
        requires
            self.wf(),
        ensures
            live_count(self.spec_resources()) == if lookup(
                self.spec_resources(),
                self.spec_waveform_handle(),
            ) is Ok {
                1nat
            } else {
                0nat
            },
            live_count(self.spec_resources()) <= 1,
    {
        let slots = self.resources@;
        assert(self.core_wf());
        assert(slots.drop_last() =~= Seq::<SlotView>::empty());
        assert(live_count(Seq::<SlotView>::empty()) == 0);
        assert(live_count(slots) == live_count(slots.drop_last()) + if slots.last().1 is Some {
            1nat
        } else {
            0nat
        });
    }

    /// Returns the number of live registry resources; the fixture keeps
    /// exactly the waveform throughout normal operation.
    pub fn live_resource_count(&self) -> (n: usize)
        ensures
            n == live_count(self.spec_resources()),
    {
        self.resources.len()
    }
}

/// Whether a backend in state `s` at revision `revision` publishes command
/// `c`: it names the current revision and only fixture samples, its query is
/// within the limit, the next state encodes within the state limit, and the
/// revision counter has room.
pub open spec fn dispatch_accepts(s: AppView, revision: nat, c: Command) -> bool {
    &&& command_revision(c) == revision
    &&& names_unknown_sample(c) is None
    &&& !(c matches Command::SetSearch { query, .. } && byte_len(query@) > MAX_QUERY_BYTES)
    &&& postcard_state_encoding(
        wire_of(apply_command(s, c, SyntheticBackend::waveform_model())),
    ) matches Some(b) && b.len() <= MAX_STATE_BYTES
    &&& revision + 1 < u64::MAX
}

/// The state and revision a fresh backend reaches after `commands`: each
/// accepted command applies and advances the revision, a refused one
/// changes nothing.
pub open spec fn replay_model(commands: Seq<Command>) -> (AppView, nat)
    decreases commands.len(),
{
    if commands.len() == 0 {
        (crate::synthetic::initial_app_view(), 1)
    } else {
        let before = replay_model(commands.drop_last());
        if dispatch_accepts(before.0, before.1, commands.last()) {
            (
                apply_command(before.0, commands.last(), SyntheticBackend::waveform_model()),
                before.1 + 1,
            )
        } else {
            before
        }
    }
}

/// The number of published outcomes in a trace.
pub open spec fn published_count(t: Seq<TraceEntry>) -> nat
    decreases t.len(),
{
    if t.len() == 0 {
        0
    } else {
        published_count(t.drop_last()) + if t.last().outcome is Published {
            1nat
        } else {
            0nat
        }
    }
}

/// Whether the entry at `i` of a replay's trace follows the revision
/// discipline: the revision before it is one more than the publications
/// before it; a command issued against another revision is rejected as
/// stale, naming both; and a publication carries the next revision.
pub open spec fn replayed_entry_ok(t: Seq<TraceEntry>, i: int) -> bool {
    let current = 1 + published_count(t.take(i));
    &&& command_revision(t[i].command) != current ==> t[i].outcome == TraceOutcome::Rejected(
        BackendError::StaleRevision { expected: current as u64, supplied: command_revision(t[i].command) },
    )
    &&& t[i].outcome matches TraceOutcome::Published(r) ==> r == current + 1
}

proof fn lemma_published_count_push(t: Seq<TraceEntry>, e: TraceEntry)
    ensures
        published_count(t.push(e)) == published_count(t) + if e.outcome is Published {
            1nat
        } else {
            0nat
        },
        forall|i: int| 0 <= i <= t.len() ==> #[trigger] t.push(e).take(i) == t.take(i),
{
    assert(t.push(e).drop_last() =~= t);
    assert forall|i: int| 0 <= i <= t.len() implies #[trigger] t.push(e).take(i) == t.take(i) by {
        assert(t.push(e).take(i) =~= t.take(i));
    }
}

/// Replays commands against a fresh backend and returns its trace and final
/// snapshot. The trace has one entry per command, in order; each follows
/// the revision discipline, and the final revision is one more than the
/// number of publications.
pub fn replay_trace(commands: &[Command]) -> (r: Result<(Vec<TraceEntry>, StateSnapshot), BackendError>)
    ensures
        r matches Err(e) ==> setup_error(e),
        r matches Ok((trace, snapshot)) ==> {
            &&& trace@.len() == commands@.len()
            &&& forall|i: int| 0 <= i < commands@.len() ==> #[trigger] trace@[i].command == commands@[i]
            &&& forall|i: int| 0 <= i < commands@.len() ==> #[trigger] replayed_entry_ok(trace@, i)
            &&& snapshot.revision == 1 + published_count(trace@)
            &&& forall|i: int|
                0 <= i < commands@.len() ==> ((#[trigger] trace@[i]).outcome is Published
                    <==> dispatch_accepts(
                    replay_model(commands@.take(i)).0,
                    replay_model(commands@.take(i)).1,
                    commands@[i],
                ))
            &&& snapshot.revision == replay_model(commands@).1
            &&& exists|samples: Seq<SampleSummary>|
                is_fixture(samples) && snapshot_view(snapshot) == snapshot_model(
                    replay_model(commands@).1 as u64,
                    replay_model(commands@).0,
                    samples,
                )
        },
{
    let mut backend = match SyntheticBackend::new() {
        Ok(backend) => backend,
        Err(e) => {
            return Err(e);
        },
    };
    proof {
        assert(backend.spec_trace().take(0) =~= Seq::<TraceEntry>::empty());
        assert(commands@.take(0) =~= Seq::<Command>::empty());
    }
    let mut i: usize = 0;
    while i < commands.len()
        invariant
            backend.wf(),
            i <= commands@.len(),
            backend.spec_trace().len() == i,
            backend.spec_revision() == 1 + published_count(backend.spec_trace()),
            forall|j: int| 0 <= j < i ==> #[trigger] backend.spec_trace()[j].command == commands@[j],
            forall|j: int| 0 <= j < i ==> #[trigger] replayed_entry_ok(backend.spec_trace(), j),
            is_fixture(backend.spec_samples()),
            backend.spec_state() == replay_model(commands@.take(i as int)).0,
            backend.spec_revision() == replay_model(commands@.take(i as int)).1,
            forall|j: int|
                0 <= j < i ==> ((#[trigger] backend.spec_trace()[j]).outcome is Published
                    <==> dispatch_accepts(
                    replay_model(commands@.take(j)).0,
                    replay_model(commands@.take(j)).1,
                    commands@[j],
                )),
        decreases commands@.len() - i,
    {
        let command = commands[i].clone();
        let ghost before = backend.spec_trace();
        let ghost revision = backend.spec_revision();
        let _ = backend.dispatch(command);
        proof {
            let after = backend.spec_trace();
            let e = after.last();
            assert(after == before.push(e));
            lemma_published_count_push(before, e);
            assert(after.take(i as int) == before.take(i as int));
            assert(before.take(i as int) =~= before);
            assert forall|j: int| 0 <= j < i + 1 implies #[trigger] after[j].command == commands@[j] by {
                if j < i {
                    assert(after[j] == before[j]);
                }
            }
            assert forall|j: int| 0 <= j < i + 1 implies #[trigger] replayed_entry_ok(after, j) by {
                if j < i {
                    assert(after[j] == before[j]);
                    assert(after.take(j) == before.take(j));
                    assert(replayed_entry_ok(before, j));
                }
            }
            assert(commands@.take(i + 1).drop_last() =~= commands@.take(i as int));
            assert(commands@.take(i + 1).last() == commands@[i as int]);
            assert forall|j: int|
                0 <= j < i + 1 implies ((#[trigger] after[j]).outcome is Published
                    <==> dispatch_accepts(
                    replay_model(commands@.take(j)).0,
                    replay_model(commands@.take(j)).1,
                    commands@[j],
                )) by {
                if j < i {
                    assert(after[j] == before[j]);
                }
            }
        }
        i = i + 1;
    }
    proof {
        assert(commands@.take(commands@.len() as int) =~= commands@);
    }
    let trace = backend.trace();
    let snapshot = match backend.read_state() {
        Ok(snapshot) => snapshot,
        Err(e) => {
            return Err(e);
        },
    };
    Ok((trace, snapshot))
}

} // verus!
