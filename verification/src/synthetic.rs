use std::collections::BTreeSet;
use vstd::prelude::*;

use crate::error::{error_text, Error as CoreError, Revision};
use crate::text::{byte_len, decimal, str_equal, u32_text, u64_text, usize_text};
use crate::wire::{
    postcard_decode_state, postcard_encode_state, postcard_state_decoding, postcard_state_encoding,
    wire_view, WireState, WireView, WaveformKeyBytes,
};

verus! {

broadcast use vstd::std_specs::btree::group_btree_axioms, vstd::laws_cmp::group_laws_cmp;

/// The sample ids of the fixture library.
pub const SAMPLE_KICK: u32 = 1;

pub const SAMPLE_SNARE: u32 = 2;

pub const SAMPLE_HAT: u32 = 3;

/// The schema version of state publications.
pub const STATE_SCHEMA: u32 = 1;

/// The key of the one waveform resource.
pub const WAVEFORM_KEY: &'static str = "synthetic-waveform";

/// The waveform key's bytes, as carried on the wire.
pub const WAVEFORM_KEY_BYTES: WaveformKeyBytes = [
    115u8, 121u8, 110u8, 116u8, 104u8, 101u8, 116u8, 105u8, 99u8, 45u8, 119u8, 97u8, 118u8, 101u8,
    102u8, 111u8, 114u8, 109u8,
];

/// The maximum search query size, in bytes.
pub const MAX_QUERY_BYTES: usize = 256;

/// The maximum encoded state size, in bytes.
pub const MAX_STATE_BYTES: usize = 1024;

/// The number of values in a meter sample.
pub const METER_WIDTH: usize = 2;

/// Whether `id` names a sample of the fixture library.
pub open spec fn known_sample(id: u32) -> bool {
    id == SAMPLE_KICK || id == SAMPLE_SNARE || id == SAMPLE_HAT
}

/// A local reference carried by state publications instead of waveform bytes.
#[derive(Clone, Copy, Debug, PartialEq, Eq)]
pub struct WaveformRef {
    pub resource_key: &'static str,
    pub byte_len: usize,
}

impl View for WaveformRef {
    type V = (Seq<char>, usize);

    open spec fn view(&self) -> (Seq<char>, usize) {
        (self.resource_key@, self.byte_len)
    }
}

/// The model of an application state: query, selected sample, preview
/// sample, favorites, indexing percentage and waveform reference.
pub type AppView = (Seq<char>, Option<u32>, Option<u32>, Set<u32>, u8, Option<(Seq<char>, usize)>);

/// The decoded application state.
#[derive(Debug, PartialEq, Eq)]
pub struct AppState {
    pub query: String,
    pub selected_sample: Option<u32>,
    pub preview_sample: Option<u32>,
    pub favorite_samples: BTreeSet<u32>,
    pub indexing_percent: u8,
    pub waveform: Option<WaveformRef>,
}

impl View for AppState {
    type V = AppView;

    open spec fn view(&self) -> AppView {
        (self.query@, self.selected_sample, self.preview_sample, self.favorite_samples@,
        self.indexing_percent, match self.waveform {
            Some(w) => Some(w@),
            None => None,
        })
    }
}

impl Clone for AppState {
    fn clone(&self) -> (c: Self)
        ensures
            c@ == self@,
    {
        AppState {
            query: self.query.clone(),
            selected_sample: self.selected_sample,
            preview_sample: self.preview_sample,
            favorite_samples: self.favorite_samples.clone(),
            indexing_percent: self.indexing_percent,
            waveform: self.waveform,
        }
    }
}

impl AppState {
    /// The initial state: no query, selection or favorites, indexing done.
    pub fn initial() -> (s: Self)
        ensures
            s@ == initial_app_view(),
    {
        AppState {
            query: String::new(),
            selected_sample: None,
            preview_sample: None,
            favorite_samples: BTreeSet::new(),
            indexing_percent: 100,
            waveform: None,
        }
    }
}

/// The model of the initial state.
pub open spec fn initial_app_view() -> AppView {
    (Seq::empty(), None, None, Set::empty(), 100u8, None)
}

/// Errors owned by the backend's application contract.
#[derive(Debug, PartialEq, Eq)]
pub enum BackendError {
    StaleRevision { expected: Revision, supplied: Revision },
    UnknownSample(u32),
    QueryTooLarge { bytes: usize, maximum: usize },
    StateTooLarge { bytes: usize, maximum: usize },
    InvalidState(String),
    Core(CoreError),
}

impl Clone for BackendError {
    fn clone(&self) -> (c: Self)
        ensures
            c == *self,
    {
        match self {
            BackendError::StaleRevision { expected, supplied } => BackendError::StaleRevision {
                expected: *expected,
                supplied: *supplied,
            },
            BackendError::UnknownSample(id) => BackendError::UnknownSample(*id),
            BackendError::QueryTooLarge { bytes, maximum } => BackendError::QueryTooLarge {
                bytes: *bytes,
                maximum: *maximum,
            },
            BackendError::StateTooLarge { bytes, maximum } => BackendError::StateTooLarge {
                bytes: *bytes,
                maximum: *maximum,
            },
            BackendError::InvalidState(reason) => BackendError::InvalidState(reason.clone()),
            BackendError::Core(error) => BackendError::Core(*error),
        }
    }
}

/// The description of a backend error.
pub open spec fn backend_error_text(e: BackendError) -> Seq<char> {
    match e {
        BackendError::StaleRevision { expected, supplied } => "stale revision: expected "@ + decimal(
            expected as nat,
        ) + ", supplied "@ + decimal(supplied as nat),
        BackendError::UnknownSample(id) => "unknown sample "@ + decimal(id as nat),
        BackendError::QueryTooLarge { bytes, maximum } => "search query is "@ + decimal(bytes as nat)
            + " bytes, maximum is "@ + decimal(maximum as nat),
        BackendError::StateTooLarge { bytes, maximum } => "state publication is "@ + decimal(
            bytes as nat,
        ) + " bytes, maximum is "@ + decimal(maximum as nat),
        BackendError::InvalidState(reason) => "invalid state publication: "@ + reason@,
        BackendError::Core(error) => error_text(error),
    }
}

/// `first`, the decimal of `a`, `middle` and the decimal of `b`.
fn revision_pair_text(first: &str, a: u64, middle: &str, b: u64) -> (r: String)
    ensures
        r@ == first@ + decimal(a as nat) + middle@ + decimal(b as nat),
{
    let mut text = String::from_str(first);
    text.append(u64_text(a).as_str());
    text.append(middle);
    text.append(u64_text(b).as_str());
    text
}

/// `first`, the decimal of `a`, `middle` and the decimal of `b`.
fn size_pair_text(first: &str, a: usize, middle: &str, b: usize) -> (r: String)
    ensures
        r@ == first@ + decimal(a as nat) + middle@ + decimal(b as nat),
{
    let mut text = String::from_str(first);
    text.append(usize_text(a).as_str());
    text.append(middle);
    text.append(usize_text(b).as_str());
    text
}

impl BackendError {
    /// A human-readable description of the error.
    pub fn message(&self) -> (m: String)
        ensures
            m@ == backend_error_text(*self),
    {
        match self {
            BackendError::StaleRevision { expected, supplied } => revision_pair_text(
                "stale revision: expected ",
                *expected,
                ", supplied ",
                *supplied,
            ),
            BackendError::UnknownSample(id) => {
                let mut text = String::from_str("unknown sample ");
                text.append(u32_text(*id).as_str());
                text
            },
            BackendError::QueryTooLarge { bytes, maximum } => size_pair_text(
                "search query is ",
                *bytes,
                " bytes, maximum is ",
                *maximum,
            ),
            BackendError::StateTooLarge { bytes, maximum } => size_pair_text(
                "state publication is ",
                *bytes,
                " bytes, maximum is ",
                *maximum,
            ),
            BackendError::InvalidState(reason) => {
                let mut text = String::from_str("invalid state publication: ");
                text.append(reason.as_str());
                text
            },
            BackendError::Core(error) => error.message(),
        }
    }
}

impl From<CoreError> for BackendError {
    fn from(error: CoreError) -> (e: Self)
        ensures
            e == BackendError::Core(error),
    {
        BackendError::Core(error)
    }
}

impl vstd::std_specs::convert::FromSpecImpl<CoreError> for BackendError {
    open spec fn obeys_from_spec() -> bool {
        true
    }

    open spec fn from_spec(v: CoreError) -> Self {
        BackendError::Core(v)
    }
}

/// Whether `e` is an `InvalidState` error with message `m`.
pub open spec fn invalid_state(e: BackendError, m: Seq<char>) -> bool {
    e matches BackendError::InvalidState(s) && s@ == m
}

/// The favorite-mask bit of a sample id, if the id is known.
pub open spec fn spec_favorite_bit(sample_id: u32) -> Option<u8> {
    if sample_id == SAMPLE_KICK {
        Some(1u8)
    } else if sample_id == SAMPLE_SNARE {
        Some(2u8)
    } else if sample_id == SAMPLE_HAT {
        Some(4u8)
    } else {
        None
    }
}

/// Returns the favorite-mask bit of a sample id, if the id is known.
pub fn favorite_bit(sample_id: u32) -> (r: Option<u8>)
    ensures
        r == spec_favorite_bit(sample_id),
{
    assert(1u8 << 0u8 == 1u8 && 1u8 << 1u8 == 2u8 && 1u8 << 2u8 == 4u8) by (bit_vector);
    if sample_id == SAMPLE_KICK {
        Some(1 << 0)
    } else if sample_id == SAMPLE_SNARE {
        Some(1 << 1)
    } else if sample_id == SAMPLE_HAT {
        Some(1 << 2)
    } else {
        None
    }
}

/// Returns the mask of every known sample's bit.
pub fn known_favorite_mask() -> (m: u8)
    ensures
        m == 7,
{
    let kick = match favorite_bit(SAMPLE_KICK) {
        Some(b) => b,
        None => 0,
    };
    let snare = match favorite_bit(SAMPLE_SNARE) {
        Some(b) => b,
        None => 0,
    };
    let hat = match favorite_bit(SAMPLE_HAT) {
        Some(b) => b,
        None => 0,
    };
    assert(1u8 | 2u8 | 4u8 == 7u8) by (bit_vector);
    kick | snare | hat
}

/// The mask bit `bit` if `f` contains `id`, else zero.
pub open spec fn bit_if(f: Set<u32>, id: u32, bit: u8) -> u8 {
    if f.contains(id) {
        bit
    } else {
        0u8
    }
}

/// The favorite mask of a favorites set.
pub open spec fn mask_of(f: Set<u32>) -> u8 {
    bit_if(f, SAMPLE_KICK, 1u8) | bit_if(f, SAMPLE_SNARE, 2u8) | bit_if(f, SAMPLE_HAT, 4u8)
}

/// The favorites a mask names.
pub open spec fn favorites_of_mask(m: u8) -> Set<u32> {
    Set::new(
        |id: u32|
            (id == SAMPLE_KICK && m & 1u8 != 0) || (id == SAMPLE_SNARE && m & 2u8 != 0) || (id
                == SAMPLE_HAT && m & 4u8 != 0),
    )
}

/// Whether every favorite is a known sample.
pub open spec fn favorites_known(f: Set<u32>) -> bool {
    forall|id: u32| f.contains(id) ==> known_sample(id)
}

/// Whether a waveform reference names the one waveform resource key and its
/// length fits the wire's 32 bits.
pub open spec fn wire_waveform_ok(w: Option<(Seq<char>, usize)>) -> bool {
    w matches Some(r) ==> r.0 == WAVEFORM_KEY@ && r.1 <= u32::MAX
}

/// The wire form of a state.
pub open spec fn wire_of(s: AppView) -> WireView {
    (s.0, s.1, s.2, s.4, mask_of(s.3), match s.5 {
        Some(r) => Some((WAVEFORM_KEY_BYTES@, r.1 as u32)),
        None => None,
    })
}

/// The state a wire form decodes to.
pub open spec fn app_of_wire(w: WireView) -> AppView {
    (w.0, w.1, w.2, favorites_of_mask(w.4), w.3, match w.5 {
        Some(r) => Some((WAVEFORM_KEY@, r.1 as usize)),
        None => None,
    })
}

/// Whether a decoded wire form is an acceptable state: a bounded query, an
/// indexing percentage of at most one hundred, only known favorite bits and
/// only the one waveform key.
pub open spec fn wire_valid(w: WireView) -> bool {
    &&& byte_len(w.0) <= MAX_QUERY_BYTES
    &&& w.3 <= 100
    &&& w.4 & !7u8 == 0
    &&& (w.5 matches Some(r) ==> r.0 == WAVEFORM_KEY_BYTES@)
}

/// Whether a state can be put on the wire: a bounded query, known favorites
/// and the one waveform key.
pub open spec fn encodable(s: AppView) -> bool {
    &&& byte_len(s.0) <= MAX_QUERY_BYTES
    &&& favorites_known(s.3)
    &&& wire_waveform_ok(s.5)
}

/// Each bit of the favorites mask tells whether one fixture sample is a
/// favorite.
pub proof fn lemma_mask_bits(f: Set<u32>)
    ensures
        (mask_of(f) & 1u8 != 0) == f.contains(SAMPLE_KICK),
        (mask_of(f) & 2u8 != 0) == f.contains(SAMPLE_SNARE),
        (mask_of(f) & 4u8 != 0) == f.contains(SAMPLE_HAT),
        mask_of(f) & !7u8 == 0,
{
    let a = bit_if(f, SAMPLE_KICK, 1u8);
    let b = bit_if(f, SAMPLE_SNARE, 2u8);
    let c = bit_if(f, SAMPLE_HAT, 4u8);
    assert((a == 0u8 || a == 1u8) && (b == 0u8 || b == 2u8) && (c == 0u8 || c == 4u8) ==> {
        &&& ((a | b | c) & 1u8 != 0) == (a == 1u8)
        &&& ((a | b | c) & 2u8 != 0) == (b == 2u8)
        &&& ((a | b | c) & 4u8 != 0) == (c == 4u8)
        &&& (a | b | c) & !7u8 == 0
    }) by (bit_vector);
}

/// A state that can be encoded comes back unchanged from its wire form.
pub proof fn lemma_wire_round_trip(s: AppView)
    requires
        encodable(s),
        s.4 <= 100,
    ensures
        wire_valid(wire_of(s)),
        app_of_wire(wire_of(s)) == s,
{
    lemma_mask_bits(s.3);
    let w = wire_of(s);
    assert forall|id: u32| favorites_of_mask(w.4).contains(id) == s.3.contains(id) by {
        if s.3.contains(id) {
            assert(known_sample(id));
        }
    }
    assert(favorites_of_mask(w.4) =~= s.3);
    match s.5 {
        Some(r) => {
            assert(r.1 <= u32::MAX);
            assert((r.1 as u32) as usize == r.1);
        },
        None => {},
    }
}

/// Serializes a state into its bounded wire form.
///
/// A query over the limit is refused first, then an unknown favorite, then a
/// reference to any resource but the waveform; an encoding over the state
/// limit is refused last.
pub fn encode_state(state: &AppState) -> (r: Result<Vec<u8>, BackendError>)
    ensures
        byte_len(state@.0) > MAX_QUERY_BYTES ==> r == Err::<Vec<u8>, BackendError>(
            BackendError::QueryTooLarge {
                bytes: byte_len(state@.0) as usize,
                maximum: MAX_QUERY_BYTES,
            },
        ),
        byte_len(state@.0) <= MAX_QUERY_BYTES && !favorites_known(state@.3) ==> (r matches Err(e)
            && invalid_state(e, "unknown favorite sample"@)),
        byte_len(state@.0) <= MAX_QUERY_BYTES && favorites_known(state@.3) && !wire_waveform_ok(
            state@.5,
        ) ==> (r matches Err(e) && invalid_state(e, "unknown waveform reference"@)),
        encodable(state@) ==> match postcard_state_encoding(wire_of(state@)) {
            None => r matches Err(e) && e is InvalidState,
            Some(bytes) => if bytes.len() > MAX_STATE_BYTES {
                r == Err::<Vec<u8>, BackendError>(
                    BackendError::StateTooLarge { bytes: bytes.len() as usize, maximum: MAX_STATE_BYTES },
                )
            } else {
                r matches Ok(v) && v@ == bytes
            },
        },
        r matches Ok(v) ==> encodable(state@) && v@.len() <= MAX_STATE_BYTES
            && postcard_state_encoding(wire_of(state@)) == Some(v@) && postcard_state_decoding(v@)
            == Some((wire_of(state@), 0nat)),
{
    let query_bytes = state.query.as_str().as_bytes().len();
    if query_bytes > MAX_QUERY_BYTES {
        return Err(BackendError::QueryTooLarge { bytes: query_bytes, maximum: MAX_QUERY_BYTES });
    }
    for sample_id in it: state.favorite_samples.iter()
        invariant
            it.seq().unref().to_set() == state.favorite_samples@,
            byte_len(state@.0) <= MAX_QUERY_BYTES,
            forall|j: int| 0 <= j < it.index() ==> known_sample(*#[trigger] it.seq()[j]),
            it.index() == it.seq().len() ==> favorites_known(state@.3),
    {
        if favorite_bit(*sample_id).is_none() {
            proof {
                assert(it.seq().unref()[it.index() as int] == *it.seq()[it.index() as int]);
                assert(it.seq().unref().to_set().contains(*it.seq()[it.index() as int]));
                assert(!known_sample(*sample_id));
                assert(!favorites_known(state@.3));
            }
            return Err(BackendError::InvalidState(String::from_str("unknown favorite sample")));
        }
    }
    assert(favorites_known(state@.3));
    let kick: u8 = if state.favorite_samples.contains(&SAMPLE_KICK) {
        1
    } else {
        0
    };
    let snare: u8 = if state.favorite_samples.contains(&SAMPLE_SNARE) {
        2
    } else {
        0
    };
    let hat: u8 = if state.favorite_samples.contains(&SAMPLE_HAT) {
        4
    } else {
        0
    };
    let favorite_mask: u8 = kick | snare | hat;
    assert(favorite_mask == mask_of(state@.3));
    let waveform = match &state.waveform {
        None => None,
        Some(reference) => {
            if !str_equal(reference.resource_key, WAVEFORM_KEY) || reference.byte_len
                > u32::MAX as usize {
                return Err(BackendError::InvalidState(String::from_str("unknown waveform reference")));
            }
            Some((WAVEFORM_KEY_BYTES, reference.byte_len as u32))
        },
    };
    let wire: WireState = (
        state.query.clone(),
        state.selected_sample,
        state.preview_sample,
        state.indexing_percent,
        favorite_mask,
        waveform,
    );
    assert(wire_view(wire) == wire_of(state@));
    let bytes = match postcard_encode_state(&wire) {
        Ok(bytes) => bytes,
        Err(message) => {
            return Err(BackendError::InvalidState(message));
        },
    };
    if bytes.len() > MAX_STATE_BYTES {
        return Err(BackendError::StateTooLarge { bytes: bytes.len(), maximum: MAX_STATE_BYTES });
    }
    Ok(bytes)
}

/// Decodes and checks a state publication payload.
///
/// An oversized payload is refused before decoding. Then the payload must
/// decode with nothing left over, and the decoded state must be
/// [`wire_valid`].
pub fn decode_state(bytes: &[u8]) -> (r: Result<AppState, BackendError>)
    ensures
        bytes@.len() > MAX_STATE_BYTES ==> r == Err::<AppState, BackendError>(
            BackendError::StateTooLarge { bytes: bytes@.len() as usize, maximum: MAX_STATE_BYTES },
        ),
        bytes@.len() <= MAX_STATE_BYTES ==> match postcard_state_decoding(bytes@) {
            None => r matches Err(e) && e is InvalidState,
            Some((w, rest)) => if rest != 0 {
                r matches Err(e) && invalid_state(e, "trailing state bytes"@)
            } else if byte_len(w.0) > MAX_QUERY_BYTES {
                r == Err::<AppState, BackendError>(
                    BackendError::QueryTooLarge {
                        bytes: byte_len(w.0) as usize,
                        maximum: MAX_QUERY_BYTES,
                    },
                )
            } else if !wire_valid(w) {
                r matches Err(e) && e is InvalidState
            } else {
                r matches Ok(s) && s@ == app_of_wire(w)
            },
        },
{
    if bytes.len() > MAX_STATE_BYTES {
        return Err(BackendError::StateTooLarge { bytes: bytes.len(), maximum: MAX_STATE_BYTES });
    }
    let (wire, trailing) = match postcard_decode_state(bytes) {
        Ok(decoded) => decoded,
        Err(message) => {
            return Err(BackendError::InvalidState(message));
        },
    };
    if trailing != 0 {
        return Err(BackendError::InvalidState(String::from_str("trailing state bytes")));
    }
    let (query, selected_sample, preview_sample, indexing_percent, favorite_mask, wire_waveform) =
        wire;
    let query_bytes = query.as_str().as_bytes().len();
    if query_bytes > MAX_QUERY_BYTES {
        return Err(BackendError::QueryTooLarge { bytes: query_bytes, maximum: MAX_QUERY_BYTES });
    }
    if indexing_percent > 100 {
        return Err(BackendError::InvalidState(String::from_str("indexing percentage exceeds 100")));
    }
    let mut favorite_samples: BTreeSet<u32> = BTreeSet::new();
    if favorite_mask & 1 != 0 {
        favorite_samples.insert(SAMPLE_KICK);
    }
    if favorite_mask & 2 != 0 {
        favorite_samples.insert(SAMPLE_SNARE);
    }
    if favorite_mask & 4 != 0 {
        favorite_samples.insert(SAMPLE_HAT);
    }
    if favorite_mask & !known_favorite_mask() != 0 {
        return Err(
            BackendError::InvalidState(String::from_str("favorite mask contains unknown samples")),
        );
    }
    let waveform = match wire_waveform {
        None => None,
        Some((resource_key, byte_len)) => {
            if !bytes_equal(&resource_key, &WAVEFORM_KEY_BYTES) {
                return Err(BackendError::InvalidState(String::from_str("unknown waveform resource key")));
            }
            Some(WaveformRef { resource_key: WAVEFORM_KEY, byte_len: byte_len as usize })
        },
    };
    let state = AppState {
        query,
        selected_sample,
        preview_sample,
        favorite_samples,
        indexing_percent,
        waveform,
    };
    proof {
        assert(state@.3 =~= favorites_of_mask(favorite_mask));
    }
    Ok(state)
}

/// Whether two waveform keys have the same bytes.
fn bytes_equal(a: &WaveformKeyBytes, b: &WaveformKeyBytes) -> (r: bool)
    ensures
        r == (a@ == b@),
{
    let mut i: usize = 0;
    while i < 18
        invariant
            i <= 18,
            a@.len() == 18,
            b@.len() == 18,
            forall|j: int| 0 <= j < i ==> a@[j] == b@[j],
        decreases 18 - i,
    {
        if a[i] != b[i] {
            return false;
        }
        i = i + 1;
    }
    proof {
        assert(a@ =~= b@);
    }
    true
}

} // verus!
