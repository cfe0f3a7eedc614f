use vstd::prelude::*;

verus! {

/// The bytes of the one waveform resource key, as carried on the wire.
pub type WaveformKeyBytes = [u8; 18];

/// The state as it is encoded: query, selected sample, preview sample,
/// indexing percentage, favorite mask, and an optional waveform reference of
/// key bytes and byte length. Postcard encodes a struct as the tuple of its
/// fields, so this tuple has the encoding of the state record.
pub type WireState = (String, Option<u32>, Option<u32>, u8, u8, Option<(WaveformKeyBytes, u32)>);

/// The model of a [`WireState`].
pub type WireView = (Seq<char>, Option<u32>, Option<u32>, u8, u8, Option<(Seq<u8>, u32)>);

/// The model of a wire state.
pub open spec fn wire_view(w: WireState) -> WireView {
    (w.0@, w.1, w.2, w.3, w.4, match w.5 {
        Some(r) => Some((r.0@, r.1)),
        None => None,
    })
}

/// The postcard encoding of a wire state, or `None` when postcard refuses
/// to encode it.
pub uninterp spec fn postcard_state_encoding(wire: WireView) -> Option<Seq<u8>>;

/// What postcard decodes from the front of `bytes`: a wire state and the
/// number of bytes left after it, or `None` when the bytes do not start with
/// a valid encoding.
pub uninterp spec fn postcard_state_decoding(bytes: Seq<u8>) -> Option<(WireView, nat)>;

/// Encodes a wire state with `postcard::to_allocvec`.
///
/// Trusted: the result is [`postcard_state_encoding`] of the state, and an
/// encoding decodes back with `postcard::take_from_bytes` to the same state
/// with nothing left over. Postcard's error text is passed on as the message
/// `postcard encode failed: ...`; nothing is claimed of that text.
#[verifier::external_body]
pub(crate) fn postcard_encode_state(wire: &WireState) -> (r: Result<Vec<u8>, String>)
    ensures
        match r {
            Ok(bytes) => postcard_state_encoding(wire_view(*wire)) == Some(bytes@)
                && postcard_state_decoding(bytes@) == Some((wire_view(*wire), 0nat)),
            Err(_) => postcard_state_encoding(wire_view(*wire)) is None,
        },
{
    match postcard::to_allocvec(wire) {
        Ok(bytes) => Ok(bytes),
        Err(error) => Err(format!("postcard encode failed: {error}")),
    }
}

/// Decodes a wire state from the front of `bytes` with
/// `postcard::take_from_bytes`, returning it with the number of unused
/// trailing bytes.
///
/// Trusted: the result is [`postcard_state_decoding`] of the bytes.
/// Postcard's error text is passed on as the message
/// `postcard decode failed: ...`; nothing is claimed of that text.
#[verifier::external_body]
pub(crate) fn postcard_decode_state(bytes: &[u8]) -> (r: Result<(WireState, usize), String>)
    ensures
        match r {
            Ok((wire, rest)) => postcard_state_decoding(bytes@) == Some((wire_view(wire), rest as nat)),
            Err(_) => postcard_state_decoding(bytes@) is None,
        },
{
    match postcard::take_from_bytes::<WireState>(bytes) {
        Ok((wire, rest)) => Ok((wire, rest.len())),
        Err(error) => Err(format!("postcard decode failed: {error}")),
    }
}

} // verus!
