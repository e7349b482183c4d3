//! Per-frame processing: decode the raw capture buffer, substitute the
//! background wherever the chroma-key decision fires, encode back to bytes
//! and serialize the payload. The capture loop around it only pulls frames
//! and broadcasts the returned payload.

use vstd::prelude::*;
use crate::codec::{decode_spec, encode_spec, to_buffer, to_colors};
use crate::filter::FilterType;
use crate::payload::{build_tcp_payload, payload_spec};
use crate::pixel::Color;

verus! {

/// Processes one captured frame against the one-time background frame.
/// The two frames come from the same capture session, so they share one
/// geometry; a mismatch is a programming error and is excluded here.
pub fn process_frame(
    filter: &FilterType,
    background: &Vec<Color>,
    width: u32,
    height: u32,
    raw: &Vec<u8>,
) -> (payload: String)
    requires
        raw@.len() / 4 == background@.len(),
    ensures
        payload@ == payload_spec(
            width,
            height,
            encode_spec(filter.apply_spec(background@, decode_spec(raw@))),
        ),
{
    let current_frame = to_colors(raw);
    let modified_frame = filter.apply_to(background, current_frame);
    let frame_buffer = to_buffer(&modified_frame);
    build_tcp_payload(width, height, frame_buffer)
}

} // verus!
