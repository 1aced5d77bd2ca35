//! Wire codec and namespace matching for a namespace-based publish/subscribe
//! protocol.

mod buffer;
mod codec;
mod message;
mod pattern;
mod text;

pub use crate::buffer::buf_bytes;
pub use crate::codec::{
    bad_tag, be16_bytes, be32_bytes, data_len_field, decode_outcome, fields_read, fits_frame, frame_complete,
    frame_len, frame_message, frame_of, lemma_partial_delivery, lemma_round_trip, lemma_two_frames, ns_len_field, read_be16, read_be32, Codec, CodecError,
};
pub use crate::message::{
    lemma_contains_ignores_payload, lemma_contains_same_kind, lemma_tag_round_trip, message_contains, message_of_tag,
    valid_tag, Message, MessageView,
};
pub use crate::pattern::{lemma_contains_itself, pattern_contains, Pattern};
pub use crate::text::{lossy_utf8, text_of};
