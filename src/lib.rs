//! Upload slots: identifiers, request decisions and replies of a segmented
//! upload service whose slots are addressed by positional writes.
pub mod ident;
pub mod protocol;
pub mod query;
pub mod segment;

pub use ident::{encode_id, is_slot_id, new_slot_id, ID_BYTES, ID_CHARS};
pub use protocol::{
    allocated_reply, decimal, error_reply, size_reply, size_target, upload_target, write_reply, Reply,
    UploadError,
};
pub use query::{offset_from_pairs, parse_offset, write_offset};
pub use segment::SlotImage;
