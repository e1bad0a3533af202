//! CIP (Common Industrial Protocol) encoding: paths, services, status codes, and
//! message router requests and responses.

pub mod connection_manager;
mod epath;
mod message_router;
mod revision;
mod types;

pub use epath::{decode_path, encode_path, display_path, lemma_decode_encode, EPath, EPathView, SegmentSize};
pub use message_router::{encode_request, request_bytes, response_ok, words, MessageRouterResponse};
pub use revision::{decode_revision, encode_revision, lemma_revision_round_trip, CipRevision};
pub use types::{CipDataType, GeneralStatusCode, ServiceCode};
