//! Standard CIP objects: Identity, Parameter, and File.

pub mod file;
mod identity;
mod parameter;

pub use identity::{identity_len, identity_ok, IdentityObject};
pub use parameter::{attributes_ok, check_value_size, CipValue, ParameterObject, ParameterView};
pub use file::{
    after_initiate, after_transfer, after_transfers, transfers_answered, upload_result, upload_start, FileObject,
    FileObjectStateCode,
    FileObjectView, FileState, TransferPacketType,
};
