//! Verified core of the int2DDS C binding layer: return codes, ABI identity,
//! C offset-layout validation, runtime type descriptors and the CDR codec
//! that serializes runtime-defined samples.

pub mod abi;
pub mod c_layout;
pub mod cdr;
pub mod codec;
pub mod codec_spec;
pub mod data;
pub mod discovery;
pub mod dynamic;
pub mod dynamic_type_support;
pub mod dynamic_value;
pub mod encoding;
pub mod error;
pub mod key_hash;
pub mod last_error;
pub mod qos;
pub mod read_condition;
pub mod round_trip;
pub mod sample_seq;
pub mod status;
pub mod status_condition;
pub mod subscriber;
pub mod text;
pub mod topic;
pub mod type_descriptor;
pub mod type_object;
pub mod types;
