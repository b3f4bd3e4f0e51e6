//! Verification of time stamps: signed tokens by which an authority states when some data existed.
//!
//! [`verify_time_stamp`] decodes a time stamp response and verifies it against the data that was
//! time-stamped. [`tsa_signer_cert_der_from_token`] and [`tsa_cert_chain_der_from_token`] take
//! the certificates of the authority out of a response without verifying it.

pub mod acceptance;
pub mod behaviour;
pub mod chain;
pub mod cms;
pub mod digest;
pub mod error;
pub mod examine;
pub mod laws;
pub mod meaning;
pub mod oid;
pub mod signer;
pub mod status;
pub mod text;
pub mod time;
pub mod verify;

pub use cms::TstInfo;
pub use error::TimeStampError;
pub use signer::{tsa_cert_chain_der_from_token, tsa_signer_cert_der_from_token};
pub use status::{LogItem, LogKind, StatusTracker};
pub use verify::{verify_time_stamp, Checks, ProfileOutcome, SignatureOutcome};
