//! Validation and conversion of the inputs from which a link to a remote
//! TwinCAT controller is built.

pub mod address;
pub mod error;
pub mod ipv4;
pub mod ipv6;
pub mod link;
pub mod net_id;
pub mod numeral;
pub mod option;
pub mod source;
pub mod text;
pub mod timeouts;
pub mod utf8;
