//! Core of an OPC UA stack: the binary wire codec of the built-in data
//! types, the security policies of a secure channel, the address space of a
//! server with its view services, and the dispatch of service requests.
//!
//! The functions are verified against the contracts written in their
//! headers. The contracts speak of mathematical models: the view (`@`) of
//! each data type, byte sequences, and the spec functions next to the code.
//! What OpenSSL, the random number generator and the system clock compute
//! is taken on trust, in the functions marked `external_body`.

pub mod status_codes;
pub mod constants;
pub mod encoding;
pub mod basic_types;
pub mod string;
pub mod byte_string;
pub mod guid;
pub mod node_id;
pub mod node_ids;
pub mod qualified_name;
pub mod localized_text;
pub mod extension_object;
pub mod diagnostic_info;
pub mod date_time;
pub mod variant;
pub mod data_value;
pub mod service_types;
pub mod content_filter;
pub mod crypto;
pub mod security_policy;
pub mod node;
pub mod address_space;
pub mod service_messages;
pub mod view;
pub mod message_handler;
pub mod secure_channel;
