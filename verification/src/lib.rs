//! Verified core of a Service Bus explorer: durations, entity models,
//! connection strings, secrets, message bodies and templates, management
//! payloads and requests, and the state behind the user interface.

pub mod duration;
pub mod timestamp;
pub mod text;
pub mod model;
pub mod entity_xml;
pub mod secrets;
pub mod connection;
pub mod body;
pub mod message;
pub mod message_file;
pub mod sas;
pub mod config;
pub mod legacy_import;
pub mod mgmt;
pub mod bridge;
pub mod backend;
pub mod transfer;
pub mod view_state;
pub mod dialogs;
pub mod actions;
pub mod atom;
pub mod log_buffer;
