//! Older views: the store built from per-device snmp data, and the pages
//! for inspecting subjects.
pub mod put_snmp;
pub mod get_subject;
