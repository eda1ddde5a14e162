//! Modules that handle requests from clients and modelers.
pub mod put_snmp;
pub mod sse_query;
pub mod get_details;
pub mod get_interfaces;
