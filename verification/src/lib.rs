//! Verified core of the gnos network management server.
pub mod ring_buffer;
pub mod units;
pub mod text;
pub mod utils;
pub mod options;
pub mod task_runner;
pub mod samples;
pub mod json;
pub mod statements;
pub mod model;
pub mod handlers;
pub mod views;
pub mod demo;
pub mod subject_utils;
pub mod startup;
pub mod registry;
pub mod solutions;
