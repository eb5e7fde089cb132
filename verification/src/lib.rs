//! Verified core of the Vex bridge: wire-protocol validation, configuration
//! migration, crash-report redaction, IFC header parsing, render-cache
//! planning and fair render scheduling.

pub mod text;
pub mod schema;
pub mod render_manifest;
pub mod federation;
pub mod scheduler;
pub mod crash_report;
pub mod ifc;
pub mod config;
pub mod device;
pub mod desktop;
pub mod daemon_supervisor;
pub mod render_cache;
pub mod wire;
pub mod pathname;
pub mod errors;
pub mod pipeline;
pub mod pairing;
pub mod render_worker;
pub mod dashboard;
