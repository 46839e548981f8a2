//! Helpers of the fleet daemons and tools: the decisions and text they
//! compute, apart from the processes, sockets and files they drive.

pub mod observer;
pub mod wake;
pub mod colloquium;
pub mod cve;
pub mod cve_sources;
pub mod metrics;
pub mod observer_log;
pub mod orchestrator;
pub mod handover;
pub mod oracle;
pub mod avatar;
pub mod comms;
pub mod cve_findings;
pub mod voice;
pub mod sweep;
pub mod sweep_report;
