//! Collecting data with BPF programs: what to set up, and what to make of what they report.

pub mod choice;
pub mod config;
pub mod counting;
pub mod cpuutil;
pub mod error;
pub mod names;
pub mod nettrack;
pub mod perfcounter;
pub mod profiler;
pub mod recorder;
pub mod reports;
pub mod stacks;
pub mod stream;
pub mod threadtrack;
pub mod traffic;

pub use config::{
    BpfConfig, BpfConsumer, BpfObject, CpuUtilConfig, ProfilerConfig, SchedTraceConfig,
    ThreadTrackerConfig,
};
pub use error::BpfError;
pub use nettrack::NetTrackConfig;
pub use perfcounter::PerfCounterConfig;
