//! What a trace consists of.

use crate::chrome::args::Args;
use crate::protocol::labels::LabelMap;
use vstd::prelude::*;

verus! {

/// What kind of event an event is.
#[derive(Debug, Clone, Copy, PartialEq, Eq, Structural)]
pub enum Phase {
    /// A duration begins.
    DurationBegin,
    /// A duration ends.
    DurationEnd,
    /// A duration as a whole.
    Complete,
    /// A point in time.
    Instant,
    /// A point in time, in an older notation.
    InstantDeprecated,
    /// The value of a counter.
    Counter,
    /// An operation across threads begins.
    AsyncBegin,
    /// Something happens within an operation across threads.
    AsyncStep,
    /// An operation across threads ends.
    AsyncEnd,
    /// An arrow between events begins.
    FlowBegin,
    /// An arrow between events passes.
    FlowStep,
    /// An arrow between events ends.
    FlowEnd,
    /// A sample of a profiler, in an older notation.
    Sample,
    /// An object is created.
    ObjectCreated,
    /// An object is destroyed.
    ObjectDestroyed,
    /// The state of an object.
    ObjectSnapshot,
    /// Names of processes and threads, and other data about them.
    Metadata,
    /// The memory of the whole system.
    GlobalMemoryDump,
    /// The memory of a process.
    ProcessMemoryDump,
    /// A mark.
    Mark,
    /// A point at which clocks are compared.
    ClockSync,
    /// A context begins.
    ContextEnter,
    /// A context ends.
    ContextLeave,
    /// Two identifiers stand for the same thing.
    LinkedId,
}

/// How far a point in time reaches in the picture.
#[derive(Debug, Clone, Copy, PartialEq, Eq, Structural)]
pub enum InstantScope {
    Global,
    Process,
    Thread,
}

/// What relates events to each other.
pub enum Id {
    String(String),
    Number(u64),
    Local(LocalId),
}

/// An identifier within one process.
pub struct LocalId {
    pub local: String,
}

/// An identifier with a global and a local part.
pub struct Id2 {
    pub global: String,
    pub local: String,
}

/// A duration as a whole. Times are in microseconds.
pub struct CompleteEvent {
    pub name: String,
    pub cat: Option<String>,
    pub ph: Phase,
    pub ts: u64,
    pub dur: u64,
    pub pid: u32,
    pub tid: u32,
    pub args: Option<Args>,
    pub tdur: Option<u64>,
    pub tts: Option<u64>,
    pub cname: Option<String>,
    pub bind_id: Option<String>,
    pub flow_in: Option<bool>,
    pub flow_out: Option<bool>,
    pub id: Option<Id>,
    pub id2: Option<Id2>,
    pub scope: Option<String>,
    pub sf: Option<u64>,
    pub esf: Option<u64>,
}

/// A point in time, in microseconds.
pub struct InstantEvent {
    pub name: String,
    pub cat: Option<String>,
    pub ph: Phase,
    pub ts: u64,
    pub pid: u32,
    pub tid: u32,
    pub s: InstantScope,
    pub args: Option<Args>,
    pub tts: Option<u64>,
    pub cname: Option<String>,
    pub bind_id: Option<String>,
    pub flow_in: Option<bool>,
    pub flow_out: Option<bool>,
    pub id: Option<Id>,
    pub id2: Option<Id2>,
    pub scope: Option<String>,
    pub sf: Option<u64>,
    pub esf: Option<u64>,
}

/// The value of a counter. Each argument is a series.
pub struct CounterEvent {
    pub name: String,
    pub cat: Option<String>,
    pub ph: Phase,
    pub ts: u64,
    pub pid: u32,
    pub tid: u32,
    pub args: Args,
    pub id: Option<Id>,
    pub tts: Option<u64>,
    pub cname: Option<String>,
}

/// Which data about a process or a thread is given.
#[derive(Debug, Clone, Copy, PartialEq, Eq, Structural)]
pub enum MetadataName {
    ThreadName,
    ThreadSortIndex,
    ProcessName,
    ProcessLabels,
    ProcessSortIndex,
    ProcessUptimeSeconds,
    Screenshots,
    StackFrames,
}

/// Data about a process or a thread.
pub struct MetadataEvent {
    pub ph: Phase,
    pub pid: u32,
    pub tid: Option<u32>,
    pub name: MetadataName,
    pub args: Args,
}

/// An event of a trace.
pub enum TraceEvent {
    Complete(CompleteEvent),
    Instant(InstantEvent),
    Counter(CounterEvent),
    Metadata(MetadataEvent),
}

/// Stack frames by identifier.
pub struct StackFrames(pub LabelMap<StackFrame>);

/// A frame of a call stack; `parent` is the identifier of the frame that called it.
pub struct StackFrame {
    pub name: String,
    pub category: Option<String>,
    pub parent: Option<String>,
}

/// A sample that a profiler of the system took.
pub struct Sample {
    pub cpu: u32,
    pub tid: u32,
    pub ts: u64,
    pub name: String,
    pub sf: u64,
    pub weight: Option<u64>,
}

/// A trace.
pub struct ChromeTrace {
    pub trace_events: Option<Vec<TraceEvent>>,
    pub display_time_unit: Option<String>,
    pub system_trace_events: Option<String>,
    pub stack_frames: Option<StackFrames>,
    pub samples: Option<Vec<Sample>>,
    pub metadata: Option<Args>,
}

} // verus!
