//! Events.

use crate::protocol::labels::Labels;
use vstd::prelude::*;

verus! {

/// A value of a counter at a point in time. The value is given by its bit pattern.
pub struct Counter {
    pub name: String,
    pub value_bits: u64,
    pub timestamp: u64,
    pub tid: i32,
    pub pid: i32,
    pub labels: Labels,
    pub unit: Option<String>,
}

/// What happened to a span.
#[derive(Debug, Clone, Copy, PartialEq, Eq, Structural)]
pub enum SpanEvent {
    Start,
    Stop,
    End,
}

/// Something happened to a span.
pub struct Span {
    pub name: String,
    pub span_id: u64,
    pub event: SpanEvent,
    pub timestamp: u64,
    pub tid: i32,
    pub pid: i32,
    pub labels: Labels,
}

/// A span that is over.
pub struct CompleteSpan {
    pub name: String,
    pub start_timestamp: u64,
    pub end_timestamp: u64,
    pub tid: i32,
    pub pid: i32,
    pub labels: Labels,
}

/// Something that happened at a point in time.
pub struct Instant {
    pub name: String,
    pub timestamp: u64,
    pub tid: i32,
    pub pid: i32,
    pub labels: Labels,
}

/// The name of a thread.
pub struct ThreadName {
    pub name: String,
    pub tid: i32,
    pub pid: i32,
}

/// The name of a process.
pub struct ProcessName {
    pub name: String,
    pub pid: i32,
}

/// What an instrumented process submits while it runs.
pub enum Event {
    Counter(Counter),
    Span(Span),
    Instant(Instant),
    ThreadName(ThreadName),
    ProcessName(ProcessName),
}

/// What an instrumented process submits where its spans are reported once they are over.
pub enum UserEvent {
    Counter(Counter),
    Span(CompleteSpan),
    Instant(Instant),
    ThreadName(ThreadName),
    ProcessName(ProcessName),
}

/// In which mode a processor was when a sample was taken.
#[derive(Debug, Clone, Copy, PartialEq, Eq, Structural)]
pub enum CpuMode {
    Unknown,
    Kernel,
    User,
    Hypervisor,
    GuestKernel,
    GuestUser,
}

/// A sample of the call stack of a thread.
#[derive(Debug, Clone, Copy, PartialEq, Eq, Structural)]
pub struct Sample {
    pub cpu: u32,
    pub pid: i32,
    pub tid: i32,
    pub timestamp: u64,
    pub callstack_iid: u64,
    pub cpu_mode: CpuMode,
}

/// A frame of call stacks.
#[derive(Debug, Clone, Copy, PartialEq, Eq, Structural)]
pub struct Frame {
    pub iid: u64,
    pub function_name_id: u64,
    pub mapping_id: u64,
    pub rel_pc: u64,
}

/// A call stack, outermost frame first.
pub struct Callstack {
    pub iid: u64,
    pub frame_ids: Vec<u64>,
}

/// A text that is referred to by number.
pub struct InternedString {
    pub iid: u64,
    pub str: String,
}

/// A range of addresses that frames lie in.
pub struct Mapping {
    pub iid: u64,
    pub build_id: u64,
    pub exact_offset: u64,
    pub start_offset: u64,
    pub start: u64,
    pub end: u64,
    pub load_bias: u64,
    pub path_string_ids: Vec<u64>,
}

/// Data that samples refer to by number.
pub struct InternedData {
    pub function_names: Vec<InternedString>,
    pub frames: Vec<Frame>,
    pub callstacks: Vec<Callstack>,
    pub mappings: Vec<Mapping>,
    pub build_ids: Vec<InternedString>,
}

/// What goes into a trace: user events, samples, and the data that samples refer to.
pub enum TraceInput {
    InternedData(InternedData),
    Sample(Sample),
    Counter(Counter),
    Span(CompleteSpan),
    Instant(Instant),
    ThreadName(ThreadName),
    ProcessName(ProcessName),
}

} // verus!
