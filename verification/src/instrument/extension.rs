//! Tracing as an extension of an agent.

use crate::agent::error::AgentError;
use crate::agent::extension::{Extension, ExtensionError};
use crate::agent::filter;
use crate::agent::filter::objection_to;
use crate::agent::start::TracingArgs;
use crate::protocol::control::TimestampType;
use vstd::prelude::*;
use vstd::string::*;

verus! {

/// The number of the system's realtime clock.
pub const CLOCK_REALTIME: i32 = 0;

/// The number of the system's monotonic clock.
pub const CLOCK_MONOTONIC: i32 = 1;

/// The number of the system's monotonic clock that goes on while the system sleeps.
pub const CLOCK_BOOTTIME: i32 = 7;

/// The number of the clock that `t` asks for.
pub open spec fn clock_of(t: TimestampType) -> i32 {
    match t {
        TimestampType::Monotonic => CLOCK_MONOTONIC,
        TimestampType::Boottime => CLOCK_BOOTTIME,
        TimestampType::Realtime => CLOCK_REALTIME,
    }
}

/// The words with which the log filter `log_filter` is refused.
pub open spec fn refusal(log_filter: Seq<char>, objection: Seq<char>) -> Seq<char> {
    "invalid log filter '"@ + log_filter + "': "@ + objection
}

/// Tracing in a process: the clock that timestamps are taken from, the log filter, and what
/// events are submitted to while a client wants them.
pub struct TracingExtension<H> {
    clock: i32,
    log_filter: Option<String>,
    handle: Option<H>,
}

/// What the state of tracing is.
#[verifier::ext_equal]
pub struct TracingView<H> {
    pub clock: i32,
    pub log_filter: Option<Seq<char>>,
    pub handle: Option<H>,
}

impl<H> View for TracingExtension<H> {
    type V = TracingView<H>;

    closed spec fn view(&self) -> TracingView<H> {
        TracingView {
            clock: self.clock,
            log_filter: self.log_filter.deep_view(),
            handle: self.handle,
        }
    }
}

impl<H> TracingExtension<H> {
    /// Tracing that no client wants.
    pub fn new() -> (t: TracingExtension<H>)
        ensures
            t@ == (TracingView::<H> {
                clock: CLOCK_MONOTONIC,
                log_filter: None,
                handle: None,
            }),
    {
        TracingExtension { clock: CLOCK_MONOTONIC, log_filter: None, handle: None }
    }

    /// The clock that timestamps are taken from.
    pub fn clock_id(&self) -> (c: i32)
        ensures
            c == self@.clock,
    {
        self.clock
    }

    /// The log filter, once a client has given one.
    pub fn log_filter(&self) -> (f: Option<&str>)
        ensures
            match f {
                Some(text) => self@.log_filter == Some(text@),
                None => self@.log_filter is None,
            },
    {
        match &self.log_filter {
            Some(text) => Some(text.as_str()),
            None => None,
        }
    }

    /// Whether a client wants events.
    pub fn is_active(&self) -> (b: bool)
        ensures
            b == self@.handle is Some,
    {
        self.handle.is_some()
    }

    /// What an event is to be submitted to; a failure where no client wants events.
    pub fn submit(&self) -> (r: Result<&H, AgentError>)
        ensures
            match r {
                Ok(h) => self@.handle == Some(*h),
                Err(e) => self@.handle is None && e is NotEnabled,
            },
    {
        match &self.handle {
            Some(h) => Ok(h),
            None => Err(AgentError::NotEnabled),
        }
    }

    /// Begins to trace for a client, where `objection` is what there is against its log filter.
    /// With a log filter that is objected to, nothing changes.
    pub fn start_with(
        &mut self,
        args: &TracingArgs,
        handle: H,
        objection: Option<String>,
    ) -> (r: Result<(), ExtensionError>)
        ensures
            match objection.deep_view() {
                None => r is Ok && final(self)@ == (TracingView {
                    clock: clock_of(args.timestamp_type),
                    log_filter: Some(args.log_filter@),
                    handle: Some(handle),
                }),
                Some(words) => {
                    &&& final(self)@ == old(self)@
                    &&& r matches Err(ExtensionError::ValidationError(t)) && t@ == refusal(
                        args.log_filter@,
                        words,
                    )
                },
            },
    {
        if let Some(objection) = objection {
            let mut text = "invalid log filter '".to_owned();
            text.append(args.log_filter.as_str());
            text.append("': ");
            text.append(objection.as_str());
            return Err(ExtensionError::ValidationError(text));
        }
        self.clock = match args.timestamp_type {
            TimestampType::Monotonic => CLOCK_MONOTONIC,
            TimestampType::Boottime => CLOCK_BOOTTIME,
            TimestampType::Realtime => CLOCK_REALTIME,
        };
        self.log_filter = Some(args.log_filter.clone());
        self.handle = Some(handle);
        Ok(())
    }
}

impl<H: Send + Sync + 'static> Extension for TracingExtension<H> {
    type Args = TracingArgs;

    type Handle = H;

    /// Begins to trace for a client. With a log filter that is objected to, nothing changes.
    fn start(&mut self, args: &TracingArgs, handle: H) -> (r: Result<(), ExtensionError>)
        ensures
            match filter::objection_spec(args.log_filter@) {
                None => r is Ok && final(self)@ == (TracingView {
                    clock: clock_of(args.timestamp_type),
                    log_filter: Some(args.log_filter@),
                    handle: Some(handle),
                }),
                Some(words) => {
                    &&& final(self)@ == old(self)@
                    &&& r matches Err(ExtensionError::ValidationError(t)) && t@ == refusal(
                        args.log_filter@,
                        words,
                    )
                },
            },
    {
        let objection = objection_to(args.log_filter.as_str());
        self.start_with(args, handle, objection)
    }

    /// Ends tracing. Clock and log filter stay as they are.
    fn stop(&mut self) -> (r: Result<(), ExtensionError>)
        ensures
            r is Ok,
            final(self)@ == (TracingView { handle: None, ..old(self)@ }),
    {
        self.handle = None;
        Ok(())
    }
}

/// After a start that succeeds, timestamps are taken from the clock that the client asked for:
/// clock 1 for monotonic time, clock 7 for time since boot, clock 0 for the time of day. The log
/// filter and what events are submitted to are those of the client.
pub proof fn client_gets_its_clock<H>(
    t: &mut TracingExtension<H>,
    args: &TracingArgs,
    handle: H,
    objection: Option<String>,
    r: Result<(), ExtensionError>,
)
    requires
        call_ensures(TracingExtension::<H>::start_with, (t, args, handle, objection), r),
    ensures
        r is Ok <==> objection is None,
        r is Ok ==> {
            &&& args.timestamp_type is Monotonic <==> final(t)@.clock == 1
            &&& args.timestamp_type is Boottime <==> final(t)@.clock == 7
            &&& args.timestamp_type is Realtime <==> final(t)@.clock == 0
            &&& final(t)@.log_filter == Some(args.log_filter@)
            &&& final(t)@.handle == Some(handle)
        },
        r is Err ==> final(t)@ == old(t)@,
{
}

/// Clients that ask for different clocks get different ones, and clients that ask for the same
/// get the same, whatever was before.
pub proof fn clocks_are_told_apart<H>(
    t: &mut TracingExtension<H>,
    args: &TracingArgs,
    handle: H,
    other_t: &mut TracingExtension<H>,
    other_args: &TracingArgs,
    other_handle: H,
)
    requires
        call_ensures(TracingExtension::<H>::start_with, (t, args, handle, None::<String>), Ok(())),
        call_ensures(
            TracingExtension::<H>::start_with,
            (other_t, other_args, other_handle, None::<String>),
            Ok(()),
        ),
    ensures
        final(t)@.clock == final(other_t)@.clock <==> args.timestamp_type
            == other_args.timestamp_type,
{
}

/// As an extension of an agent, tracing does what it does alone: it starts with the clock that the
/// client asked for unless its log filter is objected to, and stopping leaves the clock and the
/// log filter as they are.
pub proof fn extension_gets_its_clock<H: Send + Sync + 'static>(
    t: &mut TracingExtension<H>,
    args: &TracingArgs,
    handle: H,
    r: Result<(), ExtensionError>,
)
    requires
        call_ensures(<TracingExtension<H> as Extension>::start, (t, args, handle), r),
    ensures
        r is Ok <==> filter::objection_spec(args.log_filter@) is None,
        r is Ok ==> {
            &&& args.timestamp_type is Monotonic <==> final(t)@.clock == 1
            &&& args.timestamp_type is Boottime <==> final(t)@.clock == 7
            &&& args.timestamp_type is Realtime <==> final(t)@.clock == 0
            &&& final(t)@.log_filter == Some(args.log_filter@)
            &&& final(t)@.handle == Some(handle)
        },
        r is Err ==> final(t)@ == old(t)@,
{
}

/// Stopping takes away what events are submitted to and nothing else.
pub proof fn stopping_keeps_the_clock<H: Send + Sync + 'static>(
    t: &mut TracingExtension<H>,
    r: Result<(), ExtensionError>,
)
    requires
        call_ensures(<TracingExtension<H> as Extension>::stop, (t,), r),
    ensures
        r is Ok,
        final(t)@.handle is None,
        final(t)@.clock == old(t)@.clock,
        final(t)@.log_filter == old(t)@.log_filter,
{
}

/// Whoever asks is told what the client that started last asked for, and events go where that
/// client takes them until it stops.
pub proof fn started_tracing_is_told<H: Send + Sync + 'static>(
    t: &mut TracingExtension<H>,
    args: &TracingArgs,
    handle: H,
    clock: i32,
    filter: Option<&str>,
    active: bool,
    target: Result<&H, AgentError>,
)
    requires
        call_ensures(TracingExtension::<H>::start_with, (t, args, handle, None::<String>), Ok(())),
        call_ensures(TracingExtension::<H>::clock_id, (final(t),), clock),
        call_ensures(TracingExtension::<H>::log_filter, (final(t),), filter),
        call_ensures(TracingExtension::<H>::is_active, (final(t),), active),
        call_ensures(TracingExtension::<H>::submit, (final(t),), target),
    ensures
        args.timestamp_type is Monotonic <==> clock == 1,
        args.timestamp_type is Boottime <==> clock == 7,
        args.timestamp_type is Realtime <==> clock == 0,
        filter matches Some(f) && f@ == args.log_filter@,
        active,
        target matches Ok(h) && *h == handle,
{
}

/// Once tracing was stopped, there is nothing that an event could be submitted to.
pub proof fn stopped_tracing_submits_nothing<H: Send + Sync + 'static>(
    t: &mut TracingExtension<H>,
    r: Result<(), ExtensionError>,
    active: bool,
    target: Result<&H, AgentError>,
)
    requires
        call_ensures(<TracingExtension<H> as Extension>::stop, (t,), r),
        call_ensures(TracingExtension::<H>::is_active, (final(t),), active),
        call_ensures(TracingExtension::<H>::submit, (final(t),), target),
    ensures
        !active,
        target matches Err(e) && e is NotEnabled,
{
}

} // verus!
