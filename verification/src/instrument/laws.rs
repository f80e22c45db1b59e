//! What holds of what an instrumented process submits.

use crate::instrument::layer::{
    on_close, on_enter, on_event, on_exit, on_new_span, process_name_due, thread_name_due,
    timestamp_ns, AnnouncedTo, Occurrence,
};
use crate::protocol::events::{Event, Span};
use crate::protocol::labels;
use crate::protocol::labels::Labels;
use crate::text;
use vstd::prelude::*;

verus! {

/// The value `value` is stored under `name`.
pub open spec fn holds<V>(entries: Seq<(Seq<char>, V)>, name: Seq<char>, value: V) -> bool {
    exists|i: int| 0 <= i < entries.len() && #[trigger] entries[i] == (name, value)
}

/// The text `value` is stored under `name`.
pub open spec fn holds_text(
    entries: Seq<(Seq<char>, String)>,
    name: Seq<char>,
    value: Seq<char>,
) -> bool {
    exists|i: int|
        0 <= i < entries.len() && (#[trigger] entries[i]).0 == name && entries[i].1@ == value
}

proof fn stored_is_held<V>(
    entries: Seq<(Seq<char>, V)>,
    name: Seq<char>,
    value: V,
    other: Seq<char>,
    other_value: V,
)
    requires
        labels::distinct_names(entries),
    ensures
        holds(labels::stored(entries, name, value), name, value),
        other != name ==> (holds(labels::stored(entries, name, value), other, other_value)
            <==> holds(entries, other, other_value)),
        other == name && other_value != value ==> !holds(
            labels::stored(entries, name, value),
            other,
            other_value,
        ),
{
    let after = labels::stored(entries, name, value);
    if labels::has_name(entries, name) {
        let at = labels::name_index(entries, name);
        assert(after[at] == (name, value));
        assert forall|i: int| 0 <= i < after.len() && i != at implies #[trigger] after[i]
            == entries[i] && after[i].0 != name by {
            assert(i < at ==> entries[i].0 != entries[at].0);
            assert(at < i ==> entries[at].0 != entries[i].0);
        }
    } else {
        assert(after[entries.len() as int] == (name, value));
        assert forall|i: int| 0 <= i < entries.len() implies #[trigger] after[i] == entries[i]
            && after[i].0 != name by {}
    }
    if other != name {
        if holds(entries, other, other_value) {
            let i = choose|i: int|
                0 <= i < entries.len() && #[trigger] entries[i] == (other, other_value);
            assert(after[i] == (other, other_value));
        }
        if holds(after, other, other_value) {
            let i = choose|i: int|
                0 <= i < after.len() && #[trigger] after[i] == (other, other_value);
            assert(entries[i] == (other, other_value));
        }
    }
}

/// A signed integer is a label of that kind under the name of its field; all other labels stay.
pub proof fn signed_number_is_recorded(
    l: &mut Labels,
    field: &str,
    value: i64,
    other: Seq<char>,
    other_value: i64,
)
    requires
        call_ensures(Labels::record_i64, (l, field, value), ()),
        old(l).wf(),
    ensures
        final(l).wf(),
        holds(final(l).ints@, field@, value),
        other != field@ ==> (holds(final(l).ints@, other, other_value) <==> holds(
            old(l).ints@,
            other,
            other_value,
        )),
        other == field@ && other_value != value ==> !holds(final(l).ints@, other, other_value),
        final(l).strings@ == old(l).strings@,
        final(l).bools@ == old(l).bools@,
        final(l).floats@ == old(l).floats@,
{
    stored_is_held(old(l).ints@, field@, value, other, other_value);
}

/// An unsigned integer is a label with the same number, or a floating-point value where it is too
/// large for a signed one; all other labels stay.
pub proof fn unsigned_number_is_recorded(
    l: &mut Labels,
    field: &str,
    value: u64,
    float_bits: u64,
    other: Seq<char>,
    other_value: i64,
    other_bits: u64,
)
    requires
        call_ensures(Labels::record_u64, (l, field, value, float_bits), ()),
        old(l).wf(),
    ensures
        final(l).wf(),
        value <= 0x7fff_ffff_ffff_ffff ==> holds(final(l).ints@, field@, value as i64)
            && final(l).floats@ == old(l).floats@,
        value > 0x7fff_ffff_ffff_ffff ==> holds(final(l).floats@, field@, float_bits)
            && final(l).ints@ == old(l).ints@,
        other != field@ ==> (holds(final(l).ints@, other, other_value) <==> holds(
            old(l).ints@,
            other,
            other_value,
        )),
        other != field@ ==> (holds(final(l).floats@, other, other_bits) <==> holds(
            old(l).floats@,
            other,
            other_bits,
        )),
        final(l).strings@ == old(l).strings@,
        final(l).bools@ == old(l).bools@,
{
    stored_is_held(old(l).ints@, field@, value as i64, other, other_value);
    stored_is_held(old(l).floats@, field@, float_bits, other, other_bits);
}

/// A floating-point value is a label of that kind; all other labels stay.
pub proof fn floating_point_value_is_recorded(
    l: &mut Labels,
    field: &str,
    bits: u64,
    other: Seq<char>,
    other_bits: u64,
)
    requires
        call_ensures(Labels::record_f64, (l, field, bits), ()),
        old(l).wf(),
    ensures
        final(l).wf(),
        holds(final(l).floats@, field@, bits),
        other != field@ ==> (holds(final(l).floats@, other, other_bits) <==> holds(
            old(l).floats@,
            other,
            other_bits,
        )),
        final(l).strings@ == old(l).strings@,
        final(l).ints@ == old(l).ints@,
        final(l).bools@ == old(l).bools@,
{
    stored_is_held(old(l).floats@, field@, bits, other, other_bits);
}

/// A truth value is a label of that kind; all other labels stay.
pub proof fn truth_value_is_recorded(
    l: &mut Labels,
    field: &str,
    value: bool,
    other: Seq<char>,
    other_value: bool,
)
    requires
        call_ensures(Labels::record_bool, (l, field, value), ()),
        old(l).wf(),
    ensures
        final(l).wf(),
        holds(final(l).bools@, field@, value),
        !holds(final(l).bools@, field@, !value),
        other != field@ ==> (holds(final(l).bools@, other, other_value) <==> holds(
            old(l).bools@,
            other,
            other_value,
        )),
        final(l).strings@ == old(l).strings@,
        final(l).ints@ == old(l).ints@,
        final(l).floats@ == old(l).floats@,
{
    stored_is_held(old(l).bools@, field@, value, other, other_value);
    stored_is_held(old(l).bools@, field@, value, field@, !value);
}

/// A text is a label with that text; all other labels stay.
pub proof fn text_is_recorded(
    l: &mut Labels,
    field: &str,
    value: &str,
    other: Seq<char>,
    other_value: String,
)
    requires
        call_ensures(Labels::record_str, (l, field, value), ()),
        old(l).wf(),
    ensures
        final(l).wf(),
        holds_text(final(l).strings@, field@, value@),
        other != field@ ==> (holds(final(l).strings@, other, other_value) <==> holds(
            old(l).strings@,
            other,
            other_value,
        )),
        final(l).ints@ == old(l).ints@,
        final(l).bools@ == old(l).bools@,
        final(l).floats@ == old(l).floats@,
{
    let s = choose|s: String|
        s@ == value@ && final(l).strings@ == #[trigger] labels::stored(
            old(l).strings@,
            field@,
            s,
        );
    stored_is_held(old(l).strings@, field@, s, other, other_value);
    let i = choose|i: int|
        0 <= i < final(l).strings@.len() && #[trigger] final(l).strings@[i] == (field@, s);
    assert(final(l).strings@[i].0 == field@ && final(l).strings@[i].1@ == value@);
}

/// Any other value is a text, as it is shown; all other labels stay.
pub proof fn shown_value_is_recorded(
    l: &mut Labels,
    field: &str,
    shown: String,
    other: Seq<char>,
    other_value: String,
)
    requires
        call_ensures(Labels::record_debug, (l, field, shown), ()),
        old(l).wf(),
    ensures
        final(l).wf(),
        holds_text(final(l).strings@, field@, shown@),
        other != field@ ==> (holds(final(l).strings@, other, other_value) <==> holds(
            old(l).strings@,
            other,
            other_value,
        )),
        final(l).ints@ == old(l).ints@,
        final(l).bools@ == old(l).bools@,
        final(l).floats@ == old(l).floats@,
{
    stored_is_held(old(l).strings@, field@, shown, other, other_value);
    let i = choose|i: int|
        0 <= i < final(l).strings@.len() && #[trigger] final(l).strings@[i] == (field@, shown);
    assert(final(l).strings@[i].0 == field@ && final(l).strings@[i].1@ == shown@);
}

/// Labels are copied as they are, each kind for itself.
pub proof fn labels_are_copied(l: &Labels, c: Labels)
    requires
        call_ensures(Labels::copied, (l,), c),
    ensures
        c.strings@ == l.strings@,
        c.ints@ == l.ints@,
        c.bools@ == l.bools@,
        c.floats@ == l.floats@,
        l.wf() ==> c.wf(),
{
}

/// The span event tells where and when, and what was recorded with the span.
pub open spec fn tells_span(s: Span, id: u64, at: Occurrence, kept: Labels) -> bool {
    &&& s.span_id == id
    &&& s.name@ == at.name@
    &&& s.timestamp == at.timestamp
    &&& s.tid == at.tid
    &&& s.pid == at.pid
    &&& s.labels.strings@ == kept.strings@
    &&& s.labels.ints@ == kept.ints@
    &&& s.labels.bools@ == kept.bools@
    &&& s.labels.floats@ == kept.floats@
}

/// A span that is kept starts when it is entered, stops when it is left and ends when it is over,
/// under one number and with the labels that were recorded for it when it began. Of a span that
/// began while no client wanted events, nothing is submitted.
pub proof fn span_is_followed(
    enabled: bool,
    recorded: Labels,
    stored: Option<Labels>,
    id: u64,
    at: &Occurrence,
    entered: Option<Event>,
    left: Option<Event>,
    over: Option<Event>,
    kept: Option<&Labels>,
)
    requires
        call_ensures(on_new_span, (enabled, recorded), stored),
        kept is Some <==> stored is Some,
        kept matches Some(k) ==> *k == stored->Some_0,
        call_ensures(on_enter, (id, at, kept), entered),
        call_ensures(on_exit, (id, at, kept), left),
        call_ensures(on_close, (id, at, kept), over),
    ensures
        enabled ==> {
            &&& entered matches Some(Event::Span(s)) && s.event is Start && tells_span(
                s,
                id,
                *at,
                recorded,
            )
            &&& left matches Some(Event::Span(s)) && s.event is Stop && tells_span(
                s,
                id,
                *at,
                recorded,
            )
            &&& over matches Some(Event::Span(s)) && s.event is End && tells_span(
                s,
                id,
                *at,
                recorded,
            )
        },
        !enabled ==> entered is None && left is None && over is None,
{
}

/// A log event is an instant with its name, time, thread and labels, while a client wants events.
pub proof fn log_event_is_submitted(
    enabled: bool,
    at: &Occurrence,
    recorded: Labels,
    e: Option<Event>,
)
    requires
        call_ensures(on_event, (enabled, at, recorded), e),
    ensures
        e is Some <==> enabled,
        enabled ==> (e matches Some(Event::Instant(i)) && i.name@ == at.name@ && i.timestamp
            == at.timestamp && i.tid == at.tid && i.pid == at.pid && i.labels == recorded),
{
}

/// The name of a process is submitted to each client once: the first time that this client is
/// there, and not again while it stays.
pub proof fn process_is_named_once(
    a: &mut AnnouncedTo,
    client: u64,
    file_name: Option<&str>,
    pid: i32,
    e: Option<Event>,
)
    requires
        call_ensures(process_name_due, (a, Some(client), file_name, pid), e),
    ensures
        final(a).client() == Some(client),
        e is Some <==> old(a).client() != Some(client),
        e is Some ==> {
            &&& e matches Some(Event::ProcessName(n)) && n.pid == pid && match file_name {
                Some(f) => n.name@ == f@,
                None => n.name@ == "process-"@ + text::signed_decimal(pid as int),
            }
        },
{
}

/// The name of a thread is submitted to each client once, with the numbers of the thread and its
/// process.
pub proof fn thread_is_named_once(
    a: &mut AnnouncedTo,
    client: u64,
    name: Option<&str>,
    tid: i32,
    pid: i32,
    e: Option<Event>,
)
    requires
        call_ensures(thread_name_due, (a, Some(client), name, tid, pid), e),
    ensures
        final(a).client() == Some(client),
        e is Some <==> old(a).client() != Some(client),
        e is Some ==> {
            &&& e matches Some(Event::ThreadName(n)) && n.tid == tid && n.pid == pid && match name {
                Some(f) => n.name@ == f@,
                None => n.name@ == "thread-"@ + text::signed_decimal(tid as int),
            }
        },
{
}

/// Without a client no name is submitted, and the last one counts as named still.
pub proof fn nothing_is_named_without_client(
    a: &mut AnnouncedTo,
    b: &mut AnnouncedTo,
    name: Option<&str>,
    tid: i32,
    pid: i32,
    process: Option<Event>,
    thread: Option<Event>,
)
    requires
        call_ensures(process_name_due, (a, None::<u64>, name, pid), process),
        call_ensures(thread_name_due, (b, None::<u64>, name, tid, pid), thread),
    ensures
        process is None,
        thread is None,
        final(a).client() == old(a).client(),
        final(b).client() == old(b).client(),
{
}

/// A time is told in nanoseconds: one more nanosecond or second is told as just that.
pub proof fn times_are_nanoseconds(s: i64, ns: i64, t: u64, later_s: i64, later_ns: i64, later: u64)
    requires
        call_ensures(timestamp_ns, (s, ns), t),
        call_ensures(timestamp_ns, (later_s, later_ns), later),
        0 <= s <= later_s,
        0 <= ns && 0 <= later_ns,
        later_s * 1_000_000_000 + later_ns <= u64::MAX,
        s * 1_000_000_000 + ns <= u64::MAX,
    ensures
        later - t == (later_s - s) * 1_000_000_000 + (later_ns - ns),
        s == 0 ==> t == ns,
{
}

} // verus!
