//! What a trace in the Chrome trace event format tells.

use crate::chrome::args;
use crate::chrome::args::{add_labels, ArgValue, ArgView, Args};
use crate::chrome::converter::TraceConverter;
use crate::chrome::types::{ChromeTrace, TraceEvent};
use crate::protocol::events::UserEvent;
use crate::protocol::labels;
use crate::protocol::labels::Labels;
use vstd::prelude::*;

verus! {

/// The labels are found among the arguments: under its name is each truth value, each
/// floating-point value but where a truth value has the name too, each integer but where one of
/// those has it, and each text but where any other has it. Under all other names is what `before`
/// has.
pub open spec fn tells_labels(
    found: Map<Seq<char>, ArgView>,
    before: Map<Seq<char>, ArgView>,
    l: Labels,
    name: Seq<char>,
) -> bool {
    let b = labels::has_name(l.bools@, name);
    let f = labels::has_name(l.floats@, name);
    let i = labels::has_name(l.ints@, name);
    let t = labels::has_name(l.strings@, name);
    &&& forall|k: int|
        0 <= k < l.bools@.len() && (#[trigger] l.bools@[k]).0 == name ==> found.contains_key(name)
            && found[name] == ArgView::Bool(l.bools@[k].1)
    &&& forall|k: int|
        0 <= k < l.floats@.len() && (#[trigger] l.floats@[k]).0 == name && !b
            ==> found.contains_key(name) && found[name] == ArgView::Float(l.floats@[k].1)
    &&& forall|k: int|
        0 <= k < l.ints@.len() && (#[trigger] l.ints@[k]).0 == name && !b && !f
            ==> found.contains_key(name) && found[name] == ArgView::Int(l.ints@[k].1)
    &&& forall|k: int|
        0 <= k < l.strings@.len() && (#[trigger] l.strings@[k]).0 == name && !b && !f && !i
            ==> found.contains_key(name) && found[name] == ArgView::Text(l.strings@[k].1@)
    &&& !b && !f && !i && !t ==> found.contains_key(name) == before.contains_key(name) && (
    found.contains_key(name) ==> found[name] == before[name])
}

proof fn labels_are_told(before: Map<Seq<char>, ArgView>, l: Labels, name: Seq<char>)
    requires
        l.wf(),
    ensures
        tells_labels(args::with_labels(before, l), before, l, name),
{
    args::labels_are_found(before, l, name);
    let found = args::with_labels(before, l);
    assert forall|k: int| 0 <= k < l.bools@.len() && (#[trigger] l.bools@[k]).0 == name implies k
        == labels::name_index(l.bools@, name) by {
        only_place(l.bools@, name, k);
    }
    assert forall|k: int| 0 <= k < l.floats@.len() && (#[trigger] l.floats@[k]).0 == name implies k
        == labels::name_index(l.floats@, name) by {
        only_place(l.floats@, name, k);
    }
    assert forall|k: int| 0 <= k < l.ints@.len() && (#[trigger] l.ints@[k]).0 == name implies k
        == labels::name_index(l.ints@, name) by {
        only_place(l.ints@, name, k);
    }
    assert forall|k: int|
        0 <= k < l.strings@.len() && (#[trigger] l.strings@[k]).0 == name implies k
        == labels::name_index(l.strings@, name) by {
        only_place(l.strings@, name, k);
    }
}

proof fn only_place<V>(entries: Seq<(Seq<char>, V)>, name: Seq<char>, k: int)
    requires
        labels::distinct_names(entries),
        0 <= k < entries.len(),
        entries[k].0 == name,
    ensures
        labels::has_name(entries, name),
        k == labels::name_index(entries, name),
{
    let at = labels::name_index(entries, name);
    assert(entries[at].0 == entries[k].0);
    assert(k < at ==> entries[k].0 != entries[at].0);
    assert(at < k ==> entries[at].0 != entries[k].0);
}

/// Labels are added to arguments as they are.
pub proof fn added_labels_are_told(a: &mut Args, l: &Labels, name: Seq<char>)
    requires
        call_ensures(add_labels, (a, l), ()),
        l.wf(),
    ensures
        tells_labels(final(a)@, old(a)@, *l, name),
{
    labels_are_told(old(a)@, *l, name);
}

/// The arguments hold the labels and nothing else, and are left out where there are none.
pub open spec fn are_labels(a: Option<Args>, l: Labels, name: Seq<char>) -> bool {
    match a {
        Some(given) => tells_labels(given@, Map::empty(), l, name),
        None => !labels::has_name(l.bools@, name) && !labels::has_name(l.floats@, name)
            && !labels::has_name(l.ints@, name) && !labels::has_name(l.strings@, name),
    }
}

/// The trace event is of the given process and thread, with the same numbers.
pub open spec fn is_thread(pid: u32, tid: u32, of_pid: i32, of_tid: i32) -> bool {
    pid as i32 == of_pid && tid as i32 == of_tid
}

proof fn number_is_kept(n: i32)
    ensures
        n as u32 as i32 == n,
{
    assert(n as u32 as i32 == n) by (bit_vector);
}

proof fn labels_are_given(a: Option<Args>, l: Labels, name: Seq<char>)
    requires
        l.wf(),
        crate::chrome::converter::are_label_args(a, l),
    ensures
        are_labels(a, l, name),
{
    labels_are_told(Map::empty(), l, name);
}

/// A counter is told with its value under its own name, but where a label has that name.
pub proof fn counter_is_told(c: &mut TraceConverter, e: &UserEvent, name: Seq<char>)
    requires
        call_ensures(TraceConverter::convert_event, (c, e), ()),
        e matches UserEvent::Counter(v) && v.labels.wf(),
    ensures
        final(c).events().len() == old(c).events().len() + 1,
        final(c).events().drop_last() == old(c).events(),
        ({
            let v = e->Counter_0;
            &&& final(c).events().last() matches TraceEvent::Counter(t)
            &&& t.ph is Counter
            &&& t.name@ == v.name@
            &&& t.ts == v.timestamp
            &&& is_thread(t.pid, t.tid, v.pid, v.tid)
            &&& t.cat matches Some(cat) && cat@ == "counter"@
            &&& tells_labels(
                t.args@,
                Map::<Seq<char>, ArgView>::empty().insert(v.name@, ArgView::Float(v.value_bits)),
                v.labels,
                name,
            )
        }),
{
    let v = e->Counter_0;
    number_is_kept(v.pid);
    number_is_kept(v.tid);
    labels_are_told(
        Map::<Seq<char>, ArgView>::empty().insert(v.name@, ArgView::Float(v.value_bits)),
        v.labels,
        name,
    );
}

/// A span is told from its start to its end where it takes time, and not at all else.
pub proof fn span_is_told(c: &mut TraceConverter, e: &UserEvent, name: Seq<char>)
    requires
        call_ensures(TraceConverter::convert_event, (c, e), ()),
        e matches UserEvent::Span(v) && v.labels.wf(),
    ensures
        ({
            let v = e->Span_0;
            &&& v.end_timestamp <= v.start_timestamp ==> final(c).events() == old(c).events()
            &&& v.end_timestamp > v.start_timestamp ==> {
                &&& final(c).events().len() == old(c).events().len() + 1
                &&& final(c).events().drop_last() == old(c).events()
                &&& final(c).events().last() matches TraceEvent::Complete(t)
                &&& t.ph is Complete
                &&& t.name@ == v.name@
                &&& t.ts == v.start_timestamp
                &&& t.ts + t.dur == v.end_timestamp
                &&& is_thread(t.pid, t.tid, v.pid, v.tid)
                &&& t.cat matches Some(cat) && cat@ == "span"@
                &&& are_labels(t.args, v.labels, name)
            }
        }),
{
    let v = e->Span_0;
    number_is_kept(v.pid);
    number_is_kept(v.tid);
    if v.end_timestamp > v.start_timestamp {
        if let TraceEvent::Complete(t) = final(c).events().last() {
            labels_are_given(t.args, v.labels, name);
        }
    }
}

/// A point in time is told on its thread.
pub proof fn instant_is_told(c: &mut TraceConverter, e: &UserEvent, name: Seq<char>)
    requires
        call_ensures(TraceConverter::convert_event, (c, e), ()),
        e matches UserEvent::Instant(v) && v.labels.wf(),
    ensures
        final(c).events().len() == old(c).events().len() + 1,
        final(c).events().drop_last() == old(c).events(),
        ({
            let v = e->Instant_0;
            &&& final(c).events().last() matches TraceEvent::Instant(t)
            &&& t.ph is Instant
            &&& t.s is Thread
            &&& t.name@ == v.name@
            &&& t.ts == v.timestamp
            &&& is_thread(t.pid, t.tid, v.pid, v.tid)
            &&& t.cat matches Some(cat) && cat@ == "instant"@
            &&& are_labels(t.args, v.labels, name)
        }),
{
    let v = e->Instant_0;
    number_is_kept(v.pid);
    number_is_kept(v.tid);
    if let TraceEvent::Instant(t) = final(c).events().last() {
        labels_are_given(t.args, v.labels, name);
    }
}

/// Names of threads and processes are told as such, with the numbers of what they name.
pub proof fn name_is_told(c: &mut TraceConverter, e: &UserEvent)
    requires
        call_ensures(TraceConverter::convert_event, (c, e), ()),
        e is ThreadName || e is ProcessName,
    ensures
        final(c).events().len() == old(c).events().len() + 1,
        final(c).events().drop_last() == old(c).events(),
        final(c).events().last() matches TraceEvent::Metadata(t) && t.ph is Metadata && match e {
            UserEvent::ThreadName(n) => {
                &&& t.name is ThreadName
                &&& t.tid matches Some(tid) && is_thread(t.pid, tid, n.pid, n.tid)
                &&& t.args@.contains_key("name"@)
                &&& t.args@["name"@] == ArgView::Text(n.name@)
            },
            UserEvent::ProcessName(n) => {
                &&& t.name is ProcessName
                &&& t.tid is None
                &&& t.pid as i32 == n.pid
                &&& t.args@.contains_key("name"@)
                &&& t.args@["name"@] == ArgView::Text(n.name@)
            },
            _ => true,
        },
{
    if let UserEvent::ThreadName(n) = *e {
        number_is_kept(n.pid);
        number_is_kept(n.tid);
    }
    if let UserEvent::ProcessName(n) = *e {
        number_is_kept(n.pid);
    }
}

/// The finished trace has all events, and its times are nanoseconds.
pub proof fn finished_trace_has_all_events(c: TraceConverter, t: ChromeTrace)
    requires
        call_ensures(TraceConverter::into_chrome_trace, (c,), t),
    ensures
        t.trace_events matches Some(events) && events@ == c.events(),
        t.display_time_unit matches Some(unit) && unit@ == "ns"@,
        t.metadata matches Some(m) && m@.contains_key("generator"@) && m@["generator"@]
            == ArgView::Text("usertrace"@) && m@.contains_key("version"@) && m@["version"@]
            == ArgView::Text("0.1.0"@),
{
    reveal_strlit("generator");
    reveal_strlit("version");
    assert("generator"@.len() != "version"@.len());
}

/// A value that is stored under a name is found under it, and no other value changes.
pub proof fn stored_value_is_found(
    a: &mut Args,
    name: &str,
    value: ArgValue,
    other: &str,
    found: Option<&ArgValue>,
    before: Option<&ArgValue>,
)
    requires
        call_ensures(Args::insert, (a, name, value), ()),
        call_ensures(Args::get, (final(a), other), found),
        call_ensures(Args::get, (old(a), other), before),
    ensures
        other@ == name@ ==> (found matches Some(v) && v@ == value@),
        other@ != name@ ==> (found is Some <==> before is Some) && (found matches Some(v) ==> v@
            == before->Some_0@),
{
}

} // verus!
