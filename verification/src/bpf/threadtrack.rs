//! The names of threads and processes.

use crate::bpf::error::BpfError;
use crate::protocol::events::{ProcessName, ThreadName, TraceInput};
use crate::text;
use crate::text::{join2, utf8_text};
use vstd::prelude::*;
use vstd::slice::*;
use vstd::string::*;
use vstd::utf8::*;

verus! {

/// What the BPF program reports: a thread that was named or a program that was started.
pub struct ThreadEvent {
    pub pid: u32,
    pub tgid: u32,
    pub comm: [u8; 16],
    pub filename: [u8; 256],
}

/// The bytes before the first zero.
pub open spec fn c_text(bytes: Seq<u8>) -> Seq<u8>
    decreases bytes.len(),
{
    if bytes.len() == 0 || bytes[0] == 0 {
        seq![]
    } else {
        seq![bytes[0]] + c_text(bytes.drop_first())
    }
}

proof fn c_text_prefix(bytes: Seq<u8>, n: int)
    requires
        0 <= n <= bytes.len(),
        forall|i: int| 0 <= i < n ==> bytes[i] != 0,
        n < bytes.len() ==> bytes[n] == 0,
    ensures
        c_text(bytes) == bytes.take(n),
    decreases bytes.len(),
{
    if n == 0 {
        assert(bytes.take(0) =~= seq![]);
    } else {
        c_text_prefix(bytes.drop_first(), n - 1);
        assert(bytes.take(n) =~= seq![bytes[0]] + bytes.drop_first().take(n - 1));
    }
}

/// The text before the first zero.
fn text_before_zero(bytes: &[u8]) -> (s: &str)
    requires
        valid_utf8(c_text(bytes@)),
    ensures
        encode_utf8(s@) == c_text(bytes@),
{
    let mut n: usize = 0;
    while n < bytes.len() && bytes[n] != 0
        invariant
            n <= bytes@.len(),
            forall|i: int| 0 <= i < n ==> bytes@[i] != 0,
        decreases bytes@.len() - n,
    {
        n += 1;
    }
    proof {
        c_text_prefix(bytes@, n as int);
        assert(bytes@.subrange(0, n as int) =~= bytes@.take(n as int));
    }
    let used = slice_subrange(bytes, 0, n);
    match utf8_text(used) {
        Some(s) => s,
        None => {
            assert(false);
            ""
        },
    }
}

impl ThreadEvent {
    /// The name of the thread. It must be text.
    pub fn comm_str(&self) -> (s: &str)
        requires
            valid_utf8(c_text(self.comm@)),
        ensures
            encode_utf8(s@) == c_text(self.comm@),
    {
        text_before_zero(self.comm.as_slice())
    }

    /// The file of the program. It must be text.
    pub fn filename_str(&self) -> (s: &str)
        requires
            valid_utf8(c_text(self.filename@)),
        ensures
            encode_utf8(s@) == c_text(self.filename@),
    {
        text_before_zero(self.filename.as_slice())
    }

    /// The name that the event gives: that of the process where a program was started, that of
    /// the thread else.
    pub fn name_event(&self) -> (e: TraceInput)
        requires
            valid_utf8(c_text(self.filename@)),
            c_text(self.filename@).len() == 0 ==> valid_utf8(c_text(self.comm@)),
        ensures
            c_text(self.filename@).len() > 0 ==> (e matches TraceInput::ProcessName(n)
                && encode_utf8(n.name@) == c_text(self.filename@) && n.pid == self.tgid as i32),
            c_text(self.filename@).len() == 0 ==> (e matches TraceInput::ThreadName(n)
                && encode_utf8(n.name@) == c_text(self.comm@) && n.tid == self.pid as i32 && n.pid
                == self.tgid as i32),
    {
        let filename = self.filename_str();
        proof {
            encode_utf8_len(filename@);
        }
        if !filename.is_empty() {
            TraceInput::ProcessName(
                ProcessName { name: filename.to_owned(), pid: self.tgid as i32 },
            )
        } else {
            TraceInput::ThreadName(
                ThreadName {
                    name: self.comm_str().to_owned(),
                    tid: self.pid as i32,
                    pid: self.tgid as i32,
                },
            )
        }
    }
}

/// Only the empty text takes no bytes.
proof fn encode_utf8_len(s: Seq<char>)
    ensures
        encode_utf8(s).len() == 0 <==> s.len() == 0,
{
    reveal_with_fuel(encode_utf8, 2);
}

/// An entry of a directory of threads or processes: its name, where that is text, and the name
/// of the thread or process, where it could be read.
pub struct TaskEntry {
    pub file_name: Option<String>,
    pub comm: Option<String>,
}

/// An entry of the directory of processes, with its threads.
pub struct ProcEntry {
    pub task: TaskEntry,
    /// The threads, where they could be listed.
    pub threads: Vec<TaskEntry>,
}

/// What a name event says.
#[verifier::ext_equal]
pub enum NameView {
    Process { name: Seq<char>, pid: i32 },
    Thread { name: Seq<char>, tid: i32, pid: i32 },
}

/// The name of the thread that `entry` stands for; none where it is the process itself, is no
/// thread, or has no name.
pub open spec fn thread_name_of(pid: i32, entry: TaskEntry) -> Seq<NameView> {
    match (entry.file_name, entry.comm) {
        (Some(f), Some(comm)) => match text::parsed_i32(f@) {
            Some(tid) => if tid == pid {
                seq![]
            } else {
                seq![NameView::Thread { name: text::trimmed(comm@), tid, pid }]
            },
            None => seq![],
        },
        _ => seq![],
    }
}

/// The names of the first `n` threads.
pub open spec fn thread_names_of(pid: i32, threads: Seq<TaskEntry>, n: int) -> Seq<NameView>
    decreases n,
{
    if n <= 0 {
        seq![]
    } else {
        thread_names_of(pid, threads, n - 1) + thread_name_of(pid, threads[n - 1])
    }
}

/// The names of a process and of its threads.
pub open spec fn process_names_of(entry: ProcEntry) -> Seq<NameView> {
    match entry.task.file_name {
        Some(f) => match text::parsed_i32(f@) {
            Some(pid) => (match entry.task.comm {
                Some(comm) => seq![NameView::Process { name: text::trimmed(comm@), pid }],
                None => seq![],
            }) + thread_names_of(pid, entry.threads@, entry.threads@.len() as int),
            None => seq![],
        },
        None => seq![],
    }
}

/// The names of the first `n` processes and of their threads.
pub open spec fn scan_names(entries: Seq<ProcEntry>, n: int) -> Seq<NameView>
    decreases n,
{
    if n <= 0 {
        seq![]
    } else {
        scan_names(entries, n - 1) + process_names_of(entries[n - 1])
    }
}

/// What a list of events says.
pub open spec fn names_view(events: Seq<TraceInput>) -> Seq<NameView> {
    Seq::new(events.len(), |i: int| name_view(events[i]))
}

/// What a name event says.
pub open spec fn name_view(e: TraceInput) -> NameView {
    match e {
        TraceInput::ProcessName(n) => NameView::Process { name: n.name@, pid: n.pid },
        TraceInput::ThreadName(n) => NameView::Thread { name: n.name@, tid: n.tid, pid: n.pid },
        _ => arbitrary(),
    }
}

/// All events are names.
pub open spec fn only_names(events: Seq<TraceInput>) -> bool {
    forall|i: int|
        0 <= i < events.len() ==> (#[trigger] events[i] is ProcessName || events[i] is ThreadName)
}

fn push_thread_name(out: &mut Vec<TraceInput>, pid: i32, entry: &TaskEntry)
    requires
        only_names(old(out)@),
    ensures
        only_names(final(out)@),
        names_view(final(out)@) == names_view(old(out)@) + thread_name_of(pid, *entry),
{
    let ghost before = out@;
    if let Some(f) = &entry.file_name {
        if let Some(tid) = text::parse_i32(f.as_str()) {
            if tid != pid {
                if let Some(comm) = &entry.comm {
                    out.push(
                        TraceInput::ThreadName(
                            ThreadName {
                                name: text::trim(comm.as_str()).to_owned(),
                                tid,
                                pid,
                            },
                        ),
                    );
                }
            }
        }
    }
    assert(names_view(out@) =~= names_view(before) + thread_name_of(pid, *entry));
}

/// The names of all processes and threads that `entries` list, processes before their threads.
/// Entries that are no process or thread are passed over.
pub fn scan_proc(entries: &Vec<ProcEntry>) -> (out: Vec<TraceInput>)
    ensures
        only_names(out@),
        names_view(out@) == scan_names(entries@, entries@.len() as int),
{
    let mut out: Vec<TraceInput> = Vec::new();
    let mut i: usize = 0;
    assert(names_view(out@) =~= seq![]);
    while i < entries.len()
        invariant
            i <= entries@.len(),
            only_names(out@),
            names_view(out@) == scan_names(entries@, i as int),
        decreases entries@.len() - i,
    {
        let ghost start = names_view(out@);
        let entry = &entries[i];
        let pid: Option<i32> = match &entry.task.file_name {
            Some(f) => text::parse_i32(f.as_str()),
            None => None,
        };
        if let Some(pid) = pid {
            let ghost own = match &entry.task.comm {
                Some(comm) => seq![NameView::Process { name: text::trimmed(comm@), pid }],
                None => seq![],
            };
            if let Some(comm) = &entry.task.comm {
                out.push(
                    TraceInput::ProcessName(
                        ProcessName { name: text::trim(comm.as_str()).to_owned(), pid },
                    ),
                );
            }
            assert(names_view(out@) =~= start + own);
            let mut k: usize = 0;
            assert(start + own + thread_names_of(pid, entry.threads@, 0) =~= start + own);
            while k < entry.threads.len()
                invariant
                    k <= entry.threads@.len(),
                    only_names(out@),
                    names_view(out@) == start + own + thread_names_of(
                        pid,
                        entry.threads@,
                        k as int,
                    ),
                decreases entry.threads@.len() - k,
            {
                push_thread_name(&mut out, pid, &entry.threads[k]);
                k += 1;
                assert(names_view(out@) =~= start + own + thread_names_of(
                    pid,
                    entry.threads@,
                    k as int,
                ));
            }
            assert(names_view(out@) =~= start + process_names_of(*entry));
        } else {
            assert(names_view(out@) =~= start + process_names_of(*entry));
        }
        i += 1;
    }
    out
}

/// Tells the names of threads and processes: those that are there first, once.
pub struct ThreadTracker {
    proc_scanned: bool,
}

/// What is said where the processes cannot be listed.
pub open spec fn listing_failed(reason: Seq<char>) -> Seq<char> {
    "failed to read /proc: "@ + reason
}

impl ThreadTracker {
    /// Whether the names that were there have been told.
    pub closed spec fn scanned(self) -> bool {
        self.proc_scanned
    }

    /// Nothing told.
    pub fn new() -> (t: ThreadTracker)
        ensures
            !t.scanned(),
    {
        ThreadTracker { proc_scanned: false }
    }

    /// Whether the processes are to be listed.
    pub fn scan_due(&self) -> (b: bool)
        ensures
            b == !self.scanned(),
    {
        !self.proc_scanned
    }

    /// The names to tell before events are taken in, given a list of the processes or why there
    /// is none. Once they have been told there are no more; where the list failed it is due
    /// again.
    pub fn before_events(&mut self, listing: Result<Vec<ProcEntry>, String>) -> (r: Result<
        Vec<TraceInput>,
        BpfError,
    >)
        ensures
            old(self).scanned() ==> final(self).scanned() && (r matches Ok(names) && names@.len()
                == 0),
            !old(self).scanned() ==> match listing {
                Ok(entries) => {
                    &&& final(self).scanned()
                    &&& r matches Ok(names) && only_names(names@) && names_view(names@)
                        == scan_names(entries@, entries@.len() as int)
                },
                Err(reason) => {
                    &&& !final(self).scanned()
                    &&& r matches Err(e) && e.is_map(listing_failed(reason@))
                },
            },
    {
        if self.proc_scanned {
            return Ok(Vec::new());
        }
        match listing {
            Ok(entries) => {
                let names = scan_proc(&entries);
                self.proc_scanned = true;
                Ok(names)
            },
            Err(reason) => Err(
                BpfError::MapError(join2("failed to read /proc: ", reason.as_str())),
            ),
        }
    }
}

} // verus!
