//! What to record: the buffer, the data that BPF programs collect, and the processes to attach
//! to.

use crate::bpf::BpfConfig;
use crate::protocol::control::LogLevel;
use crate::text;
use crate::text::{join2, same_text, to_lowercase};
use vstd::prelude::*;
use vstd::string::*;

verus! {

/// What to record.
pub struct Config {
    pub global: GlobalConfig,
    pub bpf: BpfConfig,
    pub user: Vec<UserConfig>,
}

/// What concerns the recording as a whole.
pub struct GlobalConfig {
    pub buffer_size: usize,
}

impl Default for GlobalConfig {
    fn default() -> (c: GlobalConfig)
        ensures
            c.buffer_size == 0,
    {
        GlobalConfig { buffer_size: 0 }
    }
}

/// An instrumented process to attach to.
pub struct UserConfig {
    pub socket: String,
    pub log_filter: String,
    pub random_process_id: Option<bool>,
}

/// The log filter where nothing else is asked for.
pub fn default_log_filter() -> (s: String)
    ensures
        s@ == "DEBUG"@,
{
    "DEBUG".to_owned()
}

/// The size of the buffer where nothing else is asked for.
pub fn default_buffer_size() -> (n: usize)
    ensures
        n == 8 * 1024 * 1024,
{
    8388608
}

/// A log level that is none.
pub struct InvalidLogLevel {
    pub level: String,
}

impl InvalidLogLevel {
    /// The failure in words.
    pub fn message(&self) -> (s: String)
        ensures
            s@ == "Invalid log level: "@ + self.level@,
    {
        join2("Invalid log level: ", self.level.as_str())
    }
}

/// The log level with the name `name`, in small letters.
pub open spec fn level_named(name: Seq<char>) -> Option<LogLevel> {
    if name == "error"@ {
        Some(LogLevel::Error)
    } else if name == "warn"@ {
        Some(LogLevel::Warn)
    } else if name == "info"@ {
        Some(LogLevel::Info)
    } else if name == "debug"@ {
        Some(LogLevel::Debug)
    } else if name == "trace"@ {
        Some(LogLevel::Trace)
    } else {
        None
    }
}

/// Finds the log level with the name `name`, in small letters.
pub fn log_level_by_name(name: &str) -> (l: Option<LogLevel>)
    ensures
        l == level_named(name@),
{
    if same_text(name, "error") {
        Some(LogLevel::Error)
    } else if same_text(name, "warn") {
        Some(LogLevel::Warn)
    } else if same_text(name, "info") {
        Some(LogLevel::Info)
    } else if same_text(name, "debug") {
        Some(LogLevel::Debug)
    } else if same_text(name, "trace") {
        Some(LogLevel::Trace)
    } else {
        None
    }
}

/// Each log level is found by its name.
pub proof fn levels_are_found_by_name(l: LogLevel)
    ensures
        level_named(l.name_spec()) == Some(l),
{
    reveal_strlit("error");
    reveal_strlit("warn");
    reveal_strlit("info");
    reveal_strlit("debug");
    reveal_strlit("trace");
    assert("error"@[0] == 'e' && "debug"@[0] == 'd' && "trace"@[0] == 't');
    assert("warn"@[0] == 'w' && "info"@[0] == 'i');
}

/// Whether a text is in ASCII.
pub open spec fn is_ascii_text(s: Seq<char>) -> bool {
    forall|i: int| 0 <= i < s.len() ==> (#[trigger] s[i] as int) < 128
}

/// Reads a log level, in small letters or capitals.
pub fn parse_log_level(level: &str) -> (r: Result<LogLevel, InvalidLogLevel>)
    ensures
        match level_named(text::lowercase(level@)) {
            Some(l) => r == Ok::<LogLevel, InvalidLogLevel>(l),
            None => r matches Err(e) && e.level@ == level@,
        },
        is_ascii_text(level@) ==> (r is Ok <==> level_named(
            level@.map_values(|c: char| text::small_letter(c)),
        ) is Some),
        is_ascii_text(level@) ==> (r matches Ok(l) ==> level_named(
            level@.map_values(|c: char| text::small_letter(c)),
        ) == Some(l)),
{
    let lower = to_lowercase(level);
    match log_level_by_name(lower.as_str()) {
        Some(l) => Ok(l),
        None => Err(InvalidLogLevel { level: level.to_owned() }),
    }
}

/// The letters are the same, whether capital or small; `b` is a small letter.
pub open spec fn same_letter(a: char, b: char) -> bool {
    a == b || ('A' <= a <= 'Z' && a as int + 32 == b as int)
}

/// The texts are the same but for capitals; `b` has none.
pub open spec fn same_letters(a: Seq<char>, b: Seq<char>) -> bool {
    a.len() == b.len() && forall|i: int| 0 <= i < a.len() ==> same_letter(#[trigger] a[i], b[i])
}

/// Each level has its own name, and is found by it.
pub proof fn levels_are_told_apart(l: &LogLevel, name: &'static str, back: Option<LogLevel>)
    requires
        call_ensures(LogLevel::name, (l,), name),
        call_ensures(log_level_by_name, (name,), back),
    ensures
        back == Some(*l),
        l is Error ==> name@ == "error"@,
        l is Warn ==> name@ == "warn"@,
        l is Info ==> name@ == "info"@,
        l is Debug ==> name@ == "debug"@,
        l is Trace ==> name@ == "trace"@,
{
    levels_are_found_by_name(*l);
}

/// A level is read from its name in any mixture of capital and small letters, and from nothing
/// else in ASCII; what is refused is told as it was given.
pub proof fn levels_are_read_in_any_case(
    level: &str,
    r: Result<LogLevel, InvalidLogLevel>,
    l: &LogLevel,
    name: &'static str,
)
    requires
        call_ensures(parse_log_level, (level,), r),
        call_ensures(LogLevel::name, (l,), name),
        is_ascii_text(level@),
    ensures
        r matches Ok(found) && found == *l <==> same_letters(level@, name@),
        r matches Err(e) ==> e.level@ == level@,
{
    reveal_strlit("error");
    reveal_strlit("warn");
    reveal_strlit("info");
    reveal_strlit("debug");
    reveal_strlit("trace");
    levels_are_found_by_name(*l);
    let small = level@.map_values(|c: char| text::small_letter(c));
    assert(small.len() == level@.len());
    if same_letters(level@, name@) {
        assert forall|i: int| 0 <= i < small.len() implies small[i] == name@[i] by {
            assert(same_letter(level@[i], name@[i]));
            assert('a' <= name@[i] <= 'z');
        }
        assert(small =~= name@);
    }
    if r matches Ok(found) && found == *l {
        assert(level_named(small) == Some(*l));
        assert(small == name@);
        assert forall|i: int| 0 <= i < level@.len() implies same_letter(
            #[trigger] level@[i],
            name@[i],
        ) by {
            assert(small[i] == text::small_letter(level@[i]));
        }
    }
}

} // verus!
