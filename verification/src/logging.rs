//! A logger that keeps its lines in memory, to be printed after the
//! terminal user interface has closed.

use vstd::prelude::*;
use vstd::string::StringExecFns;
use vstd::rwlock::{RwLock, RwLockPredicate};
use std::time::{Duration, Instant};

verus! {

/// `log::Metadata`, opaque here: it is only handed to a wrapper.
#[verifier::external_type_specification]
#[verifier::external_body]
pub struct ExMetadata<'a>(log::Metadata<'a>);

/// `log::Record`, opaque here: it is only handed to wrappers.
#[verifier::external_type_specification]
#[verifier::external_body]
pub struct ExRecord<'a>(log::Record<'a>);

/// `log::SetLoggerError`, the error `log::set_logger` may return.
#[verifier::external_type_specification]
#[verifier::external_body]
pub struct ExSetLoggerError(log::SetLoggerError);

/// `std::time::Instant`, opaque here: the logger's start time.
#[verifier::external_type_specification]
#[verifier::external_body]
pub struct ExInstant(Instant);

/// The severity of a log line, most severe first.
#[derive(Clone, Copy, Debug, PartialEq, Eq, Structural)]
pub enum Level {
    Error,
    Warn,
    Info,
    Debug,
    Trace,
}

/// The least severe level that is logged, or `Off`.
#[derive(Clone, Copy, Debug, PartialEq, Eq, Structural)]
pub enum LevelFilter {
    Off,
    Error,
    Warn,
    Info,
    Debug,
    Trace,
}

/// The rank of a level: 1 for errors up to 5 for traces.
pub open spec fn level_rank(l: Level) -> int {
    match l {
        Level::Error => 1,
        Level::Warn => 2,
        Level::Info => 3,
        Level::Debug => 4,
        Level::Trace => 5,
    }
}

/// The rank of a filter: 0 for `Off` up to 5 for `Trace`.
pub open spec fn filter_rank(f: LevelFilter) -> int {
    match f {
        LevelFilter::Off => 0,
        LevelFilter::Error => 1,
        LevelFilter::Warn => 2,
        LevelFilter::Info => 3,
        LevelFilter::Debug => 4,
        LevelFilter::Trace => 5,
    }
}

/// The level's name padded to five columns.
pub open spec fn level_label(l: Level) -> Seq<char> {
    match l {
        Level::Error => seq!['E', 'R', 'R', 'O', 'R'],
        Level::Warn => seq!['W', 'A', 'R', 'N', ' '],
        Level::Info => seq!['I', 'N', 'F', 'O', ' '],
        Level::Debug => seq!['D', 'E', 'B', 'U', 'G'],
        Level::Trace => seq!['T', 'R', 'A', 'C', 'E'],
    }
}

/// A buffered line: `[+<seconds>s] [<level>] <message>`.
pub open spec fn entry_line(seconds: Seq<char>, level: Level, message: Seq<char>) -> Seq<char> {
    seq!['[', '+'] + seconds + seq!['s', ']', ' ', '['] + level_label(level) + seq![']', ' '] + message
}

/// `log::max_level`: the global maximum level. It is process-wide state, so
/// nothing is stated of the result.
#[verifier::external_body]
fn current_max_level() -> LevelFilter {
    match log::max_level() {
        log::LevelFilter::Off => LevelFilter::Off,
        log::LevelFilter::Error => LevelFilter::Error,
        log::LevelFilter::Warn => LevelFilter::Warn,
        log::LevelFilter::Info => LevelFilter::Info,
        log::LevelFilter::Debug => LevelFilter::Debug,
        log::LevelFilter::Trace => LevelFilter::Trace,
    }
}

/// `log::set_max_level`: sets the global maximum level (process-wide state;
/// nothing is stated).
#[verifier::external_body]
fn store_max_level(filter: LevelFilter) {
    log::set_max_level(
        match filter {
            LevelFilter::Off => log::LevelFilter::Off,
            LevelFilter::Error => log::LevelFilter::Error,
            LevelFilter::Warn => log::LevelFilter::Warn,
            LevelFilter::Info => log::LevelFilter::Info,
            LevelFilter::Debug => log::LevelFilter::Debug,
            LevelFilter::Trace => log::LevelFilter::Trace,
        },
    );
}

/// `log::set_logger`: installs the global logger once; later calls fail.
/// Whether it succeeds depends on process-wide state, so nothing is stated.
#[verifier::external_body]
fn install_logger(logger: &'static BufferedLogger) -> Result<(), log::SetLoggerError> {
    log::set_logger(logger)
}

/// `log::Metadata::level`, as this library's level. Nothing is stated: the
/// metadata is opaque here.
#[verifier::external_body]
fn metadata_level(metadata: &log::Metadata) -> Level {
    match metadata.level() {
        log::Level::Error => Level::Error,
        log::Level::Warn => Level::Warn,
        log::Level::Info => Level::Info,
        log::Level::Debug => Level::Debug,
        log::Level::Trace => Level::Trace,
    }
}

/// `log::Record::level`, as this library's level. Nothing is stated: the
/// record is opaque here.
#[verifier::external_body]
fn record_level(record: &log::Record) -> Level {
    match record.level() {
        log::Level::Error => Level::Error,
        log::Level::Warn => Level::Warn,
        log::Level::Info => Level::Info,
        log::Level::Debug => Level::Debug,
        log::Level::Trace => Level::Trace,
    }
}

/// `log::Record::args` rendered to a string. Nothing is stated: the record
/// is opaque here.
#[verifier::external_body]
fn record_message(record: &log::Record) -> String {
    format!("{}", record.args())
}

/// `Instant::now`: the current time (nothing can be stated of it).
#[verifier::external_body]
fn instant_now() -> Instant {
    Instant::now()
}

/// `Instant::elapsed`, as whole seconds and the nanoseconds past them
/// (`Duration::as_secs`, `Duration::subsec_nanos`). The time depends on the
/// clock, so only what the standard library documents of the parts is
/// stated: the nanoseconds stay below one second.
#[verifier::external_body]
fn elapsed_since(start: &Instant) -> (parts: (u64, u32))
    ensures
        parts.1 < 1_000_000_000,
{
    let d = start.elapsed();
    (d.as_secs(), d.subsec_nanos())
}

/// The seconds of a duration written with three decimals, as Rust's float
/// formatting writes `Duration::as_secs_f64`.
pub uninterp spec fn seconds_label(secs: u64, nanos: u32) -> Seq<char>;

/// `Duration::new(secs, nanos).as_secs_f64()` written with three decimals:
/// the result is named, as a function of the two arguments.
#[verifier::external_body]
fn seconds_text(secs: u64, nanos: u32) -> (s: String)
    requires
        nanos < 1_000_000_000,
    ensures
        s@ == seconds_label(secs, nanos),
{
    format!("{:.3}", Duration::new(secs, nanos).as_secs_f64())
}

/// A buffered line: some seconds stamp, level and message in the entry
/// format.
pub open spec fn is_entry(line: Seq<char>) -> bool {
    exists|seconds: Seq<char>, level: Level, message: Seq<char>|
        line == #[trigger] entry_line(seconds, level, message)
}

/// What the line buffer holds: lines in the entry format, and nothing else.
pub struct EntryLines;

impl RwLockPredicate<Vec<String>> for EntryLines {
    open spec fn inv(self, lines: Vec<String>) -> bool {
        forall|i: int| 0 <= i < lines@.len() ==> is_entry(#[trigger] lines@[i]@)
    }
}

/// A logger that buffers its lines, each stamped with the seconds since the
/// logger was made.
pub struct BufferedLogger {
    start: Instant,
    entries: RwLock<Vec<String>, EntryLines>,
}

/// Whether a line at `level` passes the maximum level `max`.
pub open spec fn passes(level: Level, max: LevelFilter) -> bool {
    level_rank(level) <= filter_rank(max)
}

/// The text of each buffered line, in order.
pub open spec fn lines_text(lines: Seq<String>) -> Seq<Seq<char>> {
    lines.map_values(|line: String| line@)
}

/// The buffer after a line at `level` is offered while the maximum level is
/// `max`: the formatted line appended when the level passes, the buffer as
/// it was otherwise.
pub open spec fn after_offer(
    buffer: Seq<Seq<char>>,
    level: Level,
    max: LevelFilter,
    seconds: Seq<char>,
    message: Seq<char>,
) -> Seq<Seq<char>> {
    if passes(level, max) {
        buffer.push(entry_line(seconds, level, message))
    } else {
        buffer
    }
}

/// Offers `message` at `level` to the buffer `lines` while the maximum level
/// is `max`: when the level passes, the line stamped `seconds` is appended;
/// otherwise nothing changes.
pub fn buffer_entry(
    lines: &mut Vec<String>,
    level: Level,
    max: LevelFilter,
    seconds: &str,
    message: &str,
)
    ensures
        lines_text(final(lines)@) == after_offer(lines_text(old(lines)@), level, max, seconds@, message@),
{
    if BufferedLogger::enabled_at(level, max) {
        let line = BufferedLogger::format_entry(seconds, level, message);
        lines.push(line);
        assert(lines_text(lines@) =~= lines_text(old(lines)@).push(line@));
    }
}

/// Takes every line out of `lines`, in order, and leaves it empty.
pub fn take_lines(lines: &mut Vec<String>) -> (taken: Vec<String>)
    ensures
        taken@ == old(lines)@,
        final(lines)@.len() == 0,
{
    let mut taken: Vec<String> = Vec::new();
    std::mem::swap(lines, &mut taken);
    taken
}

impl BufferedLogger {
    /// A logger with no lines, started now.
    pub fn new() -> BufferedLogger {
        let lines: Vec<String> = Vec::new();
        BufferedLogger { start: instant_now(), entries: RwLock::new(lines, Ghost(EntryLines)) }
    }

    /// Whether a line at `level` is kept when the maximum level is `max`.
    pub fn enabled_at(level: Level, max: LevelFilter) -> (b: bool)
        ensures
            b == passes(level, max),
    {
        let rank: u8 = match level {
            Level::Error => 1,
            Level::Warn => 2,
            Level::Info => 3,
            Level::Debug => 4,
            Level::Trace => 5,
        };
        let limit: u8 = match max {
            LevelFilter::Off => 0,
            LevelFilter::Error => 1,
            LevelFilter::Warn => 2,
            LevelFilter::Info => 3,
            LevelFilter::Debug => 4,
            LevelFilter::Trace => 5,
        };
        rank <= limit
    }

    /// The buffered line for `message` at `level`, `seconds` after start.
    pub fn format_entry(seconds: &str, level: Level, message: &str) -> (line: String)
        ensures
            line@ == entry_line(seconds@, level, message@),
    {
        let mut line = String::from_str("[+");
        line.append(seconds);
        line.append("s] [");
        let label: &str = match level {
            Level::Error => "ERROR",
            Level::Warn => "WARN ",
            Level::Info => "INFO ",
            Level::Debug => "DEBUG",
            Level::Trace => "TRACE",
        };
        line.append(label);
        line.append("] ");
        line.append(message);
        proof {
            reveal_strlit("[+");
            reveal_strlit("s] [");
            reveal_strlit("ERROR");
            reveal_strlit("WARN ");
            reveal_strlit("INFO ");
            reveal_strlit("DEBUG");
            reveal_strlit("TRACE");
            reveal_strlit("] ");
        }
        assert(line@ =~= entry_line(seconds@, level, message@));
        line
    }

    /// Buffers `message` at `level` when the level passes the global
    /// maximum level.
    pub fn record(&self, level: Level, message: &str) {
        let max = current_max_level();
        if !Self::enabled_at(level, max) {
            return;
        }
        self.push_entry(level, max, message);
    }

    /// Offers `message` at `level` to the buffer while the maximum level is
    /// `max`, stamped with the seconds since the logger was made.
    fn push_entry(&self, level: Level, max: LevelFilter, message: &str) {
        let (secs, nanos) = elapsed_since(&self.start);
        let seconds = seconds_text(secs, nanos);
        let (mut lines, handle) = self.entries.acquire_write();
        let ghost before = lines;
        assert(EntryLines.inv(before));
        buffer_entry(&mut lines, level, max, seconds.as_str(), message);
        assert(EntryLines.inv(lines)) by {
            assert(lines_text(lines@).len() == lines@.len());
            assert(lines_text(before@).len() == before@.len());
            assert forall|i: int| 0 <= i < lines@.len() implies is_entry(#[trigger] lines@[i]@) by {
                assert(lines_text(lines@)[i] == lines@[i]@);
                if i < before@.len() {
                    assert(lines_text(before@)[i] == before@[i]@);
                } else {
                    assert(passes(level, max));
                }
            }
        }
        handle.release_write(lines);
    }

    /// Takes the buffered lines out, oldest first, leaving none; every line
    /// is in the entry format.
    pub fn take_entries(&self) -> (lines: Vec<String>)
        ensures
            forall|i: int| 0 <= i < lines@.len() ==> is_entry(#[trigger] lines@[i]@),
    {
        let (mut buffer, handle) = self.entries.acquire_write();
        let taken = take_lines(&mut buffer);
        handle.release_write(buffer);
        taken
    }
}

impl log::Log for BufferedLogger {
    fn enabled(&self, metadata: &log::Metadata) -> bool {
        Self::enabled_at(metadata_level(metadata), current_max_level())
    }

    fn log(&self, record: &log::Record) {
        let level = record_level(record);
        let max = current_max_level();
        if !Self::enabled_at(level, max) {
            return;
        }
        let message = record_message(record);
        self.push_entry(level, max, message.as_str());
    }

    fn flush(&self) {
    }
}

/// Installs `logger` as the global logger (only the first installation
/// takes effect) and sets the global maximum level; always succeeds.
pub fn init(logger: &'static BufferedLogger, max_level: LevelFilter) -> (r: Result<(), log::SetLoggerError>)
    ensures
        r is Ok,
{
    let _ = install_logger(logger);
    store_max_level(max_level);
    Ok(())
}

} // verus!
