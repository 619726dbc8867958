//! Levels of logging, and what a line of the log looks like.
use crate::text::{push_text, same_text, text_of};
use vstd::prelude::*;

verus! {

/// The level of the finest detail.
pub const TRACE: usize = 0;

/// The level of what helps to find a fault.
pub const DEBUG: usize = 1;

/// The level of what the program does.
pub const INFO: usize = 2;

/// The level of what may be wrong.
pub const WARN: usize = 3;

/// The level of what went wrong.
pub const ERROR: usize = 4;

/// The level below which nothing is logged.
#[derive(Debug)]
pub struct Logger {
    pub level: usize,
}

impl Default for Logger {
    fn default() -> (r: Logger)
        ensures
            r.level == INFO,
    {
        Logger { level: INFO }
    }
}

/// Sets the level below which nothing is logged.
pub fn set_log_level(logger: &mut Logger, level: usize)
    ensures
        final(logger).level == level,
{
    logger.level = level;
}

/// The level below which nothing is logged.
pub fn current_log_level(logger: &Logger) -> (level: usize)
    ensures
        level == logger.level,
{
    logger.level
}

/// Whether a message of level `level` is logged.
pub fn is_logged(logger: &Logger, level: usize) -> (r: bool)
    ensures
        r == (level >= logger.level),
{
    level >= current_log_level(logger)
}

/// `text` in lower case, as the standard library makes it.
pub uninterp spec fn lowercase(text: Seq<char>) -> Seq<char>;

/// `str::to_lowercase`: the text in lower case.
#[verifier::external_body]
fn lowered(text: &str) -> (r: String)
    ensures
        r@ == lowercase(text@),
{
    text.to_lowercase()
}

/// The level that the name `name` stands for.
pub open spec fn level_named(name: Seq<char>) -> Option<usize> {
    if name == "trace"@ {
        Some(TRACE)
    } else if name == "debug"@ {
        Some(DEBUG)
    } else if name == "info"@ {
        Some(INFO)
    } else if name == "warn"@ || name == "warning"@ {
        Some(WARN)
    } else if name == "error"@ {
        Some(ERROR)
    } else {
        None
    }
}

/// The level that the name `name`, written in lower case, stands for.
pub fn level_of_name(name: &str) -> (r: Option<usize>)
    ensures
        r == level_named(name@),
{
    if same_text(name, "trace") {
        Some(TRACE)
    } else if same_text(name, "debug") {
        Some(DEBUG)
    } else if same_text(name, "info") {
        Some(INFO)
    } else if same_text(name, "warn") || same_text(name, "warning") {
        Some(WARN)
    } else if same_text(name, "error") {
        Some(ERROR)
    } else {
        None
    }
}

/// The level that `level` names, in whatever case it is written.
pub fn log_level_from_str(level: &str) -> (r: Option<usize>)
    ensures
        r == level_named(lowercase(level@)),
{
    let name = lowered(level);
    level_of_name(name.as_str())
}

/// The tag that marks a line of level `level`, and the colour it is shown in.
pub open spec fn tag_of(level: usize) -> (Seq<char>, Seq<char>) {
    if level == TRACE {
        ("[TRACE]"@, "35"@)
    } else if level == DEBUG {
        ("[DEBUG]"@, "34"@)
    } else if level == INFO {
        ("[INFO]"@, "32"@)
    } else if level == WARN {
        ("[WARNING]"@, "33"@)
    } else {
        ("[ERROR]"@, "31"@)
    }
}

/// A line of the log: the tag in its colour, then the message.
pub open spec fn log_line(level: usize, message: Seq<char>) -> Seq<char> {
    seq!['\x1b', '['] + tag_of(level).1 + seq!['m'] + tag_of(level).0 + seq!['\x1b', '[', '0', 'm', ' ']
        + message
}

/// The line that logs `message` at level `level`.
pub fn format_line(level: usize, message: &str) -> (r: String)
    ensures
        r@ == log_line(level, message@),
{
    let (tag, colour) = if level == TRACE {
        ("[TRACE]", "35")
    } else if level == DEBUG {
        ("[DEBUG]", "34")
    } else if level == INFO {
        ("[INFO]", "32")
    } else if level == WARN {
        ("[WARNING]", "33")
    } else {
        ("[ERROR]", "31")
    };
    let mut out: Vec<char> = Vec::new();
    out.push('\x1b');
    out.push('[');
    push_text(&mut out, colour);
    out.push('m');
    push_text(&mut out, tag);
    out.push('\x1b');
    out.push('[');
    out.push('0');
    out.push('m');
    out.push(' ');
    push_text(&mut out, message);
    assert(out@ == log_line(level, message@));
    text_of(&out)
}

} // verus!
