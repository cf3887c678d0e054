//! Logging configuration: output formats, targets and their validation.

use vstd::prelude::*;

use crate::text::chars_of;

verus! {

/// A rule that a configuration value breaks: a short code naming the rule
/// and a message for people.
#[derive(Debug, Clone, PartialEq, Eq)]
pub struct FieldError {
    /// The rule, such as `invalid_log_level`.
    pub code: String,
    /// What is wrong, for people.
    pub message: String,
}

/// The layout of console log lines.
#[derive(Debug, Clone, Copy, PartialEq, Eq)]
pub enum LogFormat {
    /// One short line per event.
    Compact,
    /// Multi-line, human-oriented output.
    Pretty,
    /// One JSON object per event.
    Json,
}

impl Default for LogFormat {
    fn default() -> (r: Self)
        ensures
            r == LogFormat::Compact,
    {
        LogFormat::Compact
    }
}

/// How timestamps are written.
#[derive(Debug, Clone, PartialEq, Eq)]
pub enum TimestampFormat {
    /// RFC 3339.
    Rfc3339,
    /// Seconds since the Unix epoch.
    Unix,
    /// A custom format description.
    Custom(String),
}

impl Default for TimestampFormat {
    fn default() -> (r: Self)
        ensures
            r is Rfc3339,
    {
        TimestampFormat::Rfc3339
    }
}

/// The logging configuration.
#[derive(Debug, Clone)]
pub struct LoggerConfig {
    /// Global level: trace, debug, info, warn or error, in any case.
    pub level: String,
    /// Console output, if any.
    pub console: Option<ConsoleConfig>,
    /// Journald output, if any.
    pub journald: Option<JournaldConfig>,
    /// Timestamp format of all outputs.
    pub timestamp_format: TimestampFormat,
}

impl Default for LoggerConfig {
    fn default() -> (r: Self)
        ensures
            r.level@ == "info"@,
            r.timestamp_format is Rfc3339,
            r.console matches Some(c) && c.enabled && c.format == LogFormat::Compact && !c.show_target
                && !c.show_thread_ids && !c.show_spans && c.ansi_colors,
            r.journald matches Some(j) && !j.enabled && j.identifier@ == "blazebee"@,
    {
        LoggerConfig {
            level: String::from_str("info"),
            timestamp_format: TimestampFormat::default(),
            console: Some(ConsoleConfig::default()),
            journald: Some(JournaldConfig::default()),
        }
    }
}

/// Console output settings.
#[derive(Debug, Clone)]
pub struct ConsoleConfig {
    /// Whether console output is on.
    pub enabled: bool,
    /// Line layout.
    pub format: LogFormat,
    /// Show the event's target.
    pub show_target: bool,
    /// Show thread ids.
    pub show_thread_ids: bool,
    /// Show span closing events.
    pub show_spans: bool,
    /// Use ANSI colours.
    pub ansi_colors: bool,
}

impl Default for ConsoleConfig {
    fn default() -> (r: Self)
        ensures
            r.enabled,
            r.format == LogFormat::Compact,
            !r.show_target,
            !r.show_thread_ids,
            !r.show_spans,
            r.ansi_colors,
    {
        ConsoleConfig {
            enabled: true,
            format: LogFormat::default(),
            show_target: false,
            show_thread_ids: false,
            show_spans: false,
            ansi_colors: true,
        }
    }
}

/// Journald output settings.
#[derive(Debug, Clone)]
pub struct JournaldConfig {
    /// Whether journald output is on.
    pub enabled: bool,
    /// The identifier of the journal entries; must not be empty.
    pub identifier: String,
}

impl Default for JournaldConfig {
    fn default() -> (r: Self)
        ensures
            !r.enabled,
            r.identifier@ == "blazebee"@,
    {
        JournaldConfig { enabled: false, identifier: String::from_str("blazebee") }
    }
}

/// `c` is the lowercase ASCII letter `d` or its capital.
pub open spec fn letter_matches(c: char, d: char) -> bool {
    c == d || (65 <= c as u32 <= 90 && c as u32 + 32 == d as u32)
}

/// `s` spells the lowercase word `w` in any mix of cases.
pub open spec fn spells(s: Seq<char>, w: Seq<char>) -> bool {
    s.len() == w.len() && forall|i: int| 0 <= i < s.len() ==> letter_matches(#[trigger] s[i], w[i])
}

/// `s` names a log level: trace, debug, info, warn or error, in any case.
/// (For these words, comparing the lowercased text as `str::to_lowercase`
/// does agrees with this letter-by-letter comparison.)
pub open spec fn is_log_level(s: Seq<char>) -> bool {
    spells(s, "trace"@) || spells(s, "debug"@) || spells(s, "info"@) || spells(s, "warn"@) || spells(
        s,
        "error"@,
    )
}

/// Whether `s` spells the lowercase ASCII word `w` in any case.
fn spells_word(s: &str, w: &str) -> (r: bool)
    ensures
        r == spells(s@, w@),
{
    let cs = chars_of(s);
    let ws = chars_of(w);
    if cs.len() != ws.len() {
        return false;
    }
    let mut i: usize = 0;
    while i < cs.len()
        invariant
            cs@ == s@,
            ws@ == w@,
            cs@.len() == ws@.len(),
            i <= cs@.len(),
            forall|j: int| 0 <= j < i ==> letter_matches(#[trigger] s@[j], w@[j]),
        decreases cs@.len() - i,
    {
        let c = cs[i];
        let d = ws[i];
        let u = c as u32;
        if !(c == d || (65 <= u && u <= 90 && u + 32 == d as u32)) {
            assert(!letter_matches(s@[i as int], w@[i as int]));
            return false;
        }
        i = i + 1;
    }
    true
}

/// Accepts the log levels trace, debug, info, warn and error in any case;
/// rejects anything else with code `invalid_log_level` and the message
/// `Invalid log level: <level>`.
pub fn validate_log_level(level: &str) -> (r: Result<(), FieldError>)
    ensures
        r is Ok <==> is_log_level(level@),
        r matches Err(e) ==> e.code@ == "invalid_log_level"@ && e.message@ == "Invalid log level: "@ + level@,
{
    if spells_word(level, "trace") || spells_word(level, "debug") || spells_word(level, "info")
        || spells_word(level, "warn") || spells_word(level, "error") {
        Ok(())
    } else {
        Err(
            FieldError {
                code: String::from_str("invalid_log_level"),
                message: String::from_str("Invalid log level: ").concat(level),
            },
        )
    }
}

/// Rejects an empty custom timestamp format with code
/// `invalid_timestamp_format` and the message `Custom timestamp format
/// cannot be empty`; accepts every other format.
pub fn validate_timestamp_format(format: &TimestampFormat) -> (r: Result<(), FieldError>)
    ensures
        r is Ok <==> !(format matches TimestampFormat::Custom(s) && s@.len() == 0),
        r matches Err(e) ==> e.code@ == "invalid_timestamp_format"@ && e.message@
            == "Custom timestamp format cannot be empty"@,
{
    match format {
        TimestampFormat::Custom(s) => {
            if s.as_str().is_empty() {
                Err(
                    FieldError {
                        code: String::from_str("invalid_timestamp_format"),
                        message: String::from_str("Custom timestamp format cannot be empty"),
                    },
                )
            } else {
                Ok(())
            }
        },
        _ => Ok(()),
    }
}

} // verus!
