//! The lines that the commands report to the user.

use vstd::prelude::*;

verus! {

/// How a line is shown: as information, success, failure or a skipped item.
#[derive(PartialEq, Eq, Structural, Clone, Copy, Debug)]
pub enum LogLevel {
    Info,
    Success,
    Failure,
    Skip,
}

/// A line as it is seen in specifications.
pub struct LogLineView {
    pub level: LogLevel,
    pub text: Seq<char>,
}

/// A line to report.
#[derive(Debug)]
pub struct LogLine {
    pub level: LogLevel,
    pub text: String,
}

impl View for LogLine {
    type V = LogLineView;

    open spec fn view(&self) -> LogLineView {
        LogLineView { level: self.level, text: self.text@ }
    }
}

/// The view of a list of lines.
pub open spec fn lines_view(v: Seq<LogLine>) -> Seq<LogLineView> {
    v.map_values(|l: LogLine| l@)
}

/// A line of the given level and text.
pub open spec fn line(level: LogLevel, text: Seq<char>) -> LogLineView {
    LogLineView { level, text }
}

/// Builds the text `a + b + c`.
pub fn text3(a: &str, b: &str, c: &str) -> (r: String)
    ensures
        r@ == a@ + b@ + c@,
{
    let mut r = a.to_owned();
    r.append(b);
    r.append(c);
    r
}

/// Builds the text `a + b + c + d + e`.
pub fn text5(a: &str, b: &str, c: &str, d: &str, e: &str) -> (r: String)
    ensures
        r@ == a@ + b@ + c@ + d@ + e@,
{
    let mut r = a.to_owned();
    r.append(b);
    r.append(c);
    r.append(d);
    r.append(e);
    r
}

} // verus!
