//! `git las remote ls`: lists the remotes.

use vstd::prelude::*;

use crate::report::{line, lines_view, text5, LogLevel, LogLine, LogLineView};
use crate::types::resolved::{RemoteEntryView, ResolvedConfig};

verus! {

/// The line that lists one remote: its name, URL and user.
pub open spec fn remote_line(r: RemoteEntryView) -> LogLineView {
    line(LogLevel::Info, r.name + "  "@ + r.url + "  "@ + r.user)
}

/// One line per remote, in order, or a notice that there is none.
pub fn run(config: &ResolvedConfig) -> (lines: Vec<LogLine>)
    ensures
        config@.remotes.len() == 0 ==> lines_view(lines@) == seq![line(LogLevel::Info, "no remotes configured"@)],
        config@.remotes.len() > 0 ==> lines_view(lines@) == config@.remotes.map_values(
            |r: RemoteEntryView| remote_line(r),
        ),
{
    let mut lines: Vec<LogLine> = Vec::new();
    if config.remotes.len() == 0 {
        lines.push(LogLine { level: LogLevel::Info, text: "no remotes configured".to_owned() });
        assert(lines_view(lines@) =~= seq![line(LogLevel::Info, "no remotes configured"@)]);
        return lines;
    }
    let ghost target = config@.remotes.map_values(|r: RemoteEntryView| remote_line(r));
    let mut k: usize = 0;
    while k < config.remotes.len()
        invariant
            k <= config.remotes@.len(),
            target == config@.remotes.map_values(|r: RemoteEntryView| remote_line(r)),
            lines_view(lines@) =~= target.take(k as int),
        decreases config.remotes@.len() - k,
    {
        let r = &config.remotes[k];
        let l = LogLine {
            level: LogLevel::Info,
            text: text5(r.name.as_str(), "  ", r.url.as_str(), "  ", r.user.as_str()),
        };
        assert(config@.remotes[k as int] == r@);
        assert(l@ == target[k as int]);
        let ghost before = lines@;
        lines.push(l);
        assert(lines_view(lines@) =~= lines_view(before).push(l@));
        k = k + 1;
    }
    assert(target.take(config.remotes@.len() as int) =~= target);
    lines
}

} // verus!
