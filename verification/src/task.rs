//! The tasks whose output the panes show, and the places the panes take on
//! the host terminal.

use vstd::prelude::*;
use crate::text::{chars_of, is_digit, parse_decimal, parse_number, same_text};

verus! {

/// The output of a task, and the name of the pane that shows it.
pub struct ProcOutput {
    pub name: String,
    pub output: String,
}

/// A command to run, and how often.
pub struct Task {
    pub id: String,
    pub name: String,
    pub command: String,
    pub path: String,
    /// How long to wait between two runs: a number, and `h` or `m` behind
    /// it for hours or minutes. Without it the task runs once.
    pub period: Option<String>,
    pub period_secs: Option<u64>,
}

/// A task to make known to the orchestrator, and the size of its pane:
/// width and height.
pub struct RegisterTask {
    pub task: Task,
    pub size: Option<(u16, u16)>,
}

/// The new size of the pane of a task: width and height.
pub struct ResizeTask {
    pub task_id: String,
    pub size: Option<(u16, u16)>,
}

/// What is configured: the tasks, and the panes that show them.
pub struct HexConfig {
    pub tasks: Vec<Task>,
    pub panes: Vec<PaneDefinition>,
}

/// Where the pane of a task lies on the host terminal.
pub struct PaneDefinition {
    pub task_id: String,
    pub x: u16,
    pub y: u16,
    pub height: u16,
    pub width: u16,
}

/// A position on the host terminal.
pub struct TerminalLocation {
    pub top: u16,
    pub left: u16,
}

/// A size on the host terminal.
pub struct TerminalSize {
    pub height: u16,
    pub width: u16,
}

/// The first position at or behind `from` in `s` that holds a digit, and
/// the length of `s` if there is none.
pub open spec fn first_digit(s: Seq<char>, from: int) -> int
    decreases s.len() - from,
{
    if from < 0 || from >= s.len() {
        s.len() as int
    } else if is_digit(s[from]) {
        from
    } else {
        first_digit(s, from + 1)
    }
}

/// The first position at or behind `from` in `s` that holds no digit, and
/// the length of `s` if there is none.
pub open spec fn digit_run_end(s: Seq<char>, from: int) -> int
    decreases s.len() - from,
{
    if from < 0 || from >= s.len() || !is_digit(s[from]) {
        from
    } else {
        digit_run_end(s, from + 1)
    }
}

/// The number in a period: its first run of digits.
pub open spec fn period_base(period: Seq<char>) -> Option<nat> {
    let start = first_digit(period, 0);
    parse_number(period.subrange(start, digit_run_end(period, start)), u64::MAX as nat)
}

/// How many seconds the unit of a period is worth: `h` at its end means
/// hours, `m` minutes, anything else seconds.
pub open spec fn period_unit(period: Seq<char>) -> nat {
    if period.len() > 0 && period.last() == 'h' {
        3600
    } else if period.len() > 0 && period.last() == 'm' {
        60
    } else {
        1
    }
}

/// The seconds that a period stands for; nothing where it holds no number
/// or the seconds do not fit into 64 bits.
pub open spec fn period_seconds(period: Seq<char>) -> Option<u64> {
    match period_base(period) {
        Some(base) => if base * period_unit(period) <= u64::MAX {
            Some((base * period_unit(period)) as u64)
        } else {
            None
        },
        None => None,
    }
}

/// Reads the seconds that the period `period` stands for.
pub fn read_period(period: &str) -> (r: Option<u64>)
    ensures
        r == period_seconds(period@),
{
    let chars = chars_of(period);
    let n = chars.len();
    let mut start: usize = 0;
    while start < n && !('0' <= chars[start] && chars[start] <= '9')
        invariant
            start <= n,
            n == chars.len(),
            first_digit(chars@, 0) == first_digit(chars@, start as int),
        decreases n - start,
    {
        start += 1;
    }
    let mut end: usize = start;
    while end < n && '0' <= chars[end] && chars[end] <= '9'
        invariant
            start <= end <= n,
            n == chars.len(),
            digit_run_end(chars@, start as int) == digit_run_end(chars@, end as int),
        decreases n - end,
    {
        end += 1;
    }
    let unit: u64 = if n > 0 && chars[n - 1] == 'h' {
        3600
    } else if n > 0 && chars[n - 1] == 'm' {
        60
    } else {
        1
    };
    match parse_decimal(&chars, start, end, u64::MAX) {
        Some(base) => {
            if base <= u64::MAX / unit {
                assert(base * unit <= u64::MAX) by (nonlinear_arith)
                    requires
                        base <= u64::MAX / unit,
                        unit > 0,
                ;
                Some(base * unit)
            } else {
                assert(base * unit > u64::MAX) by (nonlinear_arith)
                    requires
                        base > u64::MAX / unit,
                        unit == 3600 || unit == 60 || unit == 1,
                ;
                None
            }
        },
        None => None,
    }
}

impl Task {
    /// Works out the seconds of the period, once: a task that has them
    /// already, or has no period, stays as it is.
    pub fn cache_period(&mut self)
        requires
            old(self).period_secs is None && old(self).period is Some ==> period_seconds(
                old(self).period->0@,
            ) is Some,
        ensures
            final(self).id == old(self).id,
            final(self).name == old(self).name,
            final(self).command == old(self).command,
            final(self).path == old(self).path,
            final(self).period == old(self).period,
            final(self).period_secs == if old(self).period_secs is None && old(self).period
                is Some {
                period_seconds(old(self).period->0@)
            } else {
                old(self).period_secs
            },
    {
        if self.period_secs.is_none() {
            let seconds = match &self.period {
                Some(period) => read_period(period.as_str()),
                None => None,
            };
            self.period_secs = seconds;
        }
    }

    /// Whether the period of the task can be read, so that `cache_period`
    /// may be called.
    pub fn period_is_readable(&self) -> (r: bool)
        ensures
            r == (self.period_secs is None && self.period is Some ==> period_seconds(
                self.period->0@,
            ) is Some),
    {
        if self.period_secs.is_none() {
            match &self.period {
                Some(period) => read_period(period.as_str()).is_some(),
                None => true,
            }
        } else {
            true
        }
    }

    /// Whether the task is due when `elapsed` seconds have passed since its
    /// last run: always without a period, and else once more than the
    /// period has passed.
    pub fn ready_to_run(&self, elapsed: u64) -> (r: bool)
        ensures
            r == match self.period_secs {
                None => true,
                Some(period_seconds) => elapsed > period_seconds,
            },
    {
        match self.period_secs {
            None => true,
            Some(period_seconds) => elapsed > period_seconds,
        }
    }
}

/// How many of the first `upto` panes are the main pane.
pub open spec fn count_mains(panes: Seq<PaneDefinition>, upto: int) -> nat
    decreases upto,
{
    if upto <= 0 {
        0
    } else {
        count_mains(panes, upto - 1) + if panes[upto - 1].task_id@ == "main"@ {
            1nat
        } else {
            0nat
        }
    }
}

impl PaneDefinition {
    /// Whether this is the pane of the interactive task, which is named
    /// `main`.
    pub fn is_main(&self) -> (r: bool)
        ensures
            r == (self.task_id@ == "main"@),
    {
        same_text(self.task_id.as_str(), "main")
    }
}

/// How many of the panes are the main pane.
pub fn how_many_mains(panes: &Vec<PaneDefinition>) -> (n: usize)
    ensures
        n == count_mains(panes@, panes.len() as int),
{
    let mut count: usize = 0;
    let mut i: usize = 0;
    while i < panes.len()
        invariant
            i <= panes.len(),
            count <= i,
            count == count_mains(panes@, i as int),
        decreases panes.len() - i,
    {
        if panes[i].is_main() {
            count += 1;
        }
        i += 1;
    }
    count
}

impl TerminalLocation {
    pub fn new(top: u16, left: u16) -> (l: TerminalLocation)
        ensures
            l.top == top,
            l.left == left,
    {
        TerminalLocation { top, left }
    }
}

impl TerminalSize {
    pub fn new(height: u16, width: u16) -> (s: TerminalSize)
        ensures
            s.height == height,
            s.width == width,
    {
        TerminalSize { height, width }
    }
}

} // verus!
