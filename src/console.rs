use vstd::prelude::*;

use vstd::string::{StrSliceExecFns, StringExecFns};

use crate::output_log::{LogView, OutputLogInternal, OutputLogState};
use crate::text::{
    clear_after_cursor, clear_after_cursor_seq, clear_current_line, clear_current_line_seq,
    cursor_up, cursor_up_seq, decimal, decimal_string, truncate, truncated,
};

verus! {

/// `a - b`, or zero when `b` is larger.
pub open spec fn sat_sub(a: int, b: int) -> nat {
    if a >= b {
        (a - b) as nat
    } else {
        0
    }
}

/// The number of status lines a render leaves below the permanent output:
/// every shown entry from the first running one on.
pub open spec fn status_count(logs: Seq<LogView>) -> nat
    decreases logs.len(),
{
    if logs.len() == 0 {
        0
    } else {
        let p = status_count(logs.drop_last());
        let l = logs.last();
        if l.state == OutputLogState::Removed {
            p
        } else if l.state == OutputLogState::Running || p > 0 {
            p + 1
        } else {
            p
        }
    }
}

/// The text shown after a job: its percentage when a fraction is known,
/// else its animation frame once it has ticked; `done` and `abort` for the
/// two outcomes.
pub open spec fn status_text(l: LogView, ticks: Seq<Seq<char>>) -> Option<Seq<char>> {
    if l.state == OutputLogState::Running {
        if l.denominator > 0 {
            Some(decimal((l.numerator as int * 100 / l.denominator as int) as nat) + seq!['%'])
        } else if l.tick > 0 {
            Some(ticks[(l.tick - 1) % (ticks.len() as int)])
        } else {
            None
        }
    } else if l.state == OutputLogState::Complete {
        Some(seq!['d', 'o', 'n', 'e'])
    } else if l.state == OutputLogState::Incomplete {
        Some(seq!['a', 'b', 'o', 'r', 't'])
    } else {
        None
    }
}

/// A line ending that also clears what was there before.
pub open spec fn line_end() -> Seq<char> {
    clear_after_cursor_seq() + seq!['\r', '\n']
}

/// A job's line: its text cut to fit, ` ... ` and its status.
pub open spec fn running_line(message: Seq<char>, status: Option<Seq<char>>, columns: nat) -> Seq<char> {
    match status {
        Some(st) => truncated(message, sat_sub(columns as int, st.len() as int + 5)) + seq![
            ' ',
            '.',
            '.',
            '.',
            ' ',
        ] + st + line_end(),
        None => truncated(message, sat_sub(columns as int, 4)) + seq![' ', '.', '.', '.']
            + line_end(),
    }
}

/// The line an entry is shown as; a removed job is not shown.
pub open spec fn log_line(l: LogView, columns: nat, ticks: Seq<Seq<char>>) -> Seq<char> {
    if l.state == OutputLogState::Removed {
        Seq::empty()
    } else if l.state == OutputLogState::Message {
        truncated(l.message, columns) + line_end()
    } else {
        running_line(l.message, status_text(l, ticks), columns)
    }
}

/// The lines of all entries, in order.
pub open spec fn body_text(logs: Seq<LogView>, columns: nat, ticks: Seq<Seq<char>>) -> Seq<char>
    decreases logs.len(),
{
    if logs.len() == 0 {
        Seq::empty()
    } else {
        body_text(logs.drop_last(), columns, ticks) + log_line(logs.last(), columns, ticks)
    }
}

/// `k` cleared lines.
pub open spec fn cleared_lines(k: nat) -> Seq<char>
    decreases k,
{
    if k == 0 {
        Seq::empty()
    } else {
        cleared_lines((k - 1) as nat) + clear_current_line_seq() + seq!['\n']
    }
}

/// What one render writes: back up over the previous status lines, write
/// every entry, then clear the status lines that are no longer needed and
/// move back up over them.
pub open spec fn console_text(
    old_lines: nat,
    logs: Seq<LogView>,
    columns: nat,
    ticks: Seq<Seq<char>>,
) -> Seq<char> {
    let n = status_count(logs);
    (if old_lines > 0 {
        seq!['\r'] + cursor_up_seq(old_lines)
    } else {
        Seq::empty()
    }) + body_text(logs, columns, ticks) + (if n < old_lines {
        cleared_lines((old_lines - n) as nat) + cursor_up_seq((old_lines - n) as nat)
    } else {
        Seq::empty()
    })
}

/// The mathematical state of a console renderer.
pub struct ConsoleView {
    pub ticks: Seq<Seq<char>>,
    pub columns: u16,
    pub status_lines: u16,
}

/// A renderer for a terminal: permanent messages scroll up, running jobs
/// stay at the bottom and are redrawn in place.
pub struct Console {
    status_tick_sequence: Vec<String>,
    columns: u16,
    status_lines: u16,
}

impl View for Console {
    type V = ConsoleView;

    closed spec fn view(&self) -> ConsoleView {
        ConsoleView {
            ticks: self.status_tick_sequence@.map_values(|s: String| s@),
            columns: self.columns,
            status_lines: self.status_lines,
        }
    }
}

proof fn lemma_status_count_bound(logs: Seq<LogView>)
    ensures
        status_count(logs) <= logs.len(),
    decreases logs.len(),
{
    if logs.len() > 0 {
        lemma_status_count_bound(logs.drop_last());
    }
}

impl Console {
    pub open spec fn wf(&self) -> bool {
        self@.ticks.len() > 0
    }

    /// A console `columns` wide that animates ticking jobs with the given
    /// frames.
    pub fn new(columns: u16, status_tick_sequence: Vec<String>) -> (r: Console)
        requires
            status_tick_sequence@.len() > 0,
        ensures
            r.wf(),
            r@ == (ConsoleView {
                ticks: status_tick_sequence@.map_values(|s: String| s@),
                columns,
                status_lines: 0,
            }),
    {
        Console { status_tick_sequence, columns, status_lines: 0 }
    }

    /// The number of status lines the last render left.
    pub fn status_lines(&self) -> (r: u16)
        ensures
            r == self@.status_lines,
    {
        self.status_lines
    }

    fn write_message(&self, target: &mut String, message: &str)
        ensures
            final(target)@ == old(target)@ + truncated(message@, self.columns as nat) + line_end(),
    {
        target.append(truncate(message, self.columns as usize));
        target.append(clear_after_cursor().as_str());
        proof {
            reveal_strlit("\r\n");
        }
        target.append("\r\n");
        assert(final(target)@ =~= old(target)@ + truncated(message@, self.columns as nat) + line_end());
    }

    fn write_running(&self, target: &mut String, message: &str, status: Option<&str>)
        ensures
            final(target)@ == old(target)@ + running_line(
                message@,
                match status {
                    Some(st) => Some(st@),
                    None => None,
                },
                self.columns as nat,
            ),
    {
        let columns = self.columns as usize;
        proof {
            reveal_strlit("\r\n");
            reveal_strlit(" ... ");
            reveal_strlit(" ...");
        }
        match status {
            Some(st) => {
                let status_len = st.unicode_len();
                let limit = if columns >= 5 && columns - 5 >= status_len {
                    columns - 5 - status_len
                } else {
                    0
                };
                target.append(truncate(message, limit));
                target.append(" ... ");
                target.append(st);
            },
            None => {
                let limit = if columns >= 4 {
                    columns - 4
                } else {
                    0
                };
                target.append(truncate(message, limit));
                target.append(" ...");
            },
        }
        target.append(clear_after_cursor().as_str());
        target.append("\r\n");
        assert(final(target)@ =~= old(target)@ + running_line(
            message@,
            match status {
                Some(st) => Some(st@),
                None => None,
            },
            self.columns as nat,
        ));
    }

    /// Renders the entries: returns the text to write to the terminal and
    /// records how many status lines it leaves.
    pub fn update(&mut self, logs: &[OutputLogInternal]) -> (r: String)
        requires
            old(self).wf(),
            logs@.len() <= u16::MAX,
        ensures
            final(self).wf(),
            r@ == console_text(
                old(self)@.status_lines as nat,
                logs@.map_values(|l: OutputLogInternal| l@),
                old(self)@.columns as nat,
                old(self)@.ticks,
            ),
            final(self)@ == (ConsoleView {
                status_lines: status_count(logs@.map_values(|l: OutputLogInternal| l@)) as u16,
                ..old(self)@
            }),
    {
        let ghost views = logs@.map_values(|l: OutputLogInternal| l@);
        let ghost ticks = self@.ticks;
        let ghost columns = self.columns as nat;
        let mut buffer = String::new();
        // move up to the start
        if self.status_lines > 0 {
            proof {
                reveal_strlit("\r");
            }
            buffer.append("\r");
            buffer.append(cursor_up(self.status_lines).as_str());
        }
        let ghost head = buffer@;
        let old_status_lines = self.status_lines;
        let mut count: u16 = 0;
        let mut i: usize = 0;
        while i < logs.len()
            invariant
                self.wf(),
                self@.ticks == ticks,
                self.columns as nat == columns,
                views == logs@.map_values(|l: OutputLogInternal| l@),
                logs@.len() <= u16::MAX,
                i <= logs@.len(),
                count == status_count(views.take(i as int)),
                count <= i,
                buffer@ == head + body_text(views.take(i as int), columns, ticks),
            decreases logs@.len() - i,
        {
            let log = &logs[i];
            let ghost l = views[i as int];
            assert(log@ == l);
            assert(views.take(i as int + 1).drop_last() =~= views.take(i as int));
            assert(views.take(i as int + 1).last() == l);
            let state = log.state();
            if state != OutputLogState::Removed {
                if state == OutputLogState::Running || count > 0 {
                    count = count + 1;
                }
                if state == OutputLogState::Running {
                    if log.denominator() > 0 {
                        let percent = (log.numerator() as u128) * 100 / (log.denominator() as u128);
                        proof {
                            reveal_strlit("%");
                        }
                        let percent_string = decimal_string(percent).concat("%");
                        self.write_running(&mut buffer, log.message(), Some(percent_string.as_str()));
                    } else if log.tick() > 0 {
                        let n = self.status_tick_sequence.len();
                        let index = ((log.tick() - 1) % (n as u64)) as usize;
                        assert(self.status_tick_sequence@[index as int]@ == ticks[index as int]);
                        self.write_running(
                            &mut buffer,
                            log.message(),
                            Some(self.status_tick_sequence[index].as_str()),
                        );
                    } else {
                        self.write_running(&mut buffer, log.message(), None);
                    }
                } else if state == OutputLogState::Complete {
                    proof {
                        reveal_strlit("done");
                    }
                    self.write_running(&mut buffer, log.message(), Some("done"));
                } else if state == OutputLogState::Incomplete {
                    proof {
                        reveal_strlit("abort");
                    }
                    self.write_running(&mut buffer, log.message(), Some("abort"));
                } else {
                    self.write_message(&mut buffer, log.message());
                }
            }
            i = i + 1;
        }
        assert(views.take(logs@.len() as int) =~= views);
        let ghost n = status_count(views);
        if count < old_status_lines {
            let mut k: u16 = 0;
            let gone = old_status_lines - count;
            let ghost body = buffer@;
            while k < gone
                invariant
                    k <= gone,
                    buffer@ == body + cleared_lines(k as nat),
                decreases gone - k,
            {
                proof {
                    reveal_strlit("\n");
                }
                buffer.append(clear_current_line().as_str());
                buffer.append("\n");
                k = k + 1;
                assert(buffer@ =~= body + cleared_lines(k as nat));
            }
            buffer.append(cursor_up(gone).as_str());
        }
        self.status_lines = count;
        assert(buffer@ =~= console_text(old_status_lines as nat, views, columns, ticks));
        buffer
    }
}

} // verus!
