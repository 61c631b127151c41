use vstd::prelude::*;

use vstd::string::StringExecFns;

use crate::text::{
    clear_current_line, clear_current_line_seq, cursor_up, cursor_up_seq, decimal,
    decimal_string, truncate, truncated,
};

verus! {

/// The mathematical state of a status-line renderer.
pub struct RawConsoleView {
    pub columns: u16,
    pub status: Option<Seq<char>>,
    pub status_suffix: Option<Seq<char>>,
    pub status_tick: u64,
    pub ticks: Seq<Seq<char>>,
}

/// Back to the start of the status line, and clear it.
pub open spec fn redraw_prefix() -> Seq<char> {
    seq!['\r'] + cursor_up_seq(1) + clear_current_line_seq()
}

pub open spec fn crlf() -> Seq<char> {
    seq!['\r', '\n']
}

/// The status line with its suffix, if any.
pub open spec fn status_with_suffix(v: RawConsoleView) -> Seq<char> {
    v.status.unwrap() + match v.status_suffix {
        Some(s) => s,
        None => Seq::empty(),
    }
}

/// A renderer for a terminal in raw mode that keeps one status line below
/// the permanent messages.
pub struct RawConsole {
    columns: u16,
    status: Option<String>,
    status_suffix: Option<String>,
    status_tick: u64,
    status_tick_sequence: Vec<String>,
}

impl View for RawConsole {
    type V = RawConsoleView;

    closed spec fn view(&self) -> RawConsoleView {
        RawConsoleView {
            columns: self.columns,
            status: match &self.status {
                Some(s) => Some(s@),
                None => None,
            },
            status_suffix: match &self.status_suffix {
                Some(s) => Some(s@),
                None => None,
            },
            status_tick: self.status_tick,
            ticks: self.status_tick_sequence@.map_values(|s: String| s@),
        }
    }
}

impl RawConsole {
    pub open spec fn wf(&self) -> bool {
        &&& self@.ticks.len() > 0
        &&& self@.status_tick < self@.ticks.len()
    }

    /// A renderer `columns` wide with no status line, animating ticks with
    /// the given frames.
    pub fn new(columns: u16, status_tick_sequence: Vec<String>) -> (r: RawConsole)
        requires
            status_tick_sequence@.len() > 0,
        ensures
            r.wf(),
            r@ == (RawConsoleView {
                columns,
                status: None,
                status_suffix: None,
                status_tick: 0,
                ticks: status_tick_sequence@.map_values(|s: String| s@),
            }),
    {
        RawConsole { columns, status: None, status_suffix: None, status_tick: 0, status_tick_sequence }
    }

    fn write_redraw_prefix(target: &mut String)
        ensures
            final(target)@ == old(target)@ + redraw_prefix(),
    {
        proof {
            reveal_strlit("\r");
        }
        target.append("\r");
        target.append(cursor_up(1).as_str());
        target.append(clear_current_line().as_str());
        assert(final(target)@ =~= old(target)@ + redraw_prefix());
    }

    fn write_status(&self, target: &mut String)
        requires
            self@.status.is_some(),
        ensures
            final(target)@ == old(target)@ + status_with_suffix(self@) + crlf(),
    {
        match &self.status {
            Some(status) => target.append(status.as_str()),
            None => {},
        }
        match &self.status_suffix {
            Some(suffix) => target.append(suffix.as_str()),
            None => {},
        }
        proof {
            reveal_strlit("\r\n");
        }
        target.append("\r\n");
        assert(final(target)@ =~= old(target)@ + status_with_suffix(self@) + crlf());
    }

    /// The text that prints a permanent message: with a status line shown,
    /// it is redrawn after the message.
    pub fn message_format(&self, message: &str) -> (r: String)
        ensures
            r@ == match self@.status {
                Some(st) => redraw_prefix() + message@ + st + crlf() + match self@.status_suffix {
                    Some(s) => s,
                    None => Seq::empty(),
                } + crlf(),
                None => message@ + crlf(),
            },
    {
        let mut r = String::new();
        proof {
            reveal_strlit("\r\n");
        }
        match &self.status {
            Some(status) => {
                Self::write_redraw_prefix(&mut r);
                r.append(message);
                r.append(status.as_str());
                r.append("\r\n");
                match &self.status_suffix {
                    Some(suffix) => r.append(suffix.as_str()),
                    None => {},
                }
                r.append("\r\n");
            },
            None => {
                r.append(message);
                r.append("\r\n");
            },
        }
        r
    }

    /// Shows `status`, cut to the terminal width, as the status line; the
    /// previous one is overwritten.
    pub fn status_format(&mut self, status: &str) -> (r: String)
        requires
            old(self).wf(),
        ensures
            final(self).wf(),
            final(self)@ == (RawConsoleView {
                status: Some(truncated(status@, old(self)@.columns as nat)),
                ..old(self)@
            }),
            r@ == (if old(self)@.status.is_some() {
                redraw_prefix()
            } else {
                Seq::empty()
            }) + truncated(status@, old(self)@.columns as nat) + crlf(),
    {
        let status = String::from_str(truncate(status, self.columns as usize));
        let mut r = String::new();
        if self.status.is_some() {
            Self::write_redraw_prefix(&mut r);
        }
        proof {
            reveal_strlit("\r\n");
        }
        r.append(status.as_str());
        r.append("\r\n");
        self.status = Some(status);
        r
    }

    /// Removes the status line.
    pub fn clear_status(&mut self) -> (r: String)
        requires
            old(self).wf(),
        ensures
            final(self).wf(),
            final(self)@ == (RawConsoleView { status: None, status_suffix: None, ..old(self)@ }),
            r@ == if old(self)@.status.is_some() {
                seq!['\r'] + cursor_up_seq(1) + clear_current_line_seq()
            } else {
                Seq::empty()
            },
    {
        let mut r = String::new();
        if self.status.is_some() {
            Self::write_redraw_prefix(&mut r);
        }
        self.status = None;
        self.status_suffix = None;
        r
    }

    /// Shows a percentage after the status line.
    pub fn status_progress(&mut self, numerator: u64, denominator: u64) -> (r: String)
        requires
            old(self).wf(),
            old(self)@.status.is_some(),
            denominator > 0,
        ensures
            final(self).wf(),
            final(self)@ == (RawConsoleView {
                status_suffix: Some(
                    seq![' '] + decimal((numerator as int * 100 / denominator as int) as nat)
                        + seq!['%'],
                ),
                ..old(self)@
            }),
            r@ == redraw_prefix() + status_with_suffix(final(self)@) + crlf(),
    {
        let percent = (numerator as u128) * 100 / (denominator as u128);
        proof {
            reveal_strlit(" ");
            reveal_strlit("%");
        }
        let suffix = String::from_str(" ").concat(decimal_string(percent).as_str()).concat("%");
        assert(suffix@ =~= seq![' '] + decimal(percent as nat) + seq!['%']);
        self.status_suffix = Some(suffix);
        let mut r = String::new();
        Self::write_redraw_prefix(&mut r);
        self.write_status(&mut r);
        r
    }

    /// Shows the next animation frame after the status line.
    pub fn status_tick(&mut self) -> (r: String)
        requires
            old(self).wf(),
            old(self)@.status.is_some(),
        ensures
            final(self).wf(),
            final(self)@ == (RawConsoleView {
                status_suffix: Some(seq![' '] + old(self)@.ticks[old(self)@.status_tick as int]),
                status_tick: ((old(self)@.status_tick + 1) % (old(self)@.ticks.len() as int)) as u64,
                ..old(self)@
            }),
            r@ == redraw_prefix() + status_with_suffix(final(self)@) + crlf(),
    {
        let index = self.status_tick as usize;
        assert(self.status_tick_sequence@[index as int]@ == self@.ticks[index as int]);
        proof {
            reveal_strlit(" ");
        }
        let suffix = String::from_str(" ").concat(self.status_tick_sequence[index].as_str());
        assert(suffix@ =~= seq![' '] + self@.ticks[index as int]);
        self.status_suffix = Some(suffix);
        let mut r = String::new();
        Self::write_redraw_prefix(&mut r);
        self.write_status(&mut r);
        let n = self.status_tick_sequence.len() as u64;
        self.status_tick = (self.status_tick + 1) % n;
        r
    }

    /// Marks the status line done and leaves it as a permanent line.
    pub fn status_done(&mut self) -> (r: String)
        requires
            old(self).wf(),
            old(self)@.status.is_some(),
        ensures
            final(self).wf(),
            final(self)@ == (RawConsoleView { status: None, ..old(self)@ }),
            r@ == redraw_prefix() + old(self)@.status.unwrap() + seq![' ', 'd', 'o', 'n', 'e']
                + crlf(),
    {
        let mut r = String::new();
        Self::write_redraw_prefix(&mut r);
        match &self.status {
            Some(status) => r.append(status.as_str()),
            None => {},
        }
        proof {
            reveal_strlit(" done\r\n");
        }
        r.append(" done\r\n");
        self.status = None;
        assert(r@ =~= redraw_prefix() + old(self)@.status.unwrap() + seq![' ', 'd', 'o', 'n', 'e']
            + crlf());
        r
    }
}

} // verus!
