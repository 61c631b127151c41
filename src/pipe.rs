use vstd::prelude::*;

use vstd::string::StringExecFns;

use crate::output_log::{LogView, OutputLogInternal, OutputLogState};

verus! {

/// The lines a render writes to a pipe: one for each message, in order;
/// jobs are not shown.
pub open spec fn pipe_lines(logs: Seq<LogView>) -> Seq<Seq<char>>
    decreases logs.len(),
{
    if logs.len() == 0 {
        Seq::empty()
    } else {
        let l = logs.last();
        let rest = pipe_lines(logs.drop_last());
        if l.state == OutputLogState::Message {
            rest.push(l.message + seq!['\n'])
        } else {
            rest
        }
    }
}

/// A renderer for output that is not a terminal: plain lines, messages only.
pub struct PipeOutput {}

impl PipeOutput {
    pub fn new() -> (r: PipeOutput) {
        PipeOutput {}
    }

    /// Renders the entries: returns the lines to write, each written and
    /// reported on its own.
    pub fn update(&self, logs: &[OutputLogInternal]) -> (r: Vec<String>)
        ensures
            r@.map_values(|s: String| s@) == pipe_lines(logs@.map_values(|l: OutputLogInternal| l@)),
    {
        let ghost views = logs@.map_values(|l: OutputLogInternal| l@);
        let mut lines: Vec<String> = Vec::new();
        let mut i: usize = 0;
        while i < logs.len()
            invariant
                views == logs@.map_values(|l: OutputLogInternal| l@),
                i <= logs@.len(),
                lines@.map_values(|s: String| s@) == pipe_lines(views.take(i as int)),
            decreases logs@.len() - i,
        {
            let log = &logs[i];
            assert(log@ == views[i as int]);
            assert(views.take(i as int + 1).drop_last() =~= views.take(i as int));
            assert(views.take(i as int + 1).last() == views[i as int]);
            let ghost pre = lines@.map_values(|s: String| s@);
            if log.state() == OutputLogState::Message {
                proof {
                    reveal_strlit("\n");
                }
                let line = String::from_str(log.message()).concat("\n");
                assert(line@ =~= log@.message + seq!['\n']);
                lines.push(line);
                assert(lines@.map_values(|s: String| s@) =~= pre.push(log@.message + seq!['\n']));
            }
            i = i + 1;
        }
        assert(views.take(logs@.len() as int) =~= views);
        lines
    }

    /// A pipe takes every render at once.
    pub fn synchronous(&self) -> (r: bool)
        ensures
            r,
    {
        true
    }
}

} // verus!
