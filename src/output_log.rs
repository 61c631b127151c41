use vstd::prelude::*;

verus! {

/// The lifecycle state of one log entry.
///
/// An entry starts as `Message` or `Running`. A running job may be updated,
/// and ends as `Complete`, `Incomplete` or `Removed`; `replace` turns a
/// running job or a message into a message.
#[derive(Clone, Copy, Debug, PartialEq, Eq, Structural)]
pub enum OutputLogState {
    Message,
    Running,
    Complete,
    Incomplete,
    Removed,
}

/// `b` can follow `a` for the same entry: a running job may reach any state,
/// every other state only stays as it is.
pub open spec fn state_reachable(a: OutputLogState, b: OutputLogState) -> bool {
    a == b || a == OutputLogState::Running
}

/// A state whose announcement is rendered at once rather than debounced.
pub open spec fn is_immediate_state(s: OutputLogState) -> bool {
    s == OutputLogState::Message || s == OutputLogState::Complete || s
        == OutputLogState::Incomplete
}

/// The mathematical content of a log entry.
pub struct LogView {
    pub id: u64,
    pub message: Seq<char>,
    pub numerator: u64,
    pub denominator: u64,
    pub tick: u64,
    pub state: OutputLogState,
}

/// One entry of the registry, as handed to a rendering backend.
pub struct OutputLogInternal {
    pub(crate) log_id: u64,
    pub(crate) message: String,
    pub(crate) numerator: u64,
    pub(crate) denominator: u64,
    pub(crate) tick: u64,
    pub(crate) state: OutputLogState,
}

impl View for OutputLogInternal {
    type V = LogView;

    open(crate) spec fn view(&self) -> LogView {
        LogView {
            id: self.log_id,
            message: self.message@,
            numerator: self.numerator,
            denominator: self.denominator,
            tick: self.tick,
            state: self.state,
        }
    }
}

impl OutputLogInternal {
    /// A fresh entry: no progress reported and no ticks yet.
    #[inline]
    pub fn new(log_id: u64, message: String, state: OutputLogState) -> (r: OutputLogInternal)
        ensures
            r@ == (LogView {
                id: log_id,
                message: message@,
                numerator: 0,
                denominator: 0,
                tick: 0,
                state,
            }),
    {
        OutputLogInternal { log_id, message, numerator: 0, denominator: 0, tick: 0, state }
    }

    #[inline]
    pub fn log_id(&self) -> (r: u64)
        ensures
            r == self@.id,
    {
        self.log_id
    }

    #[inline]
    pub fn message(&self) -> (r: &str)
        ensures
            r@ == self@.message,
    {
        self.message.as_str()
    }

    #[inline]
    pub fn state(&self) -> (r: OutputLogState)
        ensures
            r == self@.state,
    {
        self.state
    }

    #[inline]
    pub fn numerator(&self) -> (r: u64)
        ensures
            r == self@.numerator,
    {
        self.numerator
    }

    #[inline]
    pub fn denominator(&self) -> (r: u64)
        ensures
            r == self@.denominator,
    {
        self.denominator
    }

    #[inline]
    pub fn tick(&self) -> (r: u64)
        ensures
            r == self@.tick,
    {
        self.tick
    }
}

} // verus!
