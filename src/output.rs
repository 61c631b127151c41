use vstd::prelude::*;

use vstd::string::StringExecFns;

verus! {

/// The mathematical content of a set of output options.
pub struct OptionsView {
    pub prefix: Seq<char>,
    pub notice: bool,
    pub debug: bool,
}

/// How a view of the output shapes what it logs: a text prefix, and whether
/// notices and debug messages are shown.
#[derive(Clone)]
pub struct OutputOptions {
    prefix: String,
    notice: bool,
    debug: bool,
}

impl View for OutputOptions {
    type V = OptionsView;

    closed spec fn view(&self) -> OptionsView {
        OptionsView { prefix: self.prefix@, notice: self.notice, debug: self.debug }
    }
}

impl OutputOptions {
    /// No prefix; notices shown, debug messages hidden.
    pub fn new() -> (r: OutputOptions)
        ensures
            r@ == (OptionsView { prefix: Seq::empty(), notice: true, debug: false }),
    {
        OutputOptions { prefix: String::new(), notice: true, debug: false }
    }

    pub fn new_with_options(prefix: String, notice: bool, debug: bool) -> (r: OutputOptions)
        ensures
            r@ == (OptionsView { prefix: prefix@, notice, debug }),
    {
        OutputOptions { prefix, notice, debug }
    }

    /// The same prefix, with notices and debug messages hidden.
    pub fn disable_notices(&self) -> (r: OutputOptions)
        ensures
            r@ == (OptionsView { prefix: self@.prefix, notice: false, debug: false }),
    {
        OutputOptions { prefix: self.prefix.clone(), notice: false, debug: false }
    }

    /// The same prefix, with notices shown and debug messages hidden.
    pub fn enable_notices(&self) -> (r: OutputOptions)
        ensures
            r@ == (OptionsView { prefix: self@.prefix, notice: true, debug: false }),
    {
        OutputOptions { prefix: self.prefix.clone(), notice: true, debug: false }
    }

    /// The same prefix, with notices and debug messages shown.
    pub fn enable_debug(&self) -> (r: OutputOptions)
        ensures
            r@ == (OptionsView { prefix: self@.prefix, notice: true, debug: true }),
    {
        OutputOptions { prefix: self.prefix.clone(), notice: true, debug: true }
    }

    /// The prefix extended by `prefix`, with notices and debug messages
    /// shown.
    pub fn prefix(&self, prefix: &str) -> (r: OutputOptions)
        ensures
            r@ == (OptionsView { prefix: self@.prefix + prefix@, notice: true, debug: true }),
    {
        OutputOptions { prefix: self.prefix.clone().concat(prefix), notice: true, debug: true }
    }

    /// The text logged for a message or a job: the prefix, then the message.
    pub fn message(&self, message: &str) -> (r: String)
        ensures
            r@ == self@.prefix + message@,
    {
        self.prefix.clone().concat(message)
    }

    /// The text logged for a notice, if notices are shown.
    pub fn notice(&self, message: &str) -> (r: Option<String>)
        ensures
            self@.notice ==> r.is_some() && r.unwrap()@ == self@.prefix + message@,
            !self@.notice ==> r.is_none(),
    {
        if self.notice {
            Some(self.message(message))
        } else {
            None
        }
    }

    /// The text logged for a debug message, if debug messages are shown.
    pub fn debug(&self, message: &str) -> (r: Option<String>)
        ensures
            self@.debug ==> r.is_some() && r.unwrap()@ == self@.prefix + message@,
            !self@.debug ==> r.is_none(),
    {
        if self.debug {
            Some(self.message(message))
        } else {
            None
        }
    }
}

} // verus!
