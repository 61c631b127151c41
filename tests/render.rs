use output::console::Console;
use output::pipe::PipeOutput;
use output::text::{decimal_string, truncate};
use output::ticksequence::default_sequence;
use output::{
    open_backend, Backend, BackendKind, OutputLogInternal, OutputLogState, OutputOptions,
    OutputState,
};

/// Keeps the text of every render of a console.
struct Frames(Vec<String>, Console);

impl Backend for Frames {
    fn update(&mut self, jobs: &[OutputLogInternal]) {
        let s = self.1.update(jobs);
        self.0.push(s);
    }

    fn wants_synchronous(&self) -> bool {
        self.synchronous()
    }

    fn synchronous(&self) -> bool {
        true
    }
}

fn entry(id: u64, message: &str, state: OutputLogState) -> OutputLogInternal {
    OutputLogInternal::new(id, message.to_string(), state)
}

#[test]
fn console_writes_message_line() {
    let mut c = Console::new(80, default_sequence());
    let out = c.update(&[entry(0, "hello", OutputLogState::Message)]);
    assert_eq!(out, "hello\x1b[J\r\n");
    assert_eq!(c.status_lines(), 0);
}

#[test]
fn console_writes_running_job_and_moves_up_next_time() {
    let mut c = Console::new(80, default_sequence());
    let out = c.update(&[entry(0, "build", OutputLogState::Running)]);
    assert_eq!(out, "build ...\x1b[J\r\n");
    assert_eq!(c.status_lines(), 1);
    let out = c.update(&[entry(0, "build", OutputLogState::Complete)]);
    assert_eq!(out, "\r\x1b[1Abuild ... done\x1b[J\r\n\x1b[2K\n\x1b[1A");
    assert_eq!(c.status_lines(), 0);
}

#[test]
fn console_clears_lines_no_longer_needed() {
    let mut c = Console::new(80, default_sequence());
    c.update(&[
        entry(0, "a", OutputLogState::Running),
        entry(1, "b", OutputLogState::Running),
        entry(2, "c", OutputLogState::Message),
    ]);
    assert_eq!(c.status_lines(), 3);
    let out = c.update(&[entry(3, "d", OutputLogState::Incomplete)]);
    assert_eq!(
        out,
        "\r\x1b[3Ad ... abort\x1b[J\r\n\x1b[2K\n\x1b[2K\n\x1b[2K\n\x1b[3A"
    );
}

#[test]
fn console_skips_removed_jobs() {
    let mut c = Console::new(80, default_sequence());
    let out = c.update(&[entry(0, "gone", OutputLogState::Removed)]);
    assert_eq!(out, "");
}

#[test]
fn console_truncates_to_width() {
    let mut c = Console::new(10, default_sequence());
    let out = c.update(&[entry(0, "abcdefghijklmnop", OutputLogState::Message)]);
    assert_eq!(out, "abcdefghij\x1b[J\r\n");
    let out = c.update(&[entry(1, "abcdefghijklmnop", OutputLogState::Complete)]);
    assert_eq!(out, "a ... done\x1b[J\r\n");
}

#[test]
fn console_shows_tick_frames() {
    let ticks = vec!["<a>".to_string(), "<b>".to_string()];
    let mut e = OutputState::new(Some(Frames(Vec::new(), Console::new(80, ticks))));
    let j = e.add_log("spin".to_string(), OutputLogState::Running);
    e.tick(j);
    e.tick(j);
    e.tick(j);
    e.progress(j, 1, 3);
    let out = &e.backend().as_ref().unwrap().0;
    assert_eq!(out[0], "spin ...\x1b[J\r\n");
    assert_eq!(out[1], "\r\x1b[1Aspin ... <a>\x1b[J\r\n");
    assert_eq!(out[2], "\r\x1b[1Aspin ... <b>\x1b[J\r\n");
    assert_eq!(out[3], "\r\x1b[1Aspin ... <a>\x1b[J\r\n");
    assert_eq!(out[4], "\r\x1b[1Aspin ... 33%\x1b[J\r\n");
}

#[test]
fn pipe_writes_messages_only() {
    let p = PipeOutput::new();
    assert!(p.synchronous());
    let out = p.update(&[
        entry(0, "one", OutputLogState::Message),
        entry(1, "job", OutputLogState::Running),
        entry(2, "two", OutputLogState::Message),
        entry(3, "done", OutputLogState::Complete),
    ]);
    assert_eq!(out, vec!["one\n".to_string(), "two\n".to_string()]);
    assert!(p.update(&[]).is_empty());
}

#[test]
fn decimal_and_truncate() {
    assert_eq!(decimal_string(0), "0");
    assert_eq!(decimal_string(7), "7");
    assert_eq!(decimal_string(1234567890123), "1234567890123");
    assert_eq!(decimal_string(u128::MAX), u128::MAX.to_string());
    assert_eq!(truncate("héllo", 2), "hé");
    assert_eq!(truncate("abc", 10), "abc");
}

#[test]
fn large_progress_does_not_overflow() {
    let mut e = OutputState::new(Some(Frames(Vec::new(), Console::new(80, default_sequence()))));
    let j = e.add_log("big".to_string(), OutputLogState::Running);
    e.progress(j, u64::MAX, u64::MAX);
    assert_eq!(e.backend().as_ref().unwrap().0[1], "\r\x1b[1Abig ... 100%\x1b[J\r\n");
}

#[test]
fn default_sequence_frames() {
    let d = default_sequence();
    assert_eq!(d.len(), 15);
    assert_eq!(d[0], "|          |");
    assert_eq!(d[7], "| ######   |");
    assert_eq!(d[14], "|         #|");
}

#[test]
fn backend_choice() {
    assert_eq!(open_backend(true, true, true, true), BackendKind::RawConsole);
    assert_eq!(open_backend(false, true, true, true), BackendKind::Console);
    assert_eq!(open_backend(true, false, true, true), BackendKind::Console);
    assert_eq!(open_backend(true, true, true, false), BackendKind::Pipe);
    assert_eq!(open_backend(false, false, false, false), BackendKind::Pipe);
}

#[test]
fn options_prefix_and_filters() {
    let o = OutputOptions::new();
    assert_eq!(o.message("hi"), "hi");
    assert_eq!(o.notice("n"), Some("n".to_string()));
    assert_eq!(o.debug("d"), None);
    let p = o.prefix("[a] ").prefix("[b] ");
    assert_eq!(p.message("x"), "[a] [b] x");
    assert_eq!(p.debug("d"), Some("[a] [b] d".to_string()));
    let q = p.disable_notices();
    assert_eq!(q.notice("n"), None);
    assert_eq!(q.debug("d"), None);
    assert_eq!(q.message("m"), "[a] [b] m");
    assert_eq!(q.enable_notices().notice("n"), Some("[a] [b] n".to_string()));
    assert_eq!(q.enable_debug().debug("d"), Some("[a] [b] d".to_string()));
    let w = OutputOptions::new_with_options("> ".to_string(), false, true);
    assert_eq!(w.notice("n"), None);
    assert_eq!(w.debug("d"), Some("> d".to_string()));
}

#[test]
fn console_with_no_width_keeps_only_markers() {
    let mut c = Console::new(0, default_sequence());
    let out = c.update(&[
        entry(0, "abc", OutputLogState::Message),
        entry(1, "job", OutputLogState::Running),
    ]);
    assert_eq!(out, "\x1b[J\r\n ...\x1b[J\r\n");
    assert_eq!(c.status_lines(), 1);
}

#[test]
fn console_empty_render_after_nothing() {
    let mut c = Console::new(80, default_sequence());
    assert_eq!(c.update(&[]), "");
    assert_eq!(c.status_lines(), 0);
}
