use output::RawConsole;

fn frames() -> Vec<String> {
    vec!["[1]".to_string(), "[2]".to_string(), "[3]".to_string()]
}

const REDRAW: &str = "\r\x1b[1A\x1b[2K";

#[test]
fn message_without_status() {
    let r = RawConsole::new(80, frames());
    assert_eq!(r.message_format("hello"), "hello\r\n");
}

#[test]
fn status_then_message_redraws_status() {
    let mut r = RawConsole::new(80, frames());
    assert_eq!(r.status_format("working"), "working\r\n");
    assert_eq!(r.status_format("still working"), format!("{}still working\r\n", REDRAW));
    assert_eq!(r.message_format("note"), format!("{}notestill working\r\n\r\n", REDRAW));
}

#[test]
fn status_is_cut_to_width() {
    let mut r = RawConsole::new(4, frames());
    assert_eq!(r.status_format("abcdef"), "abcd\r\n");
    assert_eq!(r.status_done(), format!("{}abcd done\r\n", REDRAW));
}

#[test]
fn progress_and_ticks() {
    let mut r = RawConsole::new(80, frames());
    r.status_format("copy");
    assert_eq!(r.status_progress(1, 4), format!("{}copy 25%\r\n", REDRAW));
    assert_eq!(r.status_tick(), format!("{}copy [1]\r\n", REDRAW));
    assert_eq!(r.status_tick(), format!("{}copy [2]\r\n", REDRAW));
    assert_eq!(r.status_tick(), format!("{}copy [3]\r\n", REDRAW));
    assert_eq!(r.status_tick(), format!("{}copy [1]\r\n", REDRAW));
    assert_eq!(r.message_format("m"), format!("{}mcopy\r\n [1]\r\n", REDRAW));
}

#[test]
fn clear_status_removes_line() {
    let mut r = RawConsole::new(80, frames());
    assert_eq!(r.clear_status(), "");
    r.status_format("x");
    assert_eq!(r.clear_status(), REDRAW);
    assert_eq!(r.message_format("after"), "after\r\n");
}
