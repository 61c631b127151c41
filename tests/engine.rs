use output::{Backend, OutputLogInternal, OutputLogState, OutputState};

#[derive(Clone, Debug, PartialEq)]
struct Seen {
    id: u64,
    message: String,
    numerator: u64,
    denominator: u64,
    tick: u64,
    state: OutputLogState,
}

struct Recorder {
    sync: bool,
    renders: Vec<Vec<Seen>>,
}

impl Backend for Recorder {
    fn update(&mut self, jobs: &[OutputLogInternal]) {
        self.renders.push(
            jobs.iter()
                .map(|l| Seen {
                    id: l.log_id(),
                    message: l.message().to_string(),
                    numerator: l.numerator(),
                    denominator: l.denominator(),
                    tick: l.tick(),
                    state: l.state(),
                })
                .collect(),
        );
    }

    fn wants_synchronous(&self) -> bool {
        self.synchronous()
    }

    fn synchronous(&self) -> bool {
        self.sync
    }
}

fn engine(sync: bool) -> OutputState<Recorder> {
    OutputState::new(Some(Recorder { sync, renders: Vec::new() }))
}

fn renders(e: &OutputState<Recorder>) -> Vec<Vec<Seen>> {
    e.backend().as_ref().unwrap().renders.clone()
}

#[test]
fn scenario_build_job_render_sequence() {
    let mut e = engine(true);
    let id = e.add_log("build".to_string(), OutputLogState::Running);
    e.tick(id);
    e.tick(id);
    e.tick(id);
    e.progress(id, 50, 100);
    e.complete(id);
    let r = renders(&e);
    assert_eq!(r.len(), 6);
    assert_eq!(r[0][0].state, OutputLogState::Running);
    assert_eq!(r[0][0].tick, 0);
    for t in 1..4 {
        assert_eq!(r[t].len(), 1);
        assert_eq!(r[t][0].state, OutputLogState::Running);
        assert_eq!(r[t][0].tick, t as u64);
        assert_eq!(r[t][0].message, "build");
    }
    assert_eq!(r[4][0].state, OutputLogState::Running);
    assert_eq!((r[4][0].numerator, r[4][0].denominator), (50, 100));
    assert_eq!(r[5][0].state, OutputLogState::Complete);
    // the next render pass no longer shows the job
    e.add_log("next".to_string(), OutputLogState::Message);
    let r = renders(&e);
    assert_eq!(r.len(), 7);
    assert!(r[6].iter().all(|s| s.id != id));
}

#[test]
fn scenario_drop_handle_marks_incomplete() {
    let mut e = engine(true);
    let a = e.add_log("A".to_string(), OutputLogState::Running);
    let b = e.add_log("B".to_string(), OutputLogState::Running);
    e.release(a);
    e.complete(b);
    e.release(b);
    let r = renders(&e);
    let a_states: Vec<OutputLogState> =
        r.iter().flatten().filter(|s| s.id == a).map(|s| s.state).collect();
    let b_states: Vec<OutputLogState> =
        r.iter().flatten().filter(|s| s.id == b).map(|s| s.state).collect();
    assert_eq!(*a_states.last().unwrap(), OutputLogState::Incomplete);
    assert_eq!(*b_states.last().unwrap(), OutputLogState::Complete);
    assert!(e.logs().is_empty());
    e.add_log("after".to_string(), OutputLogState::Message);
    let r = renders(&e);
    let last = r.last().unwrap();
    assert!(last.iter().all(|s| s.id != a && s.id != b));
}

#[test]
fn ids_strictly_increase_after_compaction() {
    let mut e = engine(true);
    let mut ids = Vec::new();
    for k in 0..5 {
        ids.push(e.add_log(format!("m{}", k), OutputLogState::Message));
        let j = e.add_log(format!("j{}", k), OutputLogState::Running);
        e.complete(j);
        ids.push(j);
    }
    assert!(e.logs().is_empty());
    ids.push(e.add_log("last".to_string(), OutputLogState::Message));
    for w in ids.windows(2) {
        assert!(w[0] < w[1]);
    }
    assert_eq!(ids[0], 0);
    assert_eq!(e.next_log_id(), 11);
}

#[test]
fn ids_are_issued_without_a_backend() {
    let mut e: OutputState<Recorder> = OutputState::new(None);
    assert_eq!(e.add_log("a".to_string(), OutputLogState::Message), 0);
    assert_eq!(e.add_log("b".to_string(), OutputLogState::Running), 1);
    assert_eq!(e.next_log_id(), 2);
    // the message was flushed, the job stays
    assert_eq!(e.logs().len(), 1);
    assert_eq!(e.logs()[0].log_id(), 1);
}

#[test]
fn observed_states_follow_lifecycle() {
    let mut e = engine(true);
    let j = e.add_log("job".to_string(), OutputLogState::Running);
    e.update(j, "job, renamed".to_string());
    e.replace(j, "job finished".to_string());
    let r = renders(&e);
    let states: Vec<OutputLogState> =
        r.iter().flatten().filter(|s| s.id == j).map(|s| s.state).collect();
    assert_eq!(
        states,
        vec![OutputLogState::Running, OutputLogState::Running, OutputLogState::Message]
    );
    assert_eq!(r[1][0].message, "job, renamed");
    assert_eq!(r[2][0].message, "job finished");
    assert!(e.get_log_internal(j).is_none());
}

#[test]
fn renders_keep_insertion_order() {
    let mut e = engine(true);
    let a = e.add_log("a".to_string(), OutputLogState::Running);
    let b = e.add_log("b".to_string(), OutputLogState::Running);
    e.add_log("c".to_string(), OutputLogState::Message);
    e.complete(a);
    e.tick(b);
    let r = renders(&e);
    for snapshot in &r {
        for w in snapshot.windows(2) {
            assert!(w[0].id < w[1].id);
        }
    }
    // "a" was shown as complete, then never again
    assert_eq!(r[3].iter().find(|s| s.id == a).unwrap().state, OutputLogState::Complete);
    assert!(r[4].iter().all(|s| s.id != a));
    assert_eq!(r[4].len(), 1);
    assert_eq!(r[4][0].tick, 1);
}

#[test]
fn debounced_changes_wait_for_the_scheduler() {
    let mut e = engine(false);
    let j = e.add_log("job".to_string(), OutputLogState::Running);
    e.progress(j, 1, 10);
    e.progress(j, 2, 10);
    e.tick(j);
    assert_eq!(renders(&e).len(), 0);
    e.update_backend_real();
    let r = renders(&e);
    assert_eq!(r.len(), 1);
    assert_eq!((r[0][0].numerator, r[0][0].tick), (2, 1));
    // nothing pending: another pass renders nothing
    e.update_backend_real();
    assert_eq!(renders(&e).len(), 1);
}

#[test]
fn immediate_states_bypass_debounce() {
    let mut e = engine(false);
    let j = e.add_log("job".to_string(), OutputLogState::Running);
    e.progress(j, 3, 4);
    assert_eq!(renders(&e).len(), 0);
    e.complete(j);
    let r = renders(&e);
    assert_eq!(r.len(), 1);
    assert_eq!(r[0][0].state, OutputLogState::Complete);
    let k = e.add_log("job 2".to_string(), OutputLogState::Running);
    e.incomplete(k);
    assert_eq!(renders(&e).len(), 2);
    e.add_log("note".to_string(), OutputLogState::Message);
    assert_eq!(renders(&e).len(), 3);
}

#[test]
fn pause_suppresses_until_unpause() {
    let mut e = engine(true);
    e.pause();
    assert!(e.is_paused());
    let j = e.add_log("job".to_string(), OutputLogState::Running);
    e.add_log("msg".to_string(), OutputLogState::Message);
    e.progress(j, 1, 2);
    e.progress(j, 2, 2);
    e.complete(j);
    assert_eq!(renders(&e).len(), 0);
    e.unpause();
    assert!(!e.is_paused());
    let r = renders(&e);
    assert_eq!(r.len(), 1);
    assert_eq!(r[0].len(), 2);
    assert_eq!(r[0][0].state, OutputLogState::Complete);
    assert_eq!(r[0][0].numerator, 2);
    assert_eq!(r[0][1].message, "msg");
    e.unpause();
    assert_eq!(renders(&e).len(), 1);
}

#[test]
fn flush_renders_and_stays_paused() {
    let mut e = engine(true);
    e.pause();
    e.add_log("msg".to_string(), OutputLogState::Message);
    assert_eq!(renders(&e).len(), 0);
    e.flush();
    assert_eq!(renders(&e).len(), 1);
    assert!(e.is_paused());
    e.add_log("more".to_string(), OutputLogState::Message);
    assert_eq!(renders(&e).len(), 1);
}

#[test]
fn release_of_running_job_while_paused_keeps_it_incomplete() {
    let mut e = engine(true);
    e.pause();
    let j = e.add_log("job".to_string(), OutputLogState::Running);
    e.release(j);
    assert_eq!(e.get_log_internal(j).unwrap().state(), OutputLogState::Incomplete);
    e.unpause();
    let r = renders(&e);
    assert_eq!(r.len(), 1);
    assert_eq!(r[0][0].state, OutputLogState::Incomplete);
    assert!(e.get_log_internal(j).is_none());
    // releasing again is a no-op
    e.release(j);
    assert_eq!(renders(&e).len(), 1);
}

#[test]
fn remove_hides_a_job() {
    let mut e = engine(true);
    let j = e.add_log("job".to_string(), OutputLogState::Running);
    e.remove(j);
    let r = renders(&e);
    assert_eq!(r.last().unwrap()[0].state, OutputLogState::Removed);
    assert!(e.logs().is_empty());
}

#[test]
fn entry_accessors() {
    let l = OutputLogInternal::new(7, "hello".to_string(), OutputLogState::Running);
    assert_eq!(l.log_id(), 7);
    assert_eq!(l.message(), "hello");
    assert_eq!(l.state(), OutputLogState::Running);
    assert_eq!((l.numerator(), l.denominator(), l.tick()), (0, 0, 0));
}

#[test]
fn release_of_finished_entry_changes_nothing() {
    let mut e = engine(true);
    e.pause();
    let j = e.add_log("job".to_string(), OutputLogState::Running);
    e.complete(j);
    e.flush();
    assert_eq!(renders(&e).len(), 1);
    let m = e.add_log("msg".to_string(), OutputLogState::Message);
    e.release(j);
    e.release(m);
    assert!(e.is_changed());
    assert_eq!(renders(&e).len(), 1);
    assert_eq!(e.get_log_internal(m).unwrap().state(), OutputLogState::Message);
    e.unpause();
    assert_eq!(renders(&e).len(), 2);
    assert_eq!(renders(&e)[1].len(), 1);
}

#[test]
fn engine_takes_synchronous_flag_from_backend() {
    assert!(engine(true).is_synchronous());
    assert!(!engine(false).is_synchronous());
    let none: OutputState<Recorder> = OutputState::new(None);
    assert!(none.is_synchronous());
}
