use output::{Scheduler, SchedulerAction, SchedulerEvent};

#[test]
fn first_change_renders_at_once() {
    let mut s = Scheduler::new(100, 0);
    assert_eq!(s.wait_time(0), None);
    assert_eq!(s.step(SchedulerEvent::Changed, 5), SchedulerAction::Render);
    assert_eq!(s.wait_time(5), None);
}

#[test]
fn rapid_changes_coalesce() {
    let mut s = Scheduler::new(100, 0);
    let mut renders = 0;
    // 50 changes within 98 ms
    for k in 0..50u64 {
        if s.step(SchedulerEvent::Changed, k * 2) == SchedulerAction::Render {
            renders += 1;
        }
    }
    assert_eq!(renders, 1);
    assert_eq!(s.wait_time(98), Some(2));
    assert_eq!(s.step(SchedulerEvent::Timeout, 100), SchedulerAction::Render);
    renders += 1;
    // elapsed 100 ms with interval 100: at most ceil(1) + 1 renders
    assert!(renders <= 2);
}

#[test]
fn renders_are_spaced_by_the_interval() {
    let mut s = Scheduler::new(10, 0);
    let mut times = Vec::new();
    for now in 0..100u64 {
        if s.step(SchedulerEvent::Changed, now) == SchedulerAction::Render {
            times.push(now);
        }
    }
    assert_eq!(times, vec![0, 10, 20, 30, 40, 50, 60, 70, 80, 90]);
}

#[test]
fn timeout_without_change_waits() {
    let mut s = Scheduler::new(10, 0);
    assert_eq!(s.step(SchedulerEvent::Timeout, 50), SchedulerAction::Wait);
    assert_eq!(s.wait_time(50), None);
}

#[test]
fn stop_exits() {
    let mut s = Scheduler::new(10, 0);
    assert_eq!(s.step(SchedulerEvent::Changed, 0), SchedulerAction::Render);
    assert_eq!(s.step(SchedulerEvent::Changed, 1), SchedulerAction::Wait);
    assert_eq!(s.step(SchedulerEvent::Stop, 2), SchedulerAction::Exit);
}
