use rusty_workers_runtime::runtime::Runtime;
use rusty_workers_runtime::types::{EngineError, WorkerHandle};
use rusty_workers_runtime::watchdog::{WatchdogAction, WatchdogEvent, WatchdogState};

#[test]
fn spawn_registers_and_lists() {
    let mut rt = Runtime::new();
    let h = rt.spawn(Ok(7)).expect("spawn should succeed");
    assert_eq!(rt.fetch(&h), Ok(7));
    let listed = rt.list();
    assert!(listed.iter().any(|x| x.id == h.id));
}

#[test]
fn spawn_propagates_init_failure_without_registration() {
    let mut rt = Runtime::new();
    let r = rt.spawn(Err(EngineError::CompileError));
    assert_eq!(r, Err(EngineError::CompileError));
    let r = rt.spawn(Err(EngineError::InitError));
    assert_eq!(r, Err(EngineError::InitError));
    assert!(rt.list().is_empty());
}

#[test]
fn handles_are_unique_and_never_reused() {
    let mut rt = Runtime::new();
    let h1 = rt.spawn(Ok(1)).unwrap();
    let h2 = rt.spawn(Ok(2)).unwrap();
    assert_ne!(h1.id, h2.id);
    rt.terminate(&h1).unwrap();
    let h3 = rt.spawn(Ok(3)).unwrap();
    assert_ne!(h3.id, h1.id);
    assert_ne!(h3.id, h2.id);
}

#[test]
fn fetch_unknown_handle_fails() {
    let mut rt = Runtime::new();
    let r = rt.fetch(&WorkerHandle { id: 42 });
    assert_eq!(r, Err(EngineError::NoSuchWorker));
}

#[test]
fn terminate_then_fetch_fails() {
    let mut rt = Runtime::new();
    let h = rt.spawn(Ok(9)).unwrap();
    assert_eq!(rt.terminate(&h), Ok(()));
    assert_eq!(rt.fetch(&h), Err(EngineError::NoSuchWorker));
    assert_eq!(rt.terminate(&h), Err(EngineError::NoSuchWorker));
}

#[test]
fn timeout_scenario_unregisters_and_terminates() {
    // A busy-looping instance: its deadline elapses, the watchdog fires, and
    // the handle becomes unreachable.
    let mut rt = Runtime::new();
    let h = rt.spawn(Ok(5)).unwrap();
    let mut wd = WatchdogState::new();
    assert_eq!(wd.step(WatchdogEvent::DeadlineUpdate(Some(50))), WatchdogAction::Wait);
    let action = wd.step(WatchdogEvent::DeadlineElapsed);
    assert_eq!(action, WatchdogAction::RemoveAndTerminate);
    let slot = rt.on_timeout(&h);
    assert_eq!(slot, Some(5));
    assert_eq!(rt.fetch(&h), Err(EngineError::NoSuchWorker));
}

#[test]
fn natural_exit_scenario_removes_from_list() {
    // An instance that exits at once: the time-control channel closes, the
    // watchdog removes the entry, and the handle disappears from list().
    let mut rt = Runtime::new();
    let h = rt.spawn(Ok(3)).unwrap();
    let mut wd = WatchdogState::new();
    let action = wd.step(WatchdogEvent::ChannelClosed);
    assert_eq!(action, WatchdogAction::RemoveEntry);
    rt.on_instance_exit(&h);
    assert!(!rt.list().iter().any(|x| x.id == h.id));
}

#[test]
fn watchdog_never_rearms() {
    let mut wd = WatchdogState::new();
    assert_eq!(wd.step(WatchdogEvent::ChannelClosed), WatchdogAction::RemoveEntry);
    assert_eq!(
        wd.step(WatchdogEvent::DeadlineUpdate(Some(10))),
        WatchdogAction::Wait
    );
    assert_eq!(wd.step(WatchdogEvent::DeadlineElapsed), WatchdogAction::Wait);
    assert_eq!(wd.step(WatchdogEvent::ChannelClosed), WatchdogAction::Wait);
}

#[test]
fn watchdog_tracks_latest_deadline() {
    let mut wd = WatchdogState::new();
    assert_eq!(wd.step(WatchdogEvent::DeadlineUpdate(Some(100))), WatchdogAction::Wait);
    assert_eq!(wd.deadline, Some(100));
    assert_eq!(wd.step(WatchdogEvent::DeadlineUpdate(None)), WatchdogAction::Wait);
    assert_eq!(wd.deadline, None);
    assert!(!wd.stopped);
}

#[test]
fn on_instance_exit_is_benign_when_already_removed() {
    let mut rt = Runtime::new();
    let h = rt.spawn(Ok(1)).unwrap();
    rt.terminate(&h).unwrap();
    rt.on_instance_exit(&h);
    assert!(rt.list().is_empty());
}
