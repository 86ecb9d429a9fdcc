use workspace_state::action::WorkspaceAction;
use workspace_state::registry::{Registry, Workspace};
use workspace_state::worker::WorkerState;

fn workspace(id: &str, name: &str) -> Workspace {
    Workspace { id: id.to_string(), name: name.to_string() }
}

fn key(k: &str) -> String {
    k.to_string()
}

#[test]
fn a_new_task_runs_on_an_empty_registry() {
    let w = WorkerState::new();
    assert!(w.is_running());
    assert!(w.store().is_empty());
}

#[test]
fn each_command_publishes_the_registry_after_it() {
    let mut w = WorkerState::new();

    let s1 = w.handle(Some(WorkspaceAction::add(workspace("ws1", "one")))).unwrap();
    assert_eq!(s1.len(), 1);
    assert!(s1.contains_key(&key("ws1")));

    let s2 = w.handle(Some(WorkspaceAction::add(workspace("ws2", "two")))).unwrap();
    assert_eq!(s2.len(), 2);

    let s3 = w.handle(Some(WorkspaceAction::remove(key("ws1")))).unwrap();
    assert_eq!(s3.len(), 1);
    assert!(s3.contains_key(&key("ws2")));

    let s4 = w.handle(Some(WorkspaceAction::remove(key("ws1")))).unwrap();
    assert_eq!(s4.len(), 1);
    assert!(s4.contains_key(&key("ws2")));

    assert_eq!(s1.len(), 1);
    assert!(s1.contains_key(&key("ws1")));
    assert_eq!(s2.len(), 2);
    assert!(w.is_running());
}

#[test]
fn the_task_ends_up_with_the_single_threaded_replay() {
    let commands = || {
        vec![
            WorkspaceAction::add(workspace("a", "1")),
            WorkspaceAction::add(workspace("b", "2")),
            WorkspaceAction::add(workspace("a", "3")),
            WorkspaceAction::remove(key("b")),
            WorkspaceAction::add(workspace("c", "4")),
        ]
    };
    let mut w = WorkerState::new();
    let mut last = None;
    for c in commands() {
        last = w.handle(Some(c));
    }
    let mut replayed = Registry::new();
    replayed.apply_all(commands());

    let published = last.unwrap();
    for r in [&*published, w.store()] {
        assert_eq!(r.len(), replayed.len());
        for k in ["a", "b", "c"] {
            assert_eq!(
                r.get(&key(k)).map(|h| h.name.clone()),
                replayed.get(&key(k)).map(|h| h.name.clone())
            );
        }
    }
    assert_eq!(published.get(&key("a")).unwrap().name, "3");
    assert!(published.get(&key("b")).is_none());
}

#[test]
fn a_closed_queue_stops_the_task() {
    let mut w = WorkerState::new();
    w.handle(Some(WorkspaceAction::add(workspace("a", "1"))));
    assert!(w.handle(None).is_none());
    assert!(!w.is_running());
    assert_eq!(w.store().len(), 1);
}

#[test]
fn a_stopped_task_applies_and_publishes_nothing() {
    let mut w = WorkerState::new();
    w.handle(Some(WorkspaceAction::add(workspace("a", "1"))));
    assert!(!w.observe(false));
    assert!(w.handle(Some(WorkspaceAction::add(workspace("b", "2")))).is_none());
    assert!(w.handle(Some(WorkspaceAction::remove(key("a")))).is_none());
    assert!(w.handle(None).is_none());
    assert!(!w.is_running());
    assert_eq!(w.store().len(), 1);
    assert_eq!(w.store().get(&key("a")).unwrap().name, "1");
}

#[test]
fn a_raised_flag_keeps_the_task_running() {
    let mut w = WorkerState::new();
    assert!(w.observe(true));
    assert!(w.observe(true));
    assert!(w.is_running());
}

#[test]
fn a_lowered_flag_stops_the_task_for_good() {
    let mut w = WorkerState::new();
    assert!(!w.observe(false));
    assert!(!w.observe(true));
    assert!(!w.is_running());
}

#[test]
fn a_snapshot_that_reaches_nobody_stops_the_task() {
    let mut w = WorkerState::new();
    w.handle(Some(WorkspaceAction::add(workspace("a", "1"))));
    assert!(w.settle(true));
    assert!(w.is_running());
    assert!(!w.settle(false));
    assert!(!w.is_running());
    assert_eq!(w.store().len(), 1);
}
