use std::time::Duration;
use tokio::runtime::{Builder, Runtime};
use tokio::task::JoinHandle;
use workspace_state::action::WorkspaceAction;
use workspace_state::registry::Workspace;
use workspace_state::state::{ActorUnavailable, StateManager, Worker, WorkspacesView, COMMAND_QUEUE_CAPACITY};

fn workspace(id: &str, name: &str) -> Workspace {
    Workspace { id: id.to_string(), name: name.to_string() }
}

fn key(k: &str) -> String {
    k.to_string()
}

fn runtime() -> Runtime {
    Builder::new_multi_thread().worker_threads(4).enable_time().build().unwrap()
}

fn drive(mut worker: Worker) -> JoinHandle<()> {
    tokio::spawn(async move {
        while worker.poll() {
            let received = worker.commands.recv().await;
            if !worker.serve(received) {
                break;
            }
        }
    })
}

async fn add(view: &WorkspacesView, w: Workspace) -> Result<(), ActorUnavailable> {
    WorkspacesView::delivery(view.sender().send(WorkspaceAction::add(w)).await)
}

async fn remove(view: &WorkspacesView, k: &str) -> Result<(), ActorUnavailable> {
    WorkspacesView::delivery(view.sender().send(WorkspaceAction::remove(key(k))).await)
}

async fn wait_for(view: &WorkspacesView, what: &str, ready: impl Fn(&WorkspacesView) -> bool) {
    for _ in 0..5000 {
        if ready(view) {
            return;
        }
        tokio::time::sleep(Duration::from_millis(1)).await;
    }
    panic!("never saw {}", what);
}

#[test]
fn queue_capacity_is_thirty_two() {
    assert_eq!(COMMAND_QUEUE_CAPACITY, 32);
}

#[test]
fn a_fresh_actor_shows_the_empty_registry() {
    let (manager, worker) = StateManager::new();
    assert!(worker.state().is_running());
    assert!(worker.state().store().is_empty());
    assert_eq!(manager.workspaces.borrow().len(), 0);
    assert_eq!(manager.view().borrow().len(), 0);
    assert!(manager.get(&key("ws1")).is_none());
    assert!(*manager.run.borrow());
}

#[test]
fn serve_publishes_to_every_view() {
    let (manager, mut worker) = StateManager::new();
    let view = manager.view();
    assert!(worker.poll());
    assert!(worker.serve(Some(WorkspaceAction::add(workspace("ws1", "one")))));
    assert_eq!(view.borrow().len(), 1);
    assert_eq!(manager.workspaces.borrow().len(), 1);
    assert_eq!(manager.get(&key("ws1")).unwrap().name, "one");
    assert!(manager.get(&key("ws2")).is_none());
    assert_eq!(worker.state().store().len(), 1);
}

#[test]
fn serve_stops_on_a_closed_queue() {
    let (manager, mut worker) = StateManager::new();
    assert!(worker.serve(Some(WorkspaceAction::add(workspace("ws1", "one")))));
    assert!(!worker.serve(None));
    assert!(!worker.poll());
    assert!(!worker.serve(Some(WorkspaceAction::add(workspace("ws2", "two")))));
    assert_eq!(manager.workspaces.borrow().len(), 1);
    assert!(manager.get(&key("ws2")).is_none());
}

#[test]
fn serve_stops_when_nobody_reads_the_snapshots() {
    let (manager, mut worker) = StateManager::new();
    drop(manager);
    assert!(!worker.serve(Some(WorkspaceAction::add(workspace("ws1", "one")))));
    assert!(!worker.state().is_running());
    assert_eq!(worker.state().store().len(), 1);
}

#[test]
fn poll_follows_the_run_flag() {
    let (manager, mut worker) = StateManager::new();
    assert!(worker.poll());
    assert!(worker.poll());
    manager.stop();
    assert!(!*manager.run.borrow());
    assert!(!worker.poll());
    assert!(!worker.state().is_running());
}

#[test]
fn an_old_snapshot_is_not_touched_by_later_commands() {
    let (manager, mut worker) = StateManager::new();
    worker.serve(Some(WorkspaceAction::add(workspace("ws1", "one"))));
    let old = manager.workspaces.borrow();
    worker.serve(Some(WorkspaceAction::add(workspace("ws2", "two"))));
    worker.serve(Some(WorkspaceAction::remove(key("ws1"))));
    assert_eq!(old.len(), 1);
    assert!(old.contains_key(&key("ws1")));
    let new = manager.workspaces.borrow();
    assert_eq!(new.len(), 1);
    assert!(new.contains_key(&key("ws2")));
}

#[test]
fn scenario_through_the_running_actor() {
    runtime().block_on(async {
        let (manager, worker) = StateManager::new();
        let task = drive(worker);
        let view = manager.view();

        assert_eq!(add(&view, workspace("ws1", "one")).await, Ok(()));
        wait_for(&view, "ws1", |v| v.borrow().len() == 1).await;
        assert!(view.borrow().contains_key(&key("ws1")));

        assert_eq!(add(&view, workspace("ws2", "two")).await, Ok(()));
        wait_for(&view, "ws2", |v| v.borrow().len() == 2).await;

        assert_eq!(remove(&view, "ws1").await, Ok(()));
        wait_for(&view, "the removal", |v| v.borrow().len() == 1).await;
        assert!(view.borrow().contains_key(&key("ws2")));
        assert!(!view.borrow().contains_key(&key("ws1")));

        assert_eq!(remove(&view, "ws1").await, Ok(()));
        assert_eq!(add(&view, workspace("mark", "")).await, Ok(()));
        wait_for(&view, "the marker", |v| v.borrow().contains_key(&key("mark"))).await;
        assert_eq!(view.borrow().len(), 2);
        assert!(view.borrow().contains_key(&key("ws2")));
        assert_eq!(manager.get(&key("ws2")).unwrap().name, "two");

        drop(view);
        drop(manager);
        task.await.unwrap();
    });
}

#[test]
fn hundred_concurrent_adds_lose_nothing() {
    runtime().block_on(async {
        let (manager, worker) = StateManager::new();
        let task = drive(worker);
        let mut senders = Vec::new();
        for i in 0..100 {
            let view = manager.view();
            senders.push(tokio::spawn(async move {
                add(&view, workspace(&format!("ws{}", i), &format!("n{}", i))).await
            }));
        }
        for s in senders {
            assert_eq!(s.await.unwrap(), Ok(()));
        }
        wait_for(&manager.workspaces, "all hundred", |v| v.borrow().len() >= 100).await;
        let snapshot = manager.workspaces.borrow();
        assert_eq!(snapshot.len(), 100);
        for i in 0..100 {
            assert_eq!(snapshot.get(&format!("ws{}", i)).unwrap().name, format!("n{}", i));
        }
        drop(manager);
        task.await.unwrap();
    });
}

#[test]
fn commands_of_one_sender_are_applied_in_the_order_sent() {
    runtime().block_on(async {
        let (manager, worker) = StateManager::new();
        let task = drive(worker);
        let view = manager.view();
        for round in 0..50 {
            add(&view, workspace("a", &format!("{}", round))).await.unwrap();
            add(&view, workspace("b", &format!("{}", round))).await.unwrap();
            remove(&view, "b").await.unwrap();
        }
        add(&view, workspace("end", "")).await.unwrap();
        wait_for(&view, "the last command", |v| v.borrow().contains_key(&key("end"))).await;
        let snapshot = view.borrow();
        assert_eq!(snapshot.len(), 2);
        assert_eq!(snapshot.get(&key("a")).unwrap().name, "49");
        assert!(snapshot.get(&key("b")).is_none());
        drop(view);
        drop(manager);
        task.await.unwrap();
    });
}

#[test]
fn a_reader_never_sees_the_registry_go_back() {
    runtime().block_on(async {
        let (manager, worker) = StateManager::new();
        let task = drive(worker);
        let reader = manager.view();
        let watching = tokio::spawn(async move {
            let mut seen = 0;
            while seen < 200 {
                let now = reader.borrow().len();
                assert!(now >= seen, "saw {} entries after {}", now, seen);
                seen = now;
                tokio::task::yield_now().await;
            }
        });
        let writer = manager.view();
        for i in 0..200 {
            add(&writer, workspace(&format!("ws{}", i), "w")).await.unwrap();
        }
        watching.await.unwrap();
        drop(writer);
        drop(manager);
        task.await.unwrap();
    });
}

#[test]
fn after_shutdown_reads_stay_and_writes_fail() {
    runtime().block_on(async {
        let (manager, worker) = StateManager::new();
        let task = drive(worker);
        let view = manager.view();
        add(&view, workspace("ws1", "one")).await.unwrap();
        wait_for(&view, "ws1", |v| v.borrow().len() == 1).await;

        manager.stop();
        let mut refused = None;
        for _ in 0..100 {
            if let Err(e) = remove(&view, "never-there").await {
                refused = Some(e);
                break;
            }
            tokio::time::sleep(Duration::from_millis(1)).await;
        }
        assert_eq!(refused, Some(ActorUnavailable));
        task.await.unwrap();

        assert_eq!(add(&view, workspace("ws2", "two")).await, Err(ActorUnavailable));
        assert_eq!(remove(&view, "ws1").await, Err(ActorUnavailable));
        for _ in 0..10 {
            let snapshot = view.borrow();
            assert_eq!(snapshot.len(), 1);
            assert_eq!(snapshot.get(&key("ws1")).unwrap().name, "one");
            assert_eq!(manager.get(&key("ws1")).unwrap().name, "one");
            assert!(manager.get(&key("ws2")).is_none());
        }
    });
}

#[test]
fn the_task_ends_when_every_handle_is_gone() {
    runtime().block_on(async {
        let (manager, worker) = StateManager::new();
        let task = drive(worker);
        let view = manager.view();
        add(&view, workspace("ws1", "one")).await.unwrap();
        drop(view);
        drop(manager);
        task.await.unwrap();
    });
}

#[test]
fn delivery_maps_the_answer_of_the_queue() {
    runtime().block_on(async {
        let (open_tx, mut open_rx) = tokio::sync::mpsc::channel::<WorkspaceAction>(1);
        let sent = open_tx.send(WorkspaceAction::remove(key("a"))).await;
        assert_eq!(WorkspacesView::delivery(sent), Ok(()));
        assert!(open_rx.recv().await.is_some());

        drop(open_rx);
        let sent = open_tx.send(WorkspaceAction::remove(key("a"))).await;
        assert_eq!(WorkspacesView::delivery(sent), Err(ActorUnavailable));
    });
}
