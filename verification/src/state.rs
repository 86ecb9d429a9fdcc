use crate::action::WorkspaceAction;
use crate::channel::latest;
use crate::registry::{Registry, RegistryModel, Workspace};
use crate::worker::{observe, received_model, turn, WorkerModel, WorkerState};
use crate::text::{decimal, push_decimal};
use std::sync::Arc;
use vstd::prelude::*;
use vstd::string::StringExecFns;

verus! {

/// Where a user's cursor stands: the buffer, by its index in the workspace, and
/// the position in it.
#[derive(Debug, Clone)]
pub struct UserCursor {
    pub buffer: i32,
    pub x: i32,
    pub y: i32,
}

impl UserCursor {
    /// How a cursor is written out: `Cursor(buffer:1, x:2, y:3)`.
    pub open spec fn text(&self) -> Seq<char> {
        "Cursor(buffer:"@ + decimal(self.buffer as int) + ", x:"@ + decimal(self.x as int)
            + ", y:"@ + decimal(self.y as int) + ")"@
    }

    /// The cursor written out.
    pub fn to_string(&self) -> (r: String)
        ensures
            r@ == self.text(),
    {
        let mut out = String::from_str("Cursor(buffer:");
        push_decimal(&mut out, self.buffer);
        out.append(", x:");
        push_decimal(&mut out, self.x);
        out.append(", y:");
        push_decimal(&mut out, self.y);
        out.append(")");
        out
    }
}

/// A participant of a workspace.
#[derive(Debug, Clone)]
pub struct User {
    pub name: String,
    pub cursor: UserCursor,
}

impl User {
    /// How a user is written out: `User(name:ann, cursor:Cursor(buffer:1, x:2, y:3))`.
    pub open spec fn text(&self) -> Seq<char> {
        "User(name:"@ + self.name@ + ", cursor:"@ + self.cursor.text() + ")"@
    }

    /// The user written out.
    pub fn to_string(&self) -> (r: String)
        ensures
            r@ == self.text(),
    {
        let mut out = String::from_str("User(name:");
        out.append(self.name.as_str());
        out.append(", cursor:");
        let cursor = self.cursor.to_string();
        out.append(cursor.as_str());
        out.append(")");
        out
    }
}

/// How many commands the queue holds before a sender has to wait.
pub const COMMAND_QUEUE_CAPACITY: usize = 32;

/// The command queue is closed: the task that owned the registry is gone, and
/// this handle will never again get a command through.
#[derive(Debug, Clone, Copy, PartialEq, Eq)]
pub struct ActorUnavailable;

/// A handle on the registry that can be cloned and passed around: it reads the
/// latest published snapshot and holds the sending end of the command queue.
pub struct WorkspacesView {
    watch: tokio::sync::watch::Receiver<Arc<Registry>>,
    op: tokio::sync::mpsc::Sender<WorkspaceAction>,
}

impl Clone for WorkspacesView {
    /// Another handle on the same slot and the same queue.
    fn clone(&self) -> (r: Self)
        ensures
            r == *self,
    {
        WorkspacesView { watch: self.watch.clone(), op: self.op.clone() }
    }
}

impl WorkspacesView {
    /// The snapshot that was published last; the empty registry if none was.
    /// Taking it waits for nobody and copies no entry.
    pub fn borrow(&self) -> (r: Arc<Registry>) {
        latest(&self.watch)
    }

    /// The sending end of the command queue that this handle holds.
    pub closed spec fn queue(&self) -> tokio::sync::mpsc::Sender<WorkspaceAction> {
        self.op
    }

    /// The sending end of the command queue.
    pub fn sender(&self) -> (r: &tokio::sync::mpsc::Sender<WorkspaceAction>)
        ensures
            *r == self.queue(),
    {
        &self.op
    }

    /// What the caller of an add or a remove is told, given what the queue
    /// said of the command: a closed queue means the actor is gone.
    pub fn delivery(
        sent: Result<(), tokio::sync::mpsc::error::SendError<WorkspaceAction>>,
    ) -> (r: Result<(), ActorUnavailable>)
        ensures
            sent is Ok ==> r == Ok::<(), ActorUnavailable>(()),
            sent is Err ==> r == Err::<(), ActorUnavailable>(ActorUnavailable),
    {
        match sent {
            Ok(_) => Ok(()),
            Err(_) => Err(ActorUnavailable),
        }
    }
}

/// The background task: its state between turns, and its ends of the three
/// channels.
pub struct Worker {
    /// Receiving end of the command queue, for the loop that drives the task
    /// to wait on.
    pub commands: tokio::sync::mpsc::Receiver<WorkspaceAction>,
    state: WorkerState,
    snapshots: tokio::sync::watch::Sender<Arc<Registry>>,
    run: tokio::sync::watch::Receiver<bool>,
}

impl View for Worker {
    type V = WorkerModel;

    closed spec fn view(&self) -> WorkerModel {
        self.state@
    }
}

impl Worker {
    /// The state of the task between turns.
    pub fn state(&self) -> (r: &WorkerState)
        ensures
            r@ == self@,
    {
        &self.state
    }

    /// Reads the run flag and says whether the task should wait for another
    /// command. Once the answer is no, it stays no.
    pub fn poll(&mut self) -> (go: bool)
        ensures
            final(self)@ == observe(old(self)@, go),
            go == final(self)@.running,
    {
        let run = latest(&self.run);
        self.state.observe(run)
    }

    /// One turn: applies the command that the queue handed over and publishes
    /// the registry as it then stands, and says whether the task goes on. It
    /// stops when the queue is closed, and when no reader of the snapshots is
    /// left.
    pub fn serve(&mut self, received: Option<WorkspaceAction>) -> (go: bool)
        ensures
            final(self)@ == observe(turn(old(self)@, received_model(received)), go),
            go == final(self)@.running,
    {
        match self.state.handle(received) {
            Some(snapshot) => {
                let delivered = match self.snapshots.send(snapshot) {
                    Ok(_) => true,
                    Err(_) => false,
                };
                self.state.settle(delivered)
            },
            None => false,
        }
    }
}

/// The owner of the actor. It holds the writing end of the run flag; lowering
/// the flag stops the background task at its next look at it.
pub struct StateManager {
    pub workspaces: WorkspacesView,
    pub run: tokio::sync::watch::Receiver<bool>,
    run_tx: tokio::sync::watch::Sender<bool>,
}

impl StateManager {
    /// Sets up an actor: a command queue, a broadcast slot that holds the empty
    /// registry, and a run flag that is up. Returns the owner, and the
    /// background task for the caller to drive.
    pub fn new() -> (r: (StateManager, Worker))
        ensures
            r.1@ == (WorkerModel { store: RegistryModel::empty(), running: true }),
    {
        let (op, commands) = tokio::sync::mpsc::channel::<WorkspaceAction>(COMMAND_QUEUE_CAPACITY);
        let (snapshots, watch) = tokio::sync::watch::channel(Arc::new(Registry::new()));
        let (run_tx, run) = tokio::sync::watch::channel(true);
        let worker = Worker { commands, state: WorkerState::new(), snapshots, run: run.clone() };
        (StateManager { workspaces: WorkspacesView { watch, op }, run, run_tx }, worker)
    }

    /// The owner's own handle, the field `workspaces`.
    pub closed spec fn handle(&self) -> WorkspacesView {
        self.workspaces
    }

    /// Another handle on the same actor: it reads the slot and feeds the queue
    /// that the owner's own handle does.
    pub fn view(&self) -> (r: WorkspacesView)
        ensures
            r == self.handle(),
    {
        self.workspaces.clone()
    }

    /// The workspace that the latest snapshot holds under `key`, if any.
    pub fn get(&self, key: &String) -> (r: Option<Arc<Workspace>>) {
        let snapshot = self.workspaces.borrow();
        snapshot.get(key)
    }

    /// Lowers the run flag. Says whether anybody was still watching it.
    pub fn stop(&self) -> (r: bool) {
        match self.run_tx.send(false) {
            Ok(_) => true,
            Err(_) => false,
        }
    }
}

} // verus!
