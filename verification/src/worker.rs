use crate::action::{apply_action, replay, ActionModel, WorkspaceAction};
use crate::registry::{Registry, RegistryModel};
use std::sync::Arc;
use vstd::prelude::*;

verus! {

/// Mathematical value of the background task: the registry it owns, and
/// whether it is still taking commands.
pub ghost struct WorkerModel {
    pub store: RegistryModel,
    pub running: bool,
}

/// What the task has received from the command queue: a command, or `None`
/// once every sender is gone.
pub open spec fn received_model(received: Option<WorkspaceAction>) -> Option<ActionModel> {
    match received {
        Some(action) => Some(action@),
        None => None,
    }
}

/// The task after it has read the run flag: a flag that is down stops it.
pub open spec fn observe(w: WorkerModel, run: bool) -> WorkerModel {
    WorkerModel { store: w.store, running: w.running && run }
}

/// The task after one turn at the command queue. A running task applies the
/// command it received, and stops when the queue is closed. A stopped task
/// stays as it is.
pub open spec fn turn(w: WorkerModel, received: Option<ActionModel>) -> WorkerModel {
    if !w.running {
        w
    } else {
        match received {
            Some(action) => WorkerModel { store: apply_action(w.store, action), running: true },
            None => WorkerModel { store: w.store, running: false },
        }
    }
}

/// The snapshot that the task publishes in that turn: the whole registry after
/// the command, once for each command that a running task applies.
pub open spec fn publication(w: WorkerModel, received: Option<ActionModel>) -> Option<
    RegistryModel,
> {
    if w.running && received is Some {
        Some(turn(w, received).store)
    } else {
        None
    }
}

/// The task after a run of turns, taken first to last.
pub open spec fn turns(w: WorkerModel, inputs: Seq<Option<ActionModel>>) -> WorkerModel
    decreases inputs.len(),
{
    if inputs.len() == 0 {
        w
    } else {
        turn(turns(w, inputs.drop_last()), inputs.last())
    }
}

/// A run of commands as the queue hands them over, none of them the closing
/// `None`.
pub open spec fn deliveries(actions: Seq<ActionModel>) -> Seq<Option<ActionModel>> {
    actions.map_values(|a: ActionModel| Some(a))
}

/// The state that the background task keeps between two turns.
pub struct WorkerState {
    store: Registry,
    running: bool,
}

impl View for WorkerState {
    type V = WorkerModel;

    closed spec fn view(&self) -> WorkerModel {
        WorkerModel { store: self.store@, running: self.running }
    }
}

impl WorkerState {
    /// A running task with an empty registry.
    pub fn new() -> (r: Self)
        ensures
            r@ == (WorkerModel { store: RegistryModel::empty(), running: true }),
    {
        WorkerState { store: Registry::new(), running: true }
    }

    /// Whether the task is still taking commands.
    pub fn is_running(&self) -> (r: bool)
        ensures
            r == self@.running,
    {
        self.running
    }

    /// The registry that the task owns.
    pub fn store(&self) -> (r: &Registry)
        ensures
            r@ == self@.store,
    {
        &self.store
    }

    /// Takes note of the run flag before waiting for a command; the task goes on
    /// only if it was running and the flag is up.
    pub fn observe(&mut self, run: bool) -> (go: bool)
        ensures
            final(self)@ == observe(old(self)@, run),
            go == final(self)@.running,
    {
        if !run {
            self.running = false;
        }
        self.running
    }

    /// One turn at the command queue. Returns the snapshot to publish, which is
    /// the registry after the command; `None` when the task has stopped, now or
    /// before, and there is nothing to publish.
    pub fn handle(&mut self, received: Option<WorkspaceAction>) -> (out: Option<Arc<Registry>>)
        ensures
            final(self)@ == turn(old(self)@, received_model(received)),
            match out {
                Some(snapshot) => publication(old(self)@, received_model(received)) == Some(
                    snapshot@,
                ),
                None => publication(old(self)@, received_model(received)) is None,
            },
    {
        if !self.running {
            return None;
        }
        match received {
            Some(action) => {
                self.store.apply(action);
                Some(Arc::new(self.store.clone()))
            },
            None => {
                self.running = false;
                None
            },
        }
    }

    /// Takes note of whether the last snapshot reached the broadcast slot; a
    /// slot that nobody reads any more stops the task.
    pub fn settle(&mut self, delivered: bool) -> (go: bool)
        ensures
            final(self)@ == observe(old(self)@, delivered),
            go == final(self)@.running,
    {
        self.observe(delivered)
    }
}

/// A running task that is handed a run of commands has applied them in the
/// order in which they came: its registry is the replay of that run.
pub proof fn lemma_turns_replay(w: WorkerModel, actions: Seq<ActionModel>)
    requires
        w.running,
    ensures
        turns(w, deliveries(actions)) == (WorkerModel {
            store: replay(w.store, actions),
            running: true,
        }),
    decreases actions.len(),
{
    if actions.len() > 0 {
        lemma_turns_replay(w, actions.drop_last());
        assert(deliveries(actions).drop_last() =~= deliveries(actions.drop_last()));
    }
}

/// Every snapshot that a running task publishes is the replay of a prefix of
/// the commands it was handed: the one published for the command at index `i`
/// holds exactly the commands up to and including that one.
pub proof fn lemma_publication_is_prefix(w: WorkerModel, actions: Seq<ActionModel>, i: int)
    requires
        w.running,
        0 <= i < actions.len(),
    ensures
        publication(turns(w, deliveries(actions).take(i)), deliveries(actions)[i]) == Some(
            replay(w.store, actions.take(i + 1)),
        ),
{
    assert(deliveries(actions).take(i) =~= deliveries(actions.take(i)));
    lemma_turns_replay(w, actions.take(i));
    assert(actions.take(i + 1).drop_last() =~= actions.take(i));
}

/// A stopped task never comes back: whatever it is handed, it publishes
/// nothing and its registry stays as it was.
pub proof fn lemma_stopped_is_final(w: WorkerModel, inputs: Seq<Option<ActionModel>>)
    requires
        !w.running,
    ensures
        turns(w, inputs) == w,
        forall|i: int|
            0 <= i < inputs.len() ==> publication(
                turns(w, #[trigger] inputs.take(i)),
                inputs[i],
            ) is None,
{
    lemma_stopped_stays(w, inputs);
    assert forall|i: int| 0 <= i < inputs.len() implies publication(
        turns(w, #[trigger] inputs.take(i)),
        inputs[i],
    ) is None by {
        lemma_stopped_stays(w, inputs.take(i));
    }
}

/// A stopped task is unchanged by any run of turns.
proof fn lemma_stopped_stays(w: WorkerModel, inputs: Seq<Option<ActionModel>>)
    requires
        !w.running,
    ensures
        turns(w, inputs) == w,
    decreases inputs.len(),
{
    if inputs.len() > 0 {
        lemma_stopped_stays(w, inputs.drop_last());
    }
}

} // verus!
