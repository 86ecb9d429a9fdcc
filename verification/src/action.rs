use crate::registry::{Registry, RegistryModel, Workspace, WorkspaceModel};
use std::sync::Arc;
use vstd::prelude::*;

verus! {

/// A command for the task that owns the registry.
#[derive(Debug)]
pub enum WorkspaceAction {
    /// Register `w` under `key`, replacing whatever `key` held.
    Add { key: String, w: Box<Workspace> },
    /// Forget the workspace under `key`, if there is one.
    Remove { key: String },
}

/// Mathematical value of a [`WorkspaceAction`].
pub ghost enum ActionModel {
    Add { key: Seq<char>, w: WorkspaceModel },
    Remove { key: Seq<char> },
}

impl View for WorkspaceAction {
    type V = ActionModel;

    open spec fn view(&self) -> ActionModel {
        match self {
            WorkspaceAction::Add { key, w } => ActionModel::Add { key: key@, w: w@ },
            WorkspaceAction::Remove { key } => ActionModel::Remove { key: key@ },
        }
    }
}

/// The registry after one command.
pub open spec fn apply_action(m: RegistryModel, a: ActionModel) -> RegistryModel {
    match a {
        ActionModel::Add { key, w } => m.insert(key, w),
        ActionModel::Remove { key } => m.remove(key),
    }
}

/// The registry after a run of commands, applied first to last.
pub open spec fn replay(m: RegistryModel, actions: Seq<ActionModel>) -> RegistryModel
    decreases actions.len(),
{
    if actions.len() == 0 {
        m
    } else {
        apply_action(replay(m, actions.drop_last()), actions.last())
    }
}

/// The values of a run of commands, in the same order.
pub open spec fn action_models(actions: Seq<WorkspaceAction>) -> Seq<ActionModel> {
    actions.map_values(|a: WorkspaceAction| a@)
}

impl WorkspaceAction {
    /// The command that registers `w` under its own id.
    pub fn add(w: Workspace) -> (r: Self)
        ensures
            r@ == (ActionModel::Add { key: w@.id, w: w@ }),
    {
        let key = w.id.clone();
        WorkspaceAction::Add { key, w: Box::new(w) }
    }

    /// The command that forgets the workspace under `key`.
    pub fn remove(key: String) -> (r: Self)
        ensures
            r@ == (ActionModel::Remove { key: key@ }),
    {
        WorkspaceAction::Remove { key }
    }
}

impl Registry {
    /// Carries out one command. Adding over a key that is taken replaces the
    /// workspace there, and removing a key that is absent does nothing: neither
    /// is an error.
    pub fn apply(&mut self, action: WorkspaceAction)
        ensures
            final(self)@ == apply_action(old(self)@, action@),
    {
        match action {
            WorkspaceAction::Add { key, w } => {
                self.insert(key, Arc::new(*w));
            },
            WorkspaceAction::Remove { key } => {
                self.remove(&key);
            },
        }
    }
}

impl Registry {
    /// Carries out a run of commands, first to last, on the calling thread.
    pub fn apply_all(&mut self, actions: Vec<WorkspaceAction>)
        ensures
            final(self)@ == replay(old(self)@, action_models(actions@)),
    {
        let ghost start = self@;
        let ghost all = action_models(actions@);
        for action in it: actions
            invariant
                it.seq() == actions@,
                all == action_models(actions@),
                self@ == replay(start, all.take(it.index() as int)),
        {
            proof {
                let i = it.index() as int;
                assert(all.take(i + 1).drop_last() =~= all.take(i));
                assert(all.take(i + 1).last() == action@);
            }
            self.apply(action);
        }
        proof {
            assert(all.take(all.len() as int) =~= all);
        }
    }
}

/// Removing a key twice in a row leaves the registry as removing it once does.
pub proof fn lemma_remove_idempotent(m: RegistryModel, key: Seq<char>)
    ensures
        apply_action(apply_action(m, ActionModel::Remove { key }), ActionModel::Remove { key })
            == apply_action(m, ActionModel::Remove { key }),
{
    assert(m.remove(key).remove(key) =~= m.remove(key));
}

/// Removing a key that the registry does not hold changes nothing.
pub proof fn lemma_remove_absent(m: RegistryModel, key: Seq<char>)
    requires
        !m.contains_key(key),
    ensures
        apply_action(m, ActionModel::Remove { key }) == m,
{
    assert(m.remove(key) =~= m);
}

/// Of two adds under one key with nothing between them, the second wins: the
/// registry holds the second workspace under the key, and is otherwise as if
/// the first add had never been made.
pub proof fn lemma_last_add_wins(
    m: RegistryModel,
    key: Seq<char>,
    w1: WorkspaceModel,
    w2: WorkspaceModel,
)
    ensures
        apply_action(apply_action(m, ActionModel::Add { key, w: w1 }), ActionModel::Add { key, w: w2 })
            == apply_action(m, ActionModel::Add { key, w: w2 }),
        apply_action(
            apply_action(m, ActionModel::Add { key, w: w1 }),
            ActionModel::Add { key, w: w2 },
        ).contains_key(key),
        apply_action(apply_action(m, ActionModel::Add { key, w: w1 }), ActionModel::Add { key, w: w2 })[key]
            == w2,
{
    assert(m.insert(key, w1).insert(key, w2) =~= m.insert(key, w2));
}

/// A run of adds, no two of them under the same key.
pub open spec fn distinct_adds(actions: Seq<ActionModel>) -> bool {
    &&& forall|i: int| 0 <= i < actions.len() ==> #[trigger] actions[i] is Add
    &&& forall|i: int, j: int|
        0 <= i < j < actions.len() ==> (#[trigger] actions[i])->Add_key != (
        #[trigger] actions[j])->Add_key
}

/// No write is lost: after a run of adds under distinct keys, an empty
/// registry holds as many workspaces as there were adds, each under its key,
/// and nothing else.
pub proof fn lemma_distinct_adds_all_kept(actions: Seq<ActionModel>)
    requires
        distinct_adds(actions),
    ensures
        replay(RegistryModel::empty(), actions).dom().finite(),
        replay(RegistryModel::empty(), actions).len() == actions.len(),
        forall|i: int|
            0 <= i < actions.len() ==> replay(RegistryModel::empty(), actions).contains_key(
                (#[trigger] actions[i])->Add_key,
            ) && replay(RegistryModel::empty(), actions)[actions[i]->Add_key] == actions[i]->Add_w,
        forall|k: Seq<char>| #[trigger]
            replay(RegistryModel::empty(), actions).contains_key(k) ==> exists|i: int|
                0 <= i < actions.len() && (#[trigger] actions[i])->Add_key == k,
    decreases actions.len(),
{
    if actions.len() > 0 {
        let front = actions.drop_last();
        let last = actions.last();
        lemma_distinct_adds_all_kept(front);
        let before = replay(RegistryModel::empty(), front);
        let after = replay(RegistryModel::empty(), actions);
        assert(last is Add);
        assert(after == before.insert(last->Add_key, last->Add_w));
        assert(!before.contains_key(last->Add_key)) by {
            if before.contains_key(last->Add_key) {
                let i = choose|i: int|
                    0 <= i < front.len() && (#[trigger] front[i])->Add_key == last->Add_key;
                assert(front[i] == actions[i]);
            }
        }
        assert forall|i: int| 0 <= i < actions.len() implies after.contains_key(
            (#[trigger] actions[i])->Add_key,
        ) && after[actions[i]->Add_key] == actions[i]->Add_w by {
            if i < front.len() {
                assert(front[i] == actions[i]);
            }
        }
        assert forall|k: Seq<char>| #[trigger] after.contains_key(k) implies exists|i: int|
            0 <= i < actions.len() && (#[trigger] actions[i])->Add_key == k by {
            if k == last->Add_key {
                assert(actions[actions.len() - 1]->Add_key == k);
            } else {
                let i = choose|i: int| 0 <= i < front.len() && (#[trigger] front[i])->Add_key == k;
                assert(front[i] == actions[i]);
            }
        }
    }
}

/// The order in which adds under distinct keys arrive does not matter: two
/// runs that hold the same adds leave the same registry.
pub proof fn lemma_distinct_adds_any_order(first: Seq<ActionModel>, second: Seq<ActionModel>)
    requires
        distinct_adds(first),
        distinct_adds(second),
        first.to_set() == second.to_set(),
    ensures
        replay(RegistryModel::empty(), first) == replay(RegistryModel::empty(), second),
{
    lemma_distinct_adds_all_kept(first);
    lemma_distinct_adds_all_kept(second);
    let a = replay(RegistryModel::empty(), first);
    let b = replay(RegistryModel::empty(), second);
    assert forall|k: Seq<char>| a.contains_key(k) implies b.contains_key(k) && a[k] == b[k] by {
        let i = choose|i: int| 0 <= i < first.len() && (#[trigger] first[i])->Add_key == k;
        assert(first.to_set().contains(first[i]));
        assert(second.contains(first[i]));
        let j = choose|j: int| 0 <= j < second.len() && second[j] == first[i];
        assert(second[j]->Add_key == k);
    }
    assert forall|k: Seq<char>| b.contains_key(k) implies a.contains_key(k) by {
        let j = choose|j: int| 0 <= j < second.len() && (#[trigger] second[j])->Add_key == k;
        assert(second.to_set().contains(second[j]));
        assert(first.contains(second[j]));
        let i = choose|i: int| 0 <= i < first.len() && first[i] == second[j];
        assert(first[i]->Add_key == k);
    }
    assert(a =~= b);
}

/// Replaying a run and then one more command is replaying the longer run.
pub proof fn lemma_replay_push(m: RegistryModel, actions: Seq<ActionModel>, a: ActionModel)
    ensures
        replay(m, actions.push(a)) == apply_action(replay(m, actions), a),
{
    assert(actions.push(a).drop_last() =~= actions);
}

/// Replaying two runs one after the other is replaying their concatenation.
pub proof fn lemma_replay_concat(
    m: RegistryModel,
    first: Seq<ActionModel>,
    second: Seq<ActionModel>,
)
    ensures
        replay(m, first + second) == replay(replay(m, first), second),
    decreases second.len(),
{
    if second.len() == 0 {
        assert(first + second =~= first);
    } else {
        lemma_replay_concat(m, first, second.drop_last());
        assert((first + second).drop_last() =~= first + second.drop_last());
    }
}

} // verus!
