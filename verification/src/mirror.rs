//! Bringing a bare mirror in line with its locator: what has to be done to a mirror in a
//! given state, and what its configuration is afterwards.

use crate::cache::text_of;
use crate::text::views;
use vstd::prelude::*;

verus! {

/// What is read of a mirror before it is synchronized.
#[derive(Clone, Debug)]
pub struct MirrorState {
    /// Whether there is a bare repository in the mirror's directory.
    pub exists: bool,
    /// The address of the remote `origin`, where the mirror has that remote.
    pub origin: Option<String>,
    /// The entries of `remote.origin.fetch`, in their order.
    pub fetch: Vec<String>,
}

/// One step of a synchronization.
#[derive(Clone, Debug)]
pub enum SyncAction {
    /// Make an empty bare repository in the mirror's directory.
    InitBare,
    /// Add the remote `origin` with this address.
    CreateRemote(String),
    /// Remove every entry of `remote.origin.fetch`.
    ClearFetch,
    /// Add this entry to `remote.origin.fetch`.
    AddFetch(String),
    /// Fetch from `origin`, by the mappings that are configured.
    Fetch,
}

/// A mirror's configuration as plain values.
pub struct MirrorModel {
    pub exists: bool,
    pub origin: Option<Seq<char>>,
    pub fetch: Seq<Seq<char>>,
}

/// A step as plain values.
pub enum ActionModel {
    InitBare,
    CreateRemote(Seq<char>),
    ClearFetch,
    AddFetch(Seq<char>),
    Fetch,
}

impl View for MirrorState {
    type V = MirrorModel;

    open spec fn view(&self) -> MirrorModel {
        MirrorModel { exists: self.exists, origin: text_of(self.origin), fetch: views(self.fetch@) }
    }
}

impl View for SyncAction {
    type V = ActionModel;

    open spec fn view(&self) -> ActionModel {
        match self {
            SyncAction::InitBare => ActionModel::InitBare,
            SyncAction::CreateRemote(url) => ActionModel::CreateRemote(url@),
            SyncAction::ClearFetch => ActionModel::ClearFetch,
            SyncAction::AddFetch(spec) => ActionModel::AddFetch(spec@),
            SyncAction::Fetch => ActionModel::Fetch,
        }
    }
}

/// The mapping of a mirror: every branch of the remote is the branch of that name.
pub open spec fn mirror_refspec() -> Seq<char> {
    "+refs/heads/*:refs/heads/*"@
}

/// The mapping that a new remote `origin` is given.
pub open spec fn default_refspec() -> Seq<char> {
    "+refs/heads/*:refs/remotes/origin/*"@
}

/// The views of a list of steps.
pub open spec fn action_views(actions: Seq<SyncAction>) -> Seq<ActionModel> {
    actions.map_values(|a: SyncAction| a@)
}

/// The steps that bring a mirror in state `m` in line with the locator `url`: a
/// repository is made where there is none; `origin` is added where it is missing, and
/// never changed; the fetch mappings are replaced by that of a mirror; then comes the
/// fetch.
pub open spec fn sync_plan(m: MirrorModel, url: Seq<char>) -> Seq<ActionModel> {
    (if m.exists {
        Seq::<ActionModel>::empty()
    } else {
        seq![ActionModel::InitBare]
    }) + (if m.origin is Some {
        Seq::<ActionModel>::empty()
    } else {
        seq![ActionModel::CreateRemote(url)]
    }) + seq![ActionModel::ClearFetch, ActionModel::AddFetch(mirror_refspec()), ActionModel::Fetch]
}

impl MirrorModel {
    /// The configuration after one step.
    pub open spec fn apply(self, action: ActionModel) -> MirrorModel {
        match action {
            ActionModel::InitBare => MirrorModel { exists: true, ..self },
            ActionModel::CreateRemote(url) => MirrorModel {
                origin: Some(url),
                fetch: self.fetch.push(default_refspec()),
                ..self
            },
            ActionModel::ClearFetch => MirrorModel { fetch: Seq::empty(), ..self },
            ActionModel::AddFetch(spec) => MirrorModel { fetch: self.fetch.push(spec), ..self },
            ActionModel::Fetch => self,
        }
    }

    /// The configuration after the steps, taken in their order.
    pub open spec fn apply_all(self, actions: Seq<ActionModel>) -> MirrorModel
        decreases actions.len(),
    {
        if actions.len() == 0 {
            self
        } else {
            self.apply_all(actions.drop_last()).apply(actions.last())
        }
    }

    /// The configuration of a mirror that is in line with the locator `url`.
    pub open spec fn synced(self, url: Seq<char>) -> MirrorModel {
        MirrorModel {
            exists: true,
            origin: match self.origin {
                Some(o) => Some(o),
                None => Some(url),
            },
            fetch: seq![mirror_refspec()],
        }
    }
}

/// The steps that bring the mirror in line with its locator `url`, in the order in which
/// they are to be taken.
pub fn clone_or_fetch(state: &MirrorState, url: &str) -> (r: Vec<SyncAction>)
    ensures
        action_views(r@) == sync_plan(state@, url@),
{
    let mut plan: Vec<SyncAction> = Vec::new();
    if !state.exists {
        plan.push(SyncAction::InitBare);
    }
    if state.origin.is_none() {
        plan.push(SyncAction::CreateRemote(url.to_owned()));
    }
    plan.push(SyncAction::ClearFetch);
    plan.push(SyncAction::AddFetch("+refs/heads/*:refs/heads/*".to_owned()));
    plan.push(SyncAction::Fetch);
    proof {
        assert(action_views(plan@) =~= sync_plan(state@, url@));
    }
    plan
}

/// A step more is applied to what the steps before it gave.
pub proof fn lemma_apply_push(m: MirrorModel, actions: Seq<ActionModel>, last: ActionModel)
    ensures
        m.apply_all(actions.push(last)) == m.apply_all(actions).apply(last),
{
    assert(actions.push(last).drop_last() == actions);
}

/// The steps of [`sync_plan`] leave the mirror in line with its locator.
pub proof fn lemma_sync_plan_syncs(m: MirrorModel, url: Seq<char>)
    ensures
        m.apply_all(sync_plan(m, url)) == m.synced(url),
{
    let none = Seq::<ActionModel>::empty();
    let init = if m.exists {
        none
    } else {
        none.push(ActionModel::InitBare)
    };
    let remote = if m.origin is Some {
        init
    } else {
        init.push(ActionModel::CreateRemote(url))
    };
    let cleared = remote.push(ActionModel::ClearFetch);
    let mapped = cleared.push(ActionModel::AddFetch(mirror_refspec()));
    assert(sync_plan(m, url) == mapped.push(ActionModel::Fetch));
    lemma_apply_push(m, none, ActionModel::InitBare);
    lemma_apply_push(m, init, ActionModel::CreateRemote(url));
    lemma_apply_push(m, remote, ActionModel::ClearFetch);
    lemma_apply_push(m, cleared, ActionModel::AddFetch(mirror_refspec()));
    lemma_apply_push(m, mapped, ActionModel::Fetch);
    assert(m.apply_all(mapped).fetch == seq![mirror_refspec()]);
}

/// Synchronizing a mirror twice with the same locator leaves it as the first time did:
/// the second time nothing is made or added anew, and the address of `origin` and the
/// fetch mappings are the same afterwards.
pub proof fn lemma_sync_idempotent(m: MirrorModel, url: Seq<char>)
    ensures
        sync_plan(m.synced(url), url) == seq![
            ActionModel::ClearFetch,
            ActionModel::AddFetch(mirror_refspec()),
            ActionModel::Fetch,
        ],
        m.synced(url).apply_all(sync_plan(m.synced(url), url)) == m.synced(url),
{
    lemma_sync_plan_syncs(m.synced(url), url);
    assert(m.synced(url).synced(url) == m.synced(url));
}

} // verus!
