//! The mirror synchronization state machine.
//!
//! The local mirror of the remote index tree is either `Absent` or
//! `Present`. Syncing performs exactly one action: a first-time
//! `Retrieve` (clone) when the mirror is absent, an in-place `Update`
//! (fetch and hard-reset) when it is present. The decisions are made
//! here; the version-control transport itself is run by the embedding
//! application, which observes the mirror and hands the observation in.

use vstd::prelude::*;

verus! {

/// Whether a working copy of the remote tree is present at the
/// configured root.
#[derive(Clone, Copy, Debug, PartialEq, Eq, Structural)]
pub enum MirrorState {
    Absent,
    Present,
}

/// The one transport action a sync round performs.
#[derive(Clone, Copy, Debug, PartialEq, Eq, Structural)]
pub enum SyncAction {
    /// First-time clone of the canonical upstream into the root.
    Retrieve,
    /// Fetch the tracked branch and hard-reset the working tree to it.
    Update,
}

/// What probing the configured root for a working copy observed.
#[derive(Clone, Debug)]
pub enum MirrorProbe {
    /// No version-control working copy could be discovered.
    NoWorkingCopy,
    /// A working copy exists but has no remote origin configured.
    /// A minimal local checkout may omit remote metadata, so this is
    /// trusted as a mirror.
    NoOrigin,
    /// A working copy exists with an origin remote; its URL, when the
    /// remote has one.
    Origin(Option<String>),
}

/// The canonical upstream URL of the index repository.
pub open spec fn spec_upstream() -> Seq<char> {
    "https://github.com/rust-lang/crates.io-index"@
}

/// The canonical upstream URL, as an owned string.
pub fn canonical_upstream() -> (r: String)
    ensures
        r@ == spec_upstream(),
{
    String::from_str("https://github.com/rust-lang/crates.io-index")
}

/// The state a probe observation witnesses: present iff a working copy
/// was discovered and its origin, if any, has no URL or the canonical
/// upstream URL.
pub open spec fn spec_mirror_state(probe: MirrorProbe) -> MirrorState {
    match probe {
        MirrorProbe::NoWorkingCopy => MirrorState::Absent,
        MirrorProbe::NoOrigin => MirrorState::Present,
        MirrorProbe::Origin(url) => match url {
            None => MirrorState::Present,
            Some(u) => if u@ == spec_upstream() {
                MirrorState::Present
            } else {
                MirrorState::Absent
            },
        },
    }
}

/// Decide from a probe observation whether the mirror is present.
pub fn mirror_state(probe: &MirrorProbe) -> (r: MirrorState)
    ensures
        r == spec_mirror_state(*probe),
{
    match probe {
        MirrorProbe::NoWorkingCopy => MirrorState::Absent,
        MirrorProbe::NoOrigin => MirrorState::Present,
        MirrorProbe::Origin(None) => MirrorState::Present,
        MirrorProbe::Origin(Some(u)) => {
            let upstream = canonical_upstream();
            if *u == upstream {
                MirrorState::Present
            } else {
                MirrorState::Absent
            }
        },
    }
}

/// One sync round from a given state: the action to run and the state
/// the mirror is in once that action succeeded.
pub open spec fn spec_sync_step(state: MirrorState) -> (SyncAction, MirrorState) {
    match state {
        MirrorState::Absent => (SyncAction::Retrieve, MirrorState::Present),
        MirrorState::Present => (SyncAction::Update, MirrorState::Present),
    }
}

/// Decide the sync action for the observed state: retrieve an absent
/// mirror, update a present one. Either way the mirror is present
/// afterwards.
pub fn sync_step(state: MirrorState) -> (r: (SyncAction, MirrorState))
    ensures
        r == spec_sync_step(state),
{
    match state {
        MirrorState::Absent => (SyncAction::Retrieve, MirrorState::Present),
        MirrorState::Present => (SyncAction::Update, MirrorState::Present),
    }
}

/// A sync round never retrieves onto an existing mirror and never
/// updates an absent one; and from the second round on, every round
/// updates: the first round, whatever the state, leaves the mirror
/// present, so no later round can decide to retrieve again.
pub proof fn lemma_sync_rounds(state: MirrorState)
    ensures
        spec_sync_step(MirrorState::Present).0 != SyncAction::Retrieve,
        spec_sync_step(MirrorState::Absent).0 != SyncAction::Update,
        spec_sync_step(spec_sync_step(state).1).0 == SyncAction::Update,
{
}

} // verus!
