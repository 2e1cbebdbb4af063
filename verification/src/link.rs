//! How a symbolic link is put in place, step by step.
//!
//! Placing a link takes up to four steps on the disk, and what the next step
//! is depends on how the last one went. The caller takes the steps; this
//! file decides them. A link is first created. Only where that fails, and
//! replacing is asked for, what lies in the way is examined, removed if it is
//! a symbolic link, and the link is created once more. Nothing but a
//! symbolic link is ever removed.

use vstd::prelude::*;
use crate::store::StoreError;

verus! {

/// How far the placing of one link has come.
#[derive(Clone, Copy, Debug, PartialEq, Eq, Structural)]
pub enum LinkState {
    /// Nothing has been done yet.
    Start,
    /// The link is being created for the first time.
    Creating,
    /// The first attempt failed; what lies in the way is being examined.
    Inspecting,
    /// A symbolic link lies in the way and is being removed.
    Removing,
    /// The link is being created a second time.
    Retrying,
    /// The link is in place, or the attempt has been given up.
    Finished,
}

/// What the caller saw when it took the last step.
#[derive(Clone, Copy, Debug, PartialEq, Eq, Structural)]
pub enum LinkSeen {
    /// Nothing: no step has been taken yet.
    Nothing,
    /// The link was created.
    Created,
    /// The link could not be created.
    CreateFailed,
    /// What lies in the way is a symbolic link.
    IsSymlink,
    /// What lies in the way is something else.
    NotSymlink,
    /// What lies in the way could not be examined.
    InspectFailed,
    /// The old link was removed.
    Removed,
    /// The old link could not be removed.
    RemoveFailed,
}

/// The step to take next.
#[derive(Clone, Copy, Debug, PartialEq, Eq, Structural)]
pub enum LinkStep {
    /// Create the symbolic link.
    Create,
    /// Examine what lies at the link's path, without following a link.
    Inspect,
    /// Remove what lies at the link's path.
    Remove,
    /// The link is in place.
    Done,
    /// The link cannot be placed.
    Fail(StoreError),
}

/// The next state and step, given the state, what was seen, and whether a
/// link that lies in the way may be replaced.
pub open spec fn spec_link_step(state: LinkState, seen: LinkSeen, replace: bool) -> (
    LinkState,
    LinkStep,
) {
    match (state, seen) {
        (LinkState::Start, LinkSeen::Nothing) => (LinkState::Creating, LinkStep::Create),
        (LinkState::Creating, LinkSeen::Created) => (LinkState::Finished, LinkStep::Done),
        (LinkState::Creating, LinkSeen::CreateFailed) => if replace {
            (LinkState::Inspecting, LinkStep::Inspect)
        } else {
            (LinkState::Finished, LinkStep::Fail(StoreError::AlreadyExists))
        },
        (LinkState::Inspecting, LinkSeen::IsSymlink) => (LinkState::Removing, LinkStep::Remove),
        (LinkState::Inspecting, LinkSeen::NotSymlink) => (
            LinkState::Finished,
            LinkStep::Fail(StoreError::NotASymlink),
        ),
        (LinkState::Inspecting, LinkSeen::InspectFailed) => (
            LinkState::Finished,
            LinkStep::Fail(StoreError::Unreadable),
        ),
        (LinkState::Removing, LinkSeen::Removed) => (LinkState::Retrying, LinkStep::Create),
        (LinkState::Removing, LinkSeen::RemoveFailed) => (
            LinkState::Finished,
            LinkStep::Fail(StoreError::RemoveFailed),
        ),
        (LinkState::Retrying, LinkSeen::Created) => (LinkState::Finished, LinkStep::Done),
        (LinkState::Retrying, LinkSeen::CreateFailed) => (
            LinkState::Finished,
            LinkStep::Fail(StoreError::LinkFailed),
        ),
        _ => (LinkState::Finished, LinkStep::Fail(StoreError::OutOfTurn)),
    }
}

/// The number of steps that can still follow a state.
pub open spec fn spec_steps_left(state: LinkState) -> nat {
    match state {
        LinkState::Start => 5,
        LinkState::Creating => 4,
        LinkState::Inspecting => 3,
        LinkState::Removing => 2,
        LinkState::Retrying => 1,
        LinkState::Finished => 0,
    }
}

/// Something is removed only after it was seen to be a symbolic link.
pub proof fn lemma_removes_only_symlinks(state: LinkState, seen: LinkSeen, replace: bool)
    requires
        spec_link_step(state, seen, replace).1 == LinkStep::Remove,
    ensures
        state == LinkState::Inspecting,
        seen == LinkSeen::IsSymlink,
{
}

/// Nothing is examined or removed unless replacing was asked for and the
/// first attempt to create the link had failed.
pub proof fn lemma_inspects_only_to_replace(state: LinkState, seen: LinkSeen, replace: bool)
    requires
        spec_link_step(state, seen, replace).1 == LinkStep::Inspect,
    ensures
        replace,
        state == LinkState::Creating,
        seen == LinkSeen::CreateFailed,
{
}

/// Every step brings the end nearer, and the placing ends exactly with
/// `Done` or `Fail`.
pub proof fn lemma_link_steps_end(state: LinkState, seen: LinkSeen, replace: bool)
    requires
        state != LinkState::Finished,
    ensures
        spec_steps_left(spec_link_step(state, seen, replace).0) < spec_steps_left(state),
        spec_link_step(state, seen, replace).0 == LinkState::Finished <==> (spec_link_step(
            state,
            seen,
            replace,
        ).1 == LinkStep::Done || spec_link_step(state, seen, replace).1 is Fail),
{
}

/// Decides the next step of placing a link.
pub fn link_step(state: LinkState, seen: LinkSeen, replace: bool) -> (next: (LinkState, LinkStep))
    ensures
        next == spec_link_step(state, seen, replace),
{
    match (state, seen) {
        (LinkState::Start, LinkSeen::Nothing) => (LinkState::Creating, LinkStep::Create),
        (LinkState::Creating, LinkSeen::Created) => (LinkState::Finished, LinkStep::Done),
        (LinkState::Creating, LinkSeen::CreateFailed) => if replace {
            (LinkState::Inspecting, LinkStep::Inspect)
        } else {
            (LinkState::Finished, LinkStep::Fail(StoreError::AlreadyExists))
        },
        (LinkState::Inspecting, LinkSeen::IsSymlink) => (LinkState::Removing, LinkStep::Remove),
        (LinkState::Inspecting, LinkSeen::NotSymlink) => (
            LinkState::Finished,
            LinkStep::Fail(StoreError::NotASymlink),
        ),
        (LinkState::Inspecting, LinkSeen::InspectFailed) => (
            LinkState::Finished,
            LinkStep::Fail(StoreError::Unreadable),
        ),
        (LinkState::Removing, LinkSeen::Removed) => (LinkState::Retrying, LinkStep::Create),
        (LinkState::Removing, LinkSeen::RemoveFailed) => (
            LinkState::Finished,
            LinkStep::Fail(StoreError::RemoveFailed),
        ),
        (LinkState::Retrying, LinkSeen::Created) => (LinkState::Finished, LinkStep::Done),
        (LinkState::Retrying, LinkSeen::CreateFailed) => (
            LinkState::Finished,
            LinkStep::Fail(StoreError::LinkFailed),
        ),
        _ => (LinkState::Finished, LinkStep::Fail(StoreError::OutOfTurn)),
    }
}

} // verus!
