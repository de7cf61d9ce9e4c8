//! What a processor reports of itself, and the scopes that tie processors to
//! the plan nodes they were built for.

use std::sync::atomic::AtomicU64;
use std::sync::atomic::AtomicUsize;
use std::sync::Arc;
use vstd::prelude::*;

verus! {

/// The plan node that the processors built inside the scope belong to.
#[derive(Clone, Debug, PartialEq, Eq)]
pub struct PlanScope {
    pub id: u32,
    pub name: String,
    pub parent_id: u32,
}

impl PlanScope {
    /// The scope of plan node `id`, with no parent yet.
    pub fn create(id: u32, name: String) -> (scope: PlanScope)
        ensures
            scope.id == id,
            scope.parent_id == 0,
            scope.name == name,
    {
        PlanScope { id, parent_id: 0, name }
    }

    /// The scope of plan node `id` under `parent_id`.
    pub fn with_parent(id: u32, name: String, parent_id: u32) -> (scope: PlanScope)
        ensures
            scope.id == id,
            scope.parent_id == parent_id,
            scope.name == name,
    {
        PlanScope { id, parent_id, name }
    }
}

#[derive(Default)]
pub struct Profile {
    /// The id of the processor.
    pub pid: usize,
    /// The name of the processor.
    pub p_name: String,
    pub plan_id: Option<u32>,
    pub plan_name: Option<String>,
    pub plan_parent_id: Option<u32>,
    /// The time spent processing, in nanoseconds.
    pub cpu_time: AtomicU64,
    /// The time spent waiting, in nanoseconds.
    pub wait_time: AtomicU64,
}

impl Profile {
    /// The profile of processor `pid`: it takes the plan node's id, name and
    /// parent from the scope, where there is one.
    pub fn create(pid: usize, p_name: String, scope: Option<PlanScope>) -> (profile: Profile)
        ensures
            profile.pid == pid,
            profile.p_name == p_name,
            match scope {
                Some(s) => profile.plan_id == Some(s.id) && profile.plan_name == Some(s.name)
                    && profile.plan_parent_id == Some(s.parent_id),
                None => profile.plan_id is None && profile.plan_name is None
                    && profile.plan_parent_id is None,
            },
    {
        let mut plan_id: Option<u32> = None;
        let mut plan_name: Option<String> = None;
        let mut plan_parent_id: Option<u32> = None;
        match scope {
            Some(s) => {
                plan_id = Some(s.id);
                plan_parent_id = Some(s.parent_id);
                plan_name = Some(s.name);
            },
            None => {},
        }
        Profile {
            pid,
            p_name,
            cpu_time: AtomicU64::new(0),
            wait_time: AtomicU64::new(0),
            plan_id,
            plan_name,
            plan_parent_id,
        }
    }
}

/// Holds a place on the stack of open scopes. Scopes close in the reverse of
/// the order they were opened in; a guard that is let go out of turn shows
/// that the stack is broken.
pub struct PlanScopeGuard {
    idx: usize,
    scope_size: Arc<AtomicUsize>,
}

impl PlanScopeGuard {
    pub closed spec fn idx(&self) -> usize {
        self.idx
    }

    /// The counter of open scopes that the guard was made with.
    pub closed spec fn counter(&self) -> Arc<AtomicUsize> {
        self.scope_size
    }

    /// The guard of the scope at place `idx` of the stack counted by
    /// `scope_size`.
    pub fn create(scope_size: Arc<AtomicUsize>, idx: usize) -> (guard: PlanScopeGuard)
        ensures
            guard.idx() == idx,
            guard.counter() == scope_size,
    {
        PlanScopeGuard { idx, scope_size }
    }

    /// The place this guard holds.
    pub fn index(&self) -> (idx: usize)
        ensures
            idx == self.idx(),
    {
        self.idx
    }

    /// The counter of open scopes that this guard was made with: the one
    /// to count down when the guard is let go.
    pub fn scope_size(&self) -> (counter: &Arc<AtomicUsize>)
        ensures
            *counter == self.counter(),
    {
        &self.scope_size
    }

    /// Whether a guard at place `idx` is let go in turn, given the number of
    /// scopes that were open just before: it must be the one opened last.
    pub fn closes_in_turn(open_before: usize, idx: usize) -> (in_turn: bool)
        ensures
            in_turn == (open_before == idx + 1),
    {
        idx < usize::MAX && open_before == idx + 1
    }
}

} // verus!
