//! Scheduler-side wrapper around a caller's agent.
//!
//! Agent identities come from an explicit [`IdAllocator`] owned by whoever
//! creates agents, so identity assignment carries no ambient global state.

use vstd::prelude::*;

verus! {

/// A caller-defined agent: the behavior a scheduler invokes once per tick.
pub trait Agent {
    /// One action of this agent within the current simulation tick.
    fn step(&self);
}

/// Hands out agent identifiers: the `n`-th call returns `n` (starting at 1).
/// One allocator per simulation instance keeps identifiers unique within it.
pub struct IdAllocator {
    counter: u32,
}

impl IdAllocator {
    /// How many identifiers this allocator has issued.
    pub closed spec fn issued(&self) -> u32 {
        self.counter
    }

    /// An allocator that has issued nothing yet.
    pub fn new() -> (ids: IdAllocator)
        ensures
            ids.issued() == 0,
    {
        IdAllocator { counter: 0 }
    }

    /// Issues the next identifier, one past the previous one.
    pub fn next_id(&mut self) -> (id: u32)
        requires
            old(self).issued() < u32::MAX,
        ensures
            final(self).issued() == old(self).issued() + 1,
            id == old(self).issued() + 1,
    {
        self.counter = self.counter + 1;
        self.counter
    }
}

/// An agent as the scheduler holds it: the caller's agent plus its assigned
/// identity and its repeat flag.
#[derive(Clone)]
pub struct AgentImpl<A: Agent + Clone> {
    pub id: u32,
    pub agent: A,
    pub repeating: bool,
}

impl<A: Agent + Clone> AgentImpl<A> {
    /// Wraps an agent, assigning it the allocator's next identity.
    pub fn new(the_agent: A, ids: &mut IdAllocator) -> (a: AgentImpl<A>)
        requires
            old(ids).issued() < u32::MAX,
        ensures
            a.id == old(ids).issued() + 1,
            a.agent == the_agent,
            a.repeating == false,
            final(ids).issued() == old(ids).issued() + 1,
    {
        let id = ids.next_id();
        AgentImpl { id, agent: the_agent, repeating: false }
    }

    /// Runs the wrapped agent's step.
    pub fn step(self) {
        self.agent.step();
    }

    /// This agent's identity.
    pub fn id(self) -> (id: u32)
        ensures
            id == self.id,
    {
        self.id
    }
}

impl<A: Agent + Clone> PartialEq for AgentImpl<A> {
    /// Agents are compared by identity alone.
    fn eq(&self, other: &AgentImpl<A>) -> (r: bool) {
        self.id == other.id
    }
}

impl<A: Agent + Clone> vstd::std_specs::cmp::PartialEqSpecImpl for AgentImpl<A> {
    open spec fn obeys_eq_spec() -> bool {
        true
    }

    open spec fn eq_spec(&self, other: &AgentImpl<A>) -> bool {
        self.id == other.id
    }
}

impl<A: Agent + Clone> Eq for AgentImpl<A> {

}

} // verus!
