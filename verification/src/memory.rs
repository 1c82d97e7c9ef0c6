//! Cross-session learning: what a riff session remembers of earlier ones.

use std::collections::HashMap;

use vstd::prelude::*;

use crate::quality::ResponseMode;
use crate::riff::Round;

verus! {

broadcast use vstd::std_specs::hash::group_hash_axioms;

/// Remembers what works across riff sessions.
#[derive(Debug, Clone)]
pub struct RiffMemory {
    /// The best response mode known for each agent.
    pub best_modes: HashMap<u32, ResponseMode>,
    /// How many rounds have been learned from, over all sessions.
    pub total_rounds: u64,
}

/// The mode recommended for an agent: its best known mode, or `Escalate`
/// for an agent with none.
pub open spec fn recommended(best_modes: Map<u32, ResponseMode>, agent_id: u32) -> ResponseMode {
    if best_modes.contains_key(agent_id) {
        best_modes[agent_id]
    } else {
        ResponseMode::Escalate
    }
}

impl RiffMemory {
    /// What a memory holds: the best modes and the number of rounds learned.
    pub open spec fn contents(&self) -> (Map<u32, ResponseMode>, u64) {
        (self.best_modes@, self.total_rounds)
    }

    /// The memory after learning from `n` more rounds.
    pub open spec fn learned(self, n: nat) -> (Map<u32, ResponseMode>, int) {
        (self.best_modes@, self.total_rounds + n)
    }

    /// An empty memory.
    pub fn new() -> (m: Self)
        ensures
            m.best_modes@ == Map::<u32, ResponseMode>::empty(),
            m.total_rounds == 0,
    {
        RiffMemory { best_modes: HashMap::new(), total_rounds: 0 }
    }

    /// Learns from a completed session: every round of it is counted.
    pub fn learn(&mut self, rounds: &[Round])
        requires
            old(self).total_rounds + rounds@.len() <= u64::MAX,
        ensures
            final(self).best_modes@ == old(self).learned(rounds@.len()).0,
            final(self).total_rounds == old(self).learned(rounds@.len()).1,
            final(self).best_modes == old(self).best_modes,
            final(self).total_rounds == old(self).total_rounds + rounds@.len(),
            rounds@.len() == 0 ==> *final(self) == *old(self),
    {
        let n = rounds.len() as u64;
        self.total_rounds = self.total_rounds + n;
    }

    /// Recommends a response mode for an agent from what was learned.
    pub fn recommend_mode(&self, agent_id: u32) -> (m: ResponseMode)
        ensures
            m == recommended(self.best_modes@, agent_id),
    {
        match self.best_modes.get(&agent_id) {
            Some(mode) => *mode,
            None => ResponseMode::Escalate,
        }
    }

    /// A copy of this memory, with the same contents.
    pub fn copy(&self) -> (m: Self)
        ensures
            m.contents() == self.contents(),
    {
        RiffMemory { best_modes: self.best_modes.clone(), total_rounds: self.total_rounds }
    }
}

impl Default for RiffMemory {
    fn default() -> (m: Self)
        ensures
            m.best_modes@ == Map::<u32, ResponseMode>::empty(),
            m.total_rounds == 0,
    {
        RiffMemory::new()
    }
}

/// Learning is additive: learning `a` rounds and then `b` more leaves the
/// memory as learning `a + b` rounds at once.
pub proof fn lemma_learning_accumulates(m: RiffMemory, a: nat, b: nat)
    requires
        m.total_rounds + a <= u64::MAX,
    ensures
        ({
            let once = RiffMemory { best_modes: m.best_modes, total_rounds: m.learned(a).1 as u64 };
            once.learned(b) == m.learned(a + b)
        }),
{
}

/// Learning from two batches of rounds, one after the other, leaves the
/// memory as learning once from the two batches joined; learning from no
/// rounds changes nothing.
pub proof fn lemma_learning_joined_rounds(m: RiffMemory, a: Seq<Round>, b: Seq<Round>)
    requires
        m.total_rounds + a.len() + b.len() <= u64::MAX,
    ensures
        ({
            let after_a = RiffMemory { best_modes: m.best_modes, total_rounds: m.learned(a.len()).1 as u64 };
            after_a.learned(b.len()) == m.learned((a + b).len())
        }),
        m.learned(Seq::<Round>::empty().len()) == (m.contents().0, m.contents().1 as int),
{
}

/// A memory inherited from a parent session learns as the parent's would:
/// what the child learns adds to everything the parent had learned.
pub proof fn lemma_inherited_memory_accumulates(parent: RiffMemory, child: RiffMemory, n: nat)
    requires
        child.contents() == parent.contents(),
    ensures
        child.learned(n) == parent.learned(n),
{
}

/// Learning counts exactly the rounds learned from and keeps the best
/// modes: after `n` more rounds the count is the old count plus `n`.
pub proof fn lemma_learning_counts_rounds(m: RiffMemory, n: nat)
    ensures
        m.learned(n).1 == m.total_rounds + n,
        m.learned(n).0 == m.best_modes@,
        m.learned(n).1 - m.learned(0).1 == n,
{
}

/// A recommendation is the mode stored for the agent: storing a mode for an
/// agent makes it that agent's recommendation and leaves every other agent's
/// as it was, and with nothing stored the recommendation is `Escalate`.
pub proof fn lemma_recommendation_follows_stored_modes(
    best_modes: Map<u32, ResponseMode>,
    agent_id: u32,
    other: u32,
    mode: ResponseMode,
)
    ensures
        recommended(best_modes.insert(agent_id, mode), agent_id) == mode,
        other != agent_id ==> recommended(best_modes.insert(agent_id, mode), other) == recommended(
            best_modes,
            other,
        ),
        recommended(Map::<u32, ResponseMode>::empty(), agent_id) == ResponseMode::Escalate,
        !best_modes.contains_key(agent_id) ==> recommended(best_modes, agent_id)
            == ResponseMode::Escalate,
{
}

} // verus!
