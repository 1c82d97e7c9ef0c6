//! Fleet-aware riff sessions: rounds of riffs between agents, evaluation,
//! metrics and bootstrapping of the next generation.

use vstd::prelude::*;

use crate::label::{generation_label, session_label};
use crate::memory::RiffMemory;
use crate::quality::{auto_mode, Quality, ResponseMode, SurpriseLevel};
use crate::riff::{owned_strings, str_texts, string_texts, Riff, Round};

verus! {

/// The sum of `f` over a sequence.
pub open spec fn sum_of<T>(s: Seq<T>, f: spec_fn(T) -> nat) -> nat
    decreases s.len(),
{
    if s.len() == 0 {
        0
    } else {
        sum_of(s.drop_last(), f) + f(s.last())
    }
}

/// Lines of code of a riff.
pub open spec fn riff_loc() -> spec_fn(Riff) -> nat {
    |r: Riff| r.loc as nat
}

/// Tests of a riff.
pub open spec fn riff_tests() -> spec_fn(Riff) -> nat {
    |r: Riff| r.tests as nat
}

/// Named features of a riff.
pub open spec fn riff_features() -> spec_fn(Riff) -> nat {
    |r: Riff| r.features@.len()
}

/// Lines of code over all riffs of a round.
pub open spec fn round_loc() -> spec_fn(Round) -> nat {
    |r: Round| sum_of(r.riffs@, riff_loc())
}

/// Tests over all riffs of a round.
pub open spec fn round_tests() -> spec_fn(Round) -> nat {
    |r: Round| sum_of(r.riffs@, riff_tests())
}

/// Named features over all riffs of a round.
pub open spec fn round_features() -> spec_fn(Round) -> nat {
    |r: Round| sum_of(r.riffs@, riff_features())
}

/// 1 for a productive round, 0 otherwise.
pub open spec fn round_productive() -> spec_fn(Round) -> nat {
    |r: Round| if r.productive() { 1nat } else { 0nat }
}

/// Lines of code over all rounds.
pub open spec fn total_loc(rounds: Seq<Round>) -> nat {
    sum_of(rounds, round_loc())
}

/// Tests over all rounds.
pub open spec fn total_tests(rounds: Seq<Round>) -> nat {
    sum_of(rounds, round_tests())
}

/// Named features over all rounds.
pub open spec fn total_features(rounds: Seq<Round>) -> nat {
    sum_of(rounds, round_features())
}

/// The number of productive rounds.
pub open spec fn productive_rounds(rounds: Seq<Round>) -> nat {
    sum_of(rounds, round_productive())
}

/// Some riff is of strong quality.
pub open spec fn has_strong(riffs: Seq<Riff>) -> bool {
    exists|i: int| 0 <= i < riffs.len() && #[trigger] riffs[i].quality == Quality::Strong
}

/// A sum over one more element adds that element.
pub proof fn lemma_sum_step<T>(s: Seq<T>, f: spec_fn(T) -> nat, i: int)
    requires
        0 <= i < s.len(),
    ensures
        sum_of(s.take(i + 1), f) == sum_of(s.take(i), f) + f(s[i]),
{
    assert(s.take(i + 1).drop_last() =~= s.take(i));
}

/// A sum over a prefix is at most the sum over the whole sequence.
pub proof fn lemma_sum_prefix<T>(s: Seq<T>, f: spec_fn(T) -> nat, i: int)
    requires
        0 <= i <= s.len(),
    ensures
        sum_of(s.take(i), f) <= sum_of(s, f),
    decreases s.len() - i,
{
    if i == s.len() {
        assert(s.take(i) =~= s);
    } else {
        lemma_sum_step(s, f, i);
        lemma_sum_prefix(s, f, i + 1);
    }
}

/// What `evaluate` reports on the latest round.
#[derive(Debug, Clone, Copy, PartialEq, Eq, Structural)]
pub struct RoundSummary {
    pub productive: bool,
    pub landed: bool,
    pub mode: ResponseMode,
}

/// Session metrics, including the bootstrap generation.
#[derive(Debug, Clone, Copy, PartialEq, Eq, Structural)]
pub struct SessionMetrics {
    pub generation: u32,
    pub total_rounds: usize,
    pub productive_rounds: usize,
    pub total_loc: usize,
    pub total_tests: usize,
    pub total_features: usize,
    pub streak: u32,
}

/// A fleet-aware riff session: multiple sessions across agents in the fleet.
#[derive(Debug, Clone)]
pub struct FleetRiffSession {
    pub agents: Vec<u32>,
    pub rounds: Vec<Round>,
    pub memory: RiffMemory,
    pub current_round: u32,
    pub mode: ResponseMode,
    pub streak: u32,
    pub finished: bool,
    /// Which bootstrap generation this session is (1, 2, 3, ...).
    pub generation: u32,
    /// The label of the session that created this one.
    pub parent_session_id: Option<String>,
}

/// `r` is a riff of `agent_id` in round `round` with quality `quality`, no
/// lines, no tests and no features.
pub open spec fn blank_riff(r: Riff, agent_id: u32, round: u32, quality: Quality) -> bool {
    &&& r.agent_id == agent_id
    &&& r.round == round
    &&& r.quality == quality
    &&& r.loc == 0
    &&& r.tests == 0
    &&& r.features@.len() == 0
}

/// `after` is `before` with one more riff, the given surprise level, and
/// best agent and quality gap recomputed.
pub open spec fn round_extended(before: Round, after: Round, surprise: SurpriseLevel) -> bool {
    &&& after.riffs@.len() == before.riffs@.len() + 1
    &&& after.riffs@.drop_last() == before.riffs@
    &&& after.number == before.number
    &&& after.surprise == surprise
    &&& after.ranked()
}

/// The round number given to riffs of the current round: one less than the
/// number of rounds started, and 0 before any round.
pub open spec fn riff_round(current_round: u32) -> u32 {
    if current_round == 0 {
        0
    } else {
        (current_round - 1) as u32
    }
}

impl FleetRiffSession {
    /// The session is well formed: the round counter counts the rounds,
    /// round `i` is numbered `i` and its riffs are recorded in round `i`, and
    /// every round's best agent and quality gap agree with its riffs.
    pub open spec fn wf(self) -> bool {
        &&& self.current_round == self.rounds@.len()
        &&& forall|i: int| 0 <= i < self.rounds@.len() ==> #[trigger] self.rounds@[i].number == i
        &&& forall|i: int| 0 <= i < self.rounds@.len() ==> #[trigger] self.rounds@[i].ranked()
        &&& forall|i: int, j: int|
            0 <= i < self.rounds@.len() && 0 <= j < self.rounds@[i].riffs@.len()
                ==> #[trigger] self.rounds@[i].riffs@[j].round == i
    }

    /// Everything but the rounds is as in `other`.
    pub open spec fn same_but_rounds(self, other: Self) -> bool {
        &&& self.agents == other.agents
        &&& self.memory == other.memory
        &&& self.current_round == other.current_round
        &&& self.mode == other.mode
        &&& self.streak == other.streak
        &&& self.finished == other.finished
        &&& self.generation == other.generation
        &&& self.parent_session_id == other.parent_session_id
    }

    /// `after` is `before` with the last round replaced by a round that
    /// extends it with `riff`'s record and the surprise level; with no round
    /// yet, nothing changes.
    pub open spec fn riff_added(before: Self, after: Self, surprise: SurpriseLevel) -> bool {
        &&& after.same_but_rounds(before)
        &&& after.rounds@.len() == before.rounds@.len()
        &&& before.rounds@.len() == 0 ==> after == before
        &&& before.rounds@.len() > 0 ==> {
            let k = before.rounds@.len() - 1;
            &&& after.rounds@.take(k) == before.rounds@.take(k)
            &&& round_extended(before.rounds@[k], after.rounds@[k], surprise)
        }
    }

    /// A session at the given generation, with no rounds and an empty memory.
    pub fn new(agents: Vec<u32>, generation: u32) -> (s: Self)
        ensures
            s.agents@ == agents@,
            s.rounds@.len() == 0,
            s.memory.best_modes@ == Map::<u32, ResponseMode>::empty(),
            s.memory.total_rounds == 0,
            s.current_round == 0,
            s.mode == ResponseMode::Escalate,
            s.streak == 0,
            !s.finished,
            s.generation == generation,
            s.parent_session_id is None,
            s.wf(),
    {
        FleetRiffSession {
            agents,
            rounds: Vec::new(),
            memory: RiffMemory::new(),
            current_round: 0,
            mode: ResponseMode::Escalate,
            streak: 0,
            finished: false,
            generation,
            parent_session_id: None,
        }
    }

    /// Starts a new round, numbered with the current round counter, and
    /// hands it out.
    pub fn new_round(&mut self) -> (r: &mut Round)
        requires
            old(self).current_round < u32::MAX,
        ensures
            r.number == old(self).current_round,
            r.riffs@.len() == 0,
            r.best_agent == 0,
            r.quality_gap == 0,
            r.surprise == SurpriseLevel::Flat,
            final(self).rounds@ == old(self).rounds@.push(*final(r)),
            final(self).current_round == old(self).current_round + 1,
            final(self).agents == old(self).agents,
            final(self).memory == old(self).memory,
            final(self).mode == old(self).mode,
            final(self).streak == old(self).streak,
            final(self).finished == old(self).finished,
            final(self).generation == old(self).generation,
            final(self).parent_session_id == old(self).parent_session_id,
            old(self).wf() && *final(r) == *r ==> final(self).wf(),
    {
        let round = Round::new(self.current_round);
        self.rounds.push(round);
        self.current_round = self.current_round + 1;
        let last = self.rounds.len() - 1;
        &mut self.rounds[last]
    }

    /// Adds a riff to the latest round, if there is one.
    fn add_to_last_round(&mut self, riff: Riff, surprise: SurpriseLevel)
        ensures
            Self::riff_added(*old(self), *final(self), surprise),
            old(self).rounds@.len() > 0 ==> final(self).rounds@[old(self).rounds@.len()
                - 1].riffs@.last() == riff,
    {
        let n = self.rounds.len();
        if n > 0 {
            let ghost before = self.rounds@;
            self.rounds[n - 1].add(riff, surprise);
            proof {
                assert(self.rounds@.take(n - 1) =~= before.take(n - 1));
                assert(self.rounds@[n - 1].riffs@.drop_last() =~= before[n - 1].riffs@);
            }
        }
    }

    /// Adds a riff of `agent_id` with the given quality to the latest round;
    /// `surprise` is the level of that round's total surprise with this
    /// riff counted. Without a round, nothing changes.
    pub fn riff(&mut self, agent_id: u32, quality: Quality, surprise: SurpriseLevel)
        ensures
            Self::riff_added(*old(self), *final(self), surprise),
            old(self).rounds@.len() > 0 ==> blank_riff(
                final(self).rounds@[old(self).rounds@.len() - 1].riffs@.last(),
                agent_id,
                riff_round(old(self).current_round),
                quality,
            ),
            old(self).wf() ==> final(self).wf(),
    {
        let riff = Riff::new(agent_id, self.current_round.saturating_sub(1), quality);
        self.add_to_last_round(riff, surprise);
        proof {
            if old(self).wf() {
                lemma_riff_keeps_wf(*old(self), *self, surprise);
            }
        }
    }

    /// As `riff`, with the lines of code, tests and named features of the
    /// output recorded.
    pub fn riff_with_output(
        &mut self,
        agent_id: u32,
        quality: Quality,
        surprise: SurpriseLevel,
        loc: usize,
        tests: usize,
        features: Vec<&str>,
    )
        ensures
            Self::riff_added(*old(self), *final(self), surprise),
            old(self).rounds@.len() > 0 ==> {
                let r = final(self).rounds@[old(self).rounds@.len() - 1].riffs@.last();
                &&& r.agent_id == agent_id
                &&& r.round == riff_round(old(self).current_round)
                &&& r.quality == quality
                &&& r.loc == loc
                &&& r.tests == tests
                &&& string_texts(r.features@) == str_texts(features@)
            },
            old(self).wf() ==> final(self).wf(),
    {
        let mut riff = Riff::new(agent_id, self.current_round.saturating_sub(1), quality);
        riff.loc = loc;
        riff.tests = tests;
        riff.features = owned_strings(&features);
        self.add_to_last_round(riff, surprise);
        proof {
            if old(self).wf() {
                lemma_riff_keeps_wf(*old(self), *self, surprise);
            }
        }
    }

    /// Evaluates the latest round: counts the productive streak, picks the
    /// next mode, marks the session finished when it has gone stale (no
    /// streak after round 5), and reports whether the round was productive
    /// and whether it landed (surprise above 0.8 with a strong riff).
    /// Without a round, nothing changes and the summary reports an
    /// unproductive, unlanded round with the current mode.
    pub fn evaluate(&mut self) -> (summary: RoundSummary)
        requires
            old(self).rounds@.len() > 0 && old(self).rounds@.last().productive()
                ==> old(self).streak < u32::MAX,
        ensures
            old(self).rounds@.len() == 0 ==> {
                &&& *final(self) == *old(self)
                &&& summary == RoundSummary {
                    productive: false,
                    landed: false,
                    mode: old(self).mode,
                }
            },
            old(self).rounds@.len() > 0 ==> {
                let last = old(self).rounds@.last();
                &&& summary.productive == last.productive()
                &&& summary.landed == (last.surprise.lands() && has_strong(last.riffs@))
                &&& summary.landed == (last.surprise == SurpriseLevel::Landing && has_strong(
                    last.riffs@,
                ))
                &&& summary.productive == (last.surprise == SurpriseLevel::Notable
                    || last.surprise == SurpriseLevel::High || last.surprise
                    == SurpriseLevel::Landing || last.quality_gap > 0)
                &&& final(self).streak == if summary.productive {
                    old(self).streak + 1
                } else {
                    0
                }
                &&& final(self).mode == auto_mode(
                    last.surprise,
                    final(self).streak,
                    old(self).current_round,
                )
                &&& summary.mode == final(self).mode
                &&& final(self).finished == (old(self).finished || (final(self).streak == 0
                    && old(self).current_round > 5))
                &&& final(self).agents == old(self).agents
                &&& final(self).rounds == old(self).rounds
                &&& final(self).memory == old(self).memory
                &&& final(self).current_round == old(self).current_round
                &&& final(self).generation == old(self).generation
                &&& final(self).parent_session_id == old(self).parent_session_id
            },
            old(self).finished ==> final(self).finished,
            old(self).wf() ==> final(self).wf(),
    {
        let n = self.rounds.len();
        if n == 0 {
            return RoundSummary { productive: false, landed: false, mode: self.mode };
        }
        let surprise = self.rounds[n - 1].surprise;
        let productive = self.rounds[n - 1].was_productive();
        let strong = any_strong(&self.rounds[n - 1].riffs);
        if productive {
            self.streak = self.streak + 1;
        } else {
            self.streak = 0;
        }
        let landed = surprise.is_landing() && strong;
        self.mode = ResponseMode::auto(surprise, self.streak, self.current_round);
        if self.streak == 0 && self.current_round > 5 {
            self.finished = true;
        }
        RoundSummary { productive, landed, mode: self.mode }
    }

    /// Spawns the next generation: a new session of the same agents, one
    /// generation later, with a copy of this session's memory and this
    /// session's label as its parent.
    pub fn bootstrap_next(&self) -> (next: FleetRiffSession)
        requires
            self.generation < u32::MAX,
        ensures
            next.agents@ == self.agents@,
            next.generation == self.generation + 1,
            next.memory.contents() == self.memory.contents(),
            next.parent_session_id is Some,
            next.parent_session_id.unwrap()@ == generation_label(self.generation as nat),
            next.rounds@.len() == 0,
            next.current_round == 0,
            next.mode == ResponseMode::Escalate,
            next.streak == 0,
            !next.finished,
            next.wf(),
    {
        let mut agents: Vec<u32> = Vec::new();
        let mut i: usize = 0;
        while i < self.agents.len()
            invariant
                i <= self.agents@.len(),
                agents@ == self.agents@.take(i as int),
            decreases self.agents@.len() - i,
        {
            agents.push(self.agents[i]);
            i = i + 1;
            proof {
                assert(agents@ =~= self.agents@.take(i as int));
            }
        }
        proof {
            assert(self.agents@.take(self.agents@.len() as int) =~= self.agents@);
        }
        let mut next = FleetRiffSession::new(agents, self.generation + 1);
        next.memory = self.memory.copy();
        next.parent_session_id = Some(session_label(self.generation));
        next
    }

    /// Session metrics: rounds, productive rounds, and the lines of code,
    /// tests and named features over all riffs.
    pub fn metrics(&self) -> (m: SessionMetrics)
        requires
            total_loc(self.rounds@) <= usize::MAX,
            total_tests(self.rounds@) <= usize::MAX,
            total_features(self.rounds@) <= usize::MAX,
        ensures
            m.generation == self.generation,
            m.total_rounds == self.rounds@.len(),
            m.productive_rounds == productive_rounds(self.rounds@),
            m.total_loc == total_loc(self.rounds@),
            m.total_tests == total_tests(self.rounds@),
            m.total_features == total_features(self.rounds@),
            m.streak == self.streak,
    {
        let rounds = &self.rounds;
        let n = rounds.len();
        let ghost fl = riff_loc();
        let ghost ft = riff_tests();
        let ghost ff = riff_features();
        let ghost gl = round_loc();
        let ghost gt = round_tests();
        let ghost gf = round_features();
        let ghost gp = round_productive();
        let mut productive: usize = 0;
        let mut loc: usize = 0;
        let mut tests: usize = 0;
        let mut features: usize = 0;
        let mut i: usize = 0;
        while i < n
            invariant
                n == rounds@.len(),
                i <= n,
                productive == sum_of(rounds@.take(i as int), gp),
                productive <= i,
                loc == sum_of(rounds@.take(i as int), gl),
                tests == sum_of(rounds@.take(i as int), gt),
                features == sum_of(rounds@.take(i as int), gf),
                sum_of(rounds@, gl) <= usize::MAX,
                sum_of(rounds@, gt) <= usize::MAX,
                sum_of(rounds@, gf) <= usize::MAX,
                gl == round_loc(),
                gt == round_tests(),
                gf == round_features(),
                gp == round_productive(),
                fl == riff_loc(),
                ft == riff_tests(),
                ff == riff_features(),
            decreases n - i,
        {
            let round = &rounds[i];
            proof {
                lemma_sum_step(rounds@, gp, i as int);
                lemma_sum_step(rounds@, gl, i as int);
                lemma_sum_step(rounds@, gt, i as int);
                lemma_sum_step(rounds@, gf, i as int);
                lemma_sum_prefix(rounds@, gl, i + 1);
                lemma_sum_prefix(rounds@, gt, i + 1);
                lemma_sum_prefix(rounds@, gf, i + 1);
            }
            if round.was_productive() {
                productive = productive + 1;
            }
            let riffs = &round.riffs;
            let m = riffs.len();
            let ghost loc0 = loc as nat;
            let ghost tests0 = tests as nat;
            let ghost features0 = features as nat;
            let mut j: usize = 0;
            while j < m
                invariant
                    m == riffs@.len(),
                    j <= m,
                    loc == loc0 + sum_of(riffs@.take(j as int), fl),
                    tests == tests0 + sum_of(riffs@.take(j as int), ft),
                    features == features0 + sum_of(riffs@.take(j as int), ff),
                    loc0 + sum_of(riffs@, fl) <= usize::MAX,
                    tests0 + sum_of(riffs@, ft) <= usize::MAX,
                    features0 + sum_of(riffs@, ff) <= usize::MAX,
                    fl == riff_loc(),
                    ft == riff_tests(),
                    ff == riff_features(),
                decreases m - j,
            {
                proof {
                    lemma_sum_step(riffs@, fl, j as int);
                    lemma_sum_step(riffs@, ft, j as int);
                    lemma_sum_step(riffs@, ff, j as int);
                    lemma_sum_prefix(riffs@, fl, j + 1);
                    lemma_sum_prefix(riffs@, ft, j + 1);
                    lemma_sum_prefix(riffs@, ff, j + 1);
                }
                loc = loc + riffs[j].loc;
                tests = tests + riffs[j].tests;
                features = features + riffs[j].features.len();
                j = j + 1;
            }
            proof {
                assert(riffs@.take(m as int) =~= riffs@);
            }
            i = i + 1;
        }
        proof {
            assert(rounds@.take(n as int) =~= rounds@);
        }
        SessionMetrics {
            generation: self.generation,
            total_rounds: n,
            productive_rounds: productive,
            total_loc: loc,
            total_tests: tests,
            total_features: features,
            streak: self.streak,
        }
    }
}

/// The totals of `metrics`, round by round: with no rounds every total is
/// zero; one more round adds one to the productive count exactly when the
/// round is productive, and adds its riffs' lines, tests and feature counts.
pub proof fn lemma_totals_per_round(rounds: Seq<Round>, round: Round)
    ensures
        total_loc(Seq::<Round>::empty()) == 0,
        total_tests(Seq::<Round>::empty()) == 0,
        total_features(Seq::<Round>::empty()) == 0,
        productive_rounds(Seq::<Round>::empty()) == 0,
        productive_rounds(rounds.push(round)) == productive_rounds(rounds) + if round.productive() {
            1nat
        } else {
            0nat
        },
        total_loc(rounds.push(round)) == total_loc(rounds) + sum_of(round.riffs@, riff_loc()),
        total_tests(rounds.push(round)) == total_tests(rounds) + sum_of(round.riffs@, riff_tests()),
        total_features(rounds.push(round)) == total_features(rounds) + sum_of(
            round.riffs@,
            riff_features(),
        ),
        productive_rounds(rounds) <= rounds.len(),
    decreases rounds.len(),
{
    assert(rounds.push(round).drop_last() =~= rounds);
    if rounds.len() > 0 {
        lemma_totals_per_round(rounds.drop_last(), rounds.last());
        assert(rounds.drop_last().push(rounds.last()) =~= rounds);
    }
}

/// The per-round totals, riff by riff: with no riffs they are zero; one
/// more riff adds its lines of code, its tests and its number of features.
pub proof fn lemma_totals_per_riff(riffs: Seq<Riff>, riff: Riff)
    ensures
        sum_of(Seq::<Riff>::empty(), riff_loc()) == 0,
        sum_of(Seq::<Riff>::empty(), riff_tests()) == 0,
        sum_of(Seq::<Riff>::empty(), riff_features()) == 0,
        sum_of(riffs.push(riff), riff_loc()) == sum_of(riffs, riff_loc()) + riff.loc,
        sum_of(riffs.push(riff), riff_tests()) == sum_of(riffs, riff_tests()) + riff.tests,
        sum_of(riffs.push(riff), riff_features()) == sum_of(riffs, riff_features())
            + riff.features@.len(),
{
    assert(riffs.push(riff).drop_last() =~= riffs);
}

/// Riffs are recorded in the round before the counter: the counter minus
/// one, or 0 before any round.
pub proof fn lemma_riff_round(current_round: u32)
    ensures
        current_round > 0 ==> riff_round(current_round) + 1 == current_round,
        current_round == 0 ==> riff_round(current_round) == 0,
{
}

/// A round has a strong riff exactly when one of its riffs is strong;
/// adding a strong riff makes it so, and adding another keeps what was.
pub proof fn lemma_has_strong(riffs: Seq<Riff>, riff: Riff)
    ensures
        !has_strong(Seq::<Riff>::empty()),
        has_strong(riffs.push(riff)) <==> (has_strong(riffs) || riff.quality == Quality::Strong),
{
    let p = riffs.push(riff);
    if has_strong(riffs) {
        let i = choose|i: int| 0 <= i < riffs.len() && #[trigger] riffs[i].quality == Quality::Strong;
        assert(p[i] == riffs[i]);
    }
    if riff.quality == Quality::Strong {
        assert(p[riffs.len() as int] == riff);
    }
    if has_strong(p) {
        let i = choose|i: int| 0 <= i < p.len() && #[trigger] p[i].quality == Quality::Strong;
        if i < riffs.len() {
            assert(p[i] == riffs[i]);
        }
    }
}

/// Adding a riff recorded in the latest round keeps a session well formed.
proof fn lemma_riff_keeps_wf(before: FleetRiffSession, after: FleetRiffSession, surprise: SurpriseLevel)
    requires
        before.wf(),
        FleetRiffSession::riff_added(before, after, surprise),
        before.rounds@.len() > 0 ==> after.rounds@[before.rounds@.len() - 1].riffs@.last().round
            == riff_round(before.current_round),
    ensures
        after.wf(),
{
    let n = before.rounds@.len();
    if n > 0 {
        let k = n - 1;
        assert forall|i: int| 0 <= i < k implies #[trigger] after.rounds@[i] == before.rounds@[i] by {
            assert(after.rounds@.take(k)[i] == before.rounds@.take(k)[i]);
        }
        assert forall|i: int, j: int|
            0 <= i < n && 0 <= j < after.rounds@[i].riffs@.len() implies #[trigger] after.rounds@[i].riffs@[j].round
            == i by {
            if i == k && j < before.rounds@[k].riffs@.len() {
                assert(after.rounds@[k].riffs@.drop_last()[j] == after.rounds@[k].riffs@[j]);
            }
        }
    }
}

/// Whether some riff is of strong quality.
fn any_strong(riffs: &Vec<Riff>) -> (b: bool)
    ensures
        b == has_strong(riffs@),
{
    let mut i: usize = 0;
    while i < riffs.len()
        invariant
            i <= riffs@.len(),
            forall|j: int| 0 <= j < i ==> #[trigger] riffs@[j].quality != Quality::Strong,
        decreases riffs@.len() - i,
    {
        if riffs[i].quality == Quality::Strong {
            return true;
        }
        i = i + 1;
    }
    false
}

} // verus!
