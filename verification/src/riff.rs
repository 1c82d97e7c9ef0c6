//! Single riffs and the rounds that collect them.

use vstd::prelude::*;

use crate::quality::{quality_value, Quality, SurpriseLevel};

verus! {

broadcast use vstd::string::group_string_axioms;

/// The text of each of a sequence of borrowed strings.
pub open spec fn str_texts(v: Seq<&str>) -> Seq<Seq<char>> {
    v.map_values(|s: &str| s@)
}

/// The text of each of a sequence of owned strings.
pub open spec fn string_texts(v: Seq<String>) -> Seq<Seq<char>> {
    v.map_values(|s: String| s@)
}

/// Owned copies of borrowed strings, in order.
pub fn owned_strings(features: &Vec<&str>) -> (out: Vec<String>)
    ensures
        string_texts(out@) == str_texts(features@),
{
    let mut out: Vec<String> = Vec::new();
    let mut i: usize = 0;
    while i < features.len()
        invariant
            i <= features@.len(),
            out@.len() == i,
            forall|j: int| 0 <= j < i ==> #[trigger] out@[j]@ == features@[j]@,
        decreases features@.len() - i,
    {
        let s: String = features[i].to_string();
        out.push(s);
        i = i + 1;
    }
    assert(string_texts(out@) =~= str_texts(features@));
    out
}

/// A single riff output.
#[derive(Debug, Clone)]
pub struct Riff {
    pub agent_id: u32,
    pub round: u32,
    pub quality: Quality,
    /// Lines of code produced.
    pub loc: usize,
    /// Tests produced.
    pub tests: usize,
    /// Named features added.
    pub features: Vec<String>,
}

impl Riff {
    /// A riff with no output yet.
    pub fn new(agent_id: u32, round: u32, quality: Quality) -> (r: Self)
        ensures
            r.agent_id == agent_id,
            r.round == round,
            r.quality == quality,
            r.loc == 0,
            r.tests == 0,
            r.features@.len() == 0,
    {
        Riff { agent_id, round, quality, loc: 0, tests: 0, features: Vec::new() }
    }

    /// Records the riff's output: lines of code, tests and named features.
    pub fn with_output(&mut self, loc: usize, tests: usize, features: Vec<&str>)
        ensures
            final(self).loc == loc,
            final(self).tests == tests,
            string_texts(final(self).features@) == str_texts(features@),
            final(self).agent_id == old(self).agent_id,
            final(self).round == old(self).round,
            final(self).quality == old(self).quality,
    {
        self.loc = loc;
        self.tests = tests;
        self.features = owned_strings(&features);
    }
}

/// The index of the last riff of greatest quality (0 when there is none).
pub open spec fn best_index(riffs: Seq<Riff>) -> int
    decreases riffs.len(),
{
    if riffs.len() <= 1 {
        0
    } else {
        let k = best_index(riffs.drop_last());
        if quality_value(riffs.last().quality) >= quality_value(riffs[k].quality) {
            riffs.len() - 1
        } else {
            k
        }
    }
}

/// The index of the first riff of least quality (0 when there is none).
pub open spec fn worst_index(riffs: Seq<Riff>) -> int
    decreases riffs.len(),
{
    if riffs.len() <= 1 {
        0
    } else {
        let k = worst_index(riffs.drop_last());
        if quality_value(riffs.last().quality) < quality_value(riffs[k].quality) {
            riffs.len() - 1
        } else {
            k
        }
    }
}

/// `best_index` picks the last riff of greatest quality and `worst_index`
/// the first riff of least quality.
pub proof fn lemma_best_and_worst(riffs: Seq<Riff>)
    requires
        riffs.len() > 0,
    ensures
        0 <= best_index(riffs) < riffs.len(),
        0 <= worst_index(riffs) < riffs.len(),
        forall|j: int|
            0 <= j < riffs.len() ==> quality_value(#[trigger] riffs[j].quality) <= quality_value(
                riffs[best_index(riffs)].quality,
            ),
        forall|j: int|
            best_index(riffs) < j < riffs.len() ==> quality_value(#[trigger] riffs[j].quality)
                < quality_value(riffs[best_index(riffs)].quality),
        forall|j: int|
            0 <= j < riffs.len() ==> quality_value(#[trigger] riffs[j].quality) >= quality_value(
                riffs[worst_index(riffs)].quality,
            ),
        forall|j: int|
            0 <= j < worst_index(riffs) ==> quality_value(#[trigger] riffs[j].quality)
                > quality_value(riffs[worst_index(riffs)].quality),
    decreases riffs.len(),
{
    if riffs.len() > 1 {
        let prefix = riffs.drop_last();
        lemma_best_and_worst(prefix);
        let n = riffs.len() - 1;
        let b = best_index(riffs);
        let w = worst_index(riffs);
        assert forall|j: int| 0 <= j < riffs.len() implies quality_value(
            #[trigger] riffs[j].quality,
        ) <= quality_value(riffs[b].quality) by {
            if j < n {
                assert(prefix[j] == riffs[j]);
            }
        }
        assert forall|j: int| b < j < riffs.len() implies quality_value(
            #[trigger] riffs[j].quality,
        ) < quality_value(riffs[b].quality) by {
            if j < n {
                assert(prefix[j] == riffs[j]);
                assert(prefix[best_index(prefix)] == riffs[best_index(prefix)]);
            }
        }
        assert forall|j: int| 0 <= j < riffs.len() implies quality_value(
            #[trigger] riffs[j].quality,
        ) >= quality_value(riffs[w].quality) by {
            if j < n {
                assert(prefix[j] == riffs[j]);
                assert(prefix[worst_index(prefix)] == riffs[worst_index(prefix)]);
            }
        }
        assert forall|j: int| 0 <= j < w implies quality_value(#[trigger] riffs[j].quality)
            > quality_value(riffs[w].quality) by {
            assert(prefix[j] == riffs[j]);
        }
    }
}

/// A round of the riff session.
#[derive(Debug, Clone)]
pub struct Round {
    pub number: u32,
    pub riffs: Vec<Riff>,
    /// The agent of the last riff of greatest quality.
    pub best_agent: u32,
    /// Greatest quality minus least quality among the riffs.
    pub quality_gap: i8,
    /// Where the round's total surprise stands.
    pub surprise: SurpriseLevel,
}

impl Round {
    /// The round is productive: its total surprise is above 0.3, or its
    /// riffs differ in quality.
    pub open spec fn productive(self) -> bool {
        self.surprise.productive() || self.quality_gap > 0
    }

    /// `best_agent` and `quality_gap` agree with the riffs.
    pub open spec fn ranked(self) -> bool {
        self.riffs@.len() > 0 ==> {
            let riffs = self.riffs@;
            &&& self.best_agent == riffs[best_index(riffs)].agent_id
            &&& self.quality_gap == quality_value(riffs[best_index(riffs)].quality)
                - quality_value(riffs[worst_index(riffs)].quality)
        }
    }

    /// An empty round; its total surprise is zero, which is flat.
    pub fn new(number: u32) -> (r: Self)
        ensures
            r.number == number,
            r.riffs@.len() == 0,
            r.best_agent == 0,
            r.quality_gap == 0,
            r.surprise == SurpriseLevel::Flat,
            r.ranked(),
    {
        Round {
            number,
            riffs: Vec::new(),
            best_agent: 0,
            quality_gap: 0,
            surprise: SurpriseLevel::Flat,
        }
    }

    /// Appends a riff; `surprise` is the level of the round's total surprise
    /// with this riff counted.
    pub fn add(&mut self, riff: Riff, surprise: SurpriseLevel)
        ensures
            final(self).riffs@ == old(self).riffs@.push(riff),
            final(self).number == old(self).number,
            final(self).surprise == surprise,
            final(self).ranked(),
    {
        self.surprise = surprise;
        self.riffs.push(riff);
        self.recalc();
    }

    /// Recomputes the best agent and the quality gap from the riffs; an
    /// empty round is left as it is.
    pub fn recalc(&mut self)
        ensures
            final(self).riffs@ == old(self).riffs@,
            final(self).number == old(self).number,
            final(self).surprise == old(self).surprise,
            old(self).riffs@.len() == 0 ==> *final(self) == *old(self),
            final(self).ranked(),
    {
        let n = self.riffs.len();
        if n == 0 {
            return;
        }
        let mut best: usize = 0;
        let mut worst: usize = 0;
        let mut i: usize = 1;
        while i < n
            invariant
                n == self.riffs@.len(),
                1 <= i <= n,
                best as int == best_index(self.riffs@.take(i as int)),
                worst as int == worst_index(self.riffs@.take(i as int)),
                best < i,
                worst < i,
            decreases n - i,
        {
            let ghost riffs = self.riffs@;
            proof {
                assert(riffs.take(i + 1).drop_last() =~= riffs.take(i as int));
                lemma_best_and_worst(riffs.take(i as int));
            }
            let q = self.riffs[i].quality.to_i8();
            if q >= self.riffs[best].quality.to_i8() {
                best = i;
            }
            if q < self.riffs[worst].quality.to_i8() {
                worst = i;
            }
            i = i + 1;
        }
        proof {
            assert(self.riffs@.take(n as int) =~= self.riffs@);
        }
        let top = self.riffs[best].quality.to_i8();
        let bottom = self.riffs[worst].quality.to_i8();
        self.best_agent = self.riffs[best].agent_id;
        self.quality_gap = top - bottom;
    }

    /// Whether the round was productive.
    pub fn was_productive(&self) -> (b: bool)
        ensures
            b == self.productive(),
            b == (self.surprise == SurpriseLevel::Notable || self.surprise == SurpriseLevel::High
                || self.surprise == SurpriseLevel::Landing || self.quality_gap > 0),
    {
        self.surprise.is_productive() || self.quality_gap > 0
    }
}

/// In a ranked round with riffs, the gap lies in 0..=2, and it is zero
/// exactly when all riffs have the same quality.
pub proof fn lemma_gap_bounds(round: Round)
    requires
        round.ranked(),
        round.riffs@.len() > 0,
    ensures
        0 <= round.quality_gap <= 2,
        round.quality_gap == 0 <==> forall|i: int, j: int|
            0 <= i < round.riffs@.len() && 0 <= j < round.riffs@.len()
                ==> #[trigger] round.riffs@[i].quality == #[trigger] round.riffs@[j].quality,
{
    let riffs = round.riffs@;
    lemma_best_and_worst(riffs);
    let b = best_index(riffs);
    let w = worst_index(riffs);
    if round.quality_gap != 0 {
        assert(riffs[b].quality != riffs[w].quality);
    } else {
        assert forall|i: int, j: int|
            0 <= i < riffs.len() && 0 <= j < riffs.len() implies #[trigger] riffs[i].quality
            == #[trigger] riffs[j].quality by {
            assert(quality_value(riffs[i].quality) <= quality_value(riffs[b].quality));
            assert(quality_value(riffs[j].quality) >= quality_value(riffs[w].quality));
            assert(quality_value(riffs[i].quality) >= quality_value(riffs[w].quality));
            assert(quality_value(riffs[j].quality) <= quality_value(riffs[b].quality));
        }
    }
}

/// A round is productive exactly when its total surprise is above 0.3
/// (notable, high or landing) or its riffs differ in quality (a positive
/// gap).
pub proof fn lemma_productive_round(round: Round)
    ensures
        round.productive() <==> (round.surprise == SurpriseLevel::Notable || round.surprise
            == SurpriseLevel::High || round.surprise == SurpriseLevel::Landing
            || round.quality_gap > 0),
{
}

/// A ranked round holding two riffs of different quality is productive,
/// whatever its surprise.
pub proof fn lemma_differing_riffs_productive(round: Round, i: int, j: int)
    requires
        round.ranked(),
        0 <= i < round.riffs@.len(),
        0 <= j < round.riffs@.len(),
        round.riffs@[i].quality != round.riffs@[j].quality,
    ensures
        round.quality_gap > 0,
        round.productive(),
{
    lemma_gap_bounds(round);
}

/// A ranked round whose riffs all have the same quality has no gap, so it is
/// productive only through its surprise.
pub proof fn lemma_uniform_riffs_gap(round: Round)
    requires
        round.ranked(),
        round.riffs@.len() > 0,
        forall|i: int| 0 <= i < round.riffs@.len() ==> #[trigger] round.riffs@[i].quality
            == round.riffs@[0].quality,
    ensures
        round.quality_gap == 0,
        round.productive() <==> (round.surprise == SurpriseLevel::Notable || round.surprise
            == SurpriseLevel::High || round.surprise == SurpriseLevel::Landing),
{
    lemma_gap_bounds(round);
    assert forall|i: int, j: int|
        0 <= i < round.riffs@.len() && 0 <= j < round.riffs@.len() implies #[trigger] round.riffs@[i].quality
        == #[trigger] round.riffs@[j].quality by {
        assert(round.riffs@[i].quality == round.riffs@[0].quality);
        assert(round.riffs@[j].quality == round.riffs@[0].quality);
    }
}

/// In a ranked round with riffs, the best agent is the agent of the riff
/// at `best`: a riff of greatest quality after which no riff is as good;
/// and the gap is that quality minus the least quality among the riffs.
pub proof fn lemma_ranked_round(round: Round) -> (best: int)
    requires
        round.ranked(),
        round.riffs@.len() > 0,
    ensures
        0 <= best < round.riffs@.len(),
        round.best_agent == round.riffs@[best].agent_id,
        forall|j: int|
            0 <= j < round.riffs@.len() ==> quality_value(#[trigger] round.riffs@[j].quality)
                <= quality_value(round.riffs@[best].quality),
        forall|j: int|
            best < j < round.riffs@.len() ==> quality_value(#[trigger] round.riffs@[j].quality)
                < quality_value(round.riffs@[best].quality),
        forall|j: int|
            0 <= j < round.riffs@.len() ==> quality_value(round.riffs@[best].quality)
                - round.quality_gap <= quality_value(#[trigger] round.riffs@[j].quality),
        exists|j: int|
            0 <= j < round.riffs@.len() && quality_value(#[trigger] round.riffs@[j].quality)
                == quality_value(round.riffs@[best].quality) - round.quality_gap,
{
    let riffs = round.riffs@;
    lemma_best_and_worst(riffs);
    let w = worst_index(riffs);
    assert(quality_value(riffs[w].quality) == quality_value(riffs[best_index(riffs)].quality)
        - round.quality_gap);
    best_index(riffs)
}

} // verus!
