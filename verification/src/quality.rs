//! Riff quality, surprise bands and response modes.

use vstd::prelude::*;

verus! {

/// Quality of a riff output.
#[derive(Debug, Clone, Copy, PartialEq, Eq, Structural)]
pub enum Quality {
    Weak,
    Okay,
    Strong,
}

/// The score of a quality: -1, 0 or +1.
pub open spec fn quality_value(q: Quality) -> int {
    match q {
        Quality::Weak => -1,
        Quality::Okay => 0,
        Quality::Strong => 1,
    }
}

impl Quality {
    /// The score of this quality.
    pub fn to_i8(self) -> (v: i8)
        ensures
            v == quality_value(self),
    {
        match self {
            Quality::Weak => -1,
            Quality::Okay => 0,
            Quality::Strong => 1,
        }
    }
}

/// Where a surprise score falls among the thresholds that the session rules
/// compare it with (0.2, 0.3, 0.7 and 0.8). A score that compares false with
/// every threshold (one that is not a number) falls in `Mild`, as it does for
/// the rules.
#[derive(Debug, Clone, Copy, PartialEq, Eq, Structural)]
pub enum SurpriseLevel {
    /// Below 0.2.
    Flat,
    /// From 0.2 up to and including 0.3.
    Mild,
    /// Above 0.3, up to and including 0.7.
    Notable,
    /// Above 0.7, up to and including 0.8.
    High,
    /// Above 0.8.
    Landing,
}

impl SurpriseLevel {
    /// The score is below 0.2: the other agent needs provoking.
    pub open spec fn provokes(self) -> bool {
        self == SurpriseLevel::Flat
    }

    /// The score is above 0.3: enough for a productive round.
    pub open spec fn productive(self) -> bool {
        self == SurpriseLevel::Notable || self == SurpriseLevel::High || self
            == SurpriseLevel::Landing
    }

    /// The score is above 0.7: worth escalating.
    pub open spec fn escalates(self) -> bool {
        self == SurpriseLevel::High || self == SurpriseLevel::Landing
    }

    /// The score is above 0.8: a strong riff with it has landed.
    pub open spec fn lands(self) -> bool {
        self == SurpriseLevel::Landing
    }

    /// Whether the score is above 0.3.
    pub fn is_productive(self) -> (b: bool)
        ensures
            b == self.productive(),
            b == (self == SurpriseLevel::Notable || self == SurpriseLevel::High || self
                == SurpriseLevel::Landing),
    {
        match self {
            SurpriseLevel::Notable | SurpriseLevel::High | SurpriseLevel::Landing => true,
            _ => false,
        }
    }

    /// Whether the score is above 0.8.
    pub fn is_landing(self) -> (b: bool)
        ensures
            b == self.lands(),
            b == (self == SurpriseLevel::Landing),
    {
        match self {
            SurpriseLevel::Landing => true,
            _ => false,
        }
    }
}

/// Response mode: how an agent responds to the previous riff.
#[derive(Debug, Clone, Copy, PartialEq, Eq, Structural)]
pub enum ResponseMode {
    Escalate,
    Pivot,
    Invert,
    Provoked,
}

/// The mode chosen for a surprise level, the current productive streak and
/// the round number: a long streak (above 5) pivots; otherwise a flat score
/// provokes, a high one escalates, and anything else inverts.
pub open spec fn auto_mode(surprise: SurpriseLevel, streak: u32, round: u32) -> ResponseMode {
    if streak > 5 {
        ResponseMode::Pivot
    } else if surprise.provokes() {
        ResponseMode::Provoked
    } else if surprise.escalates() {
        ResponseMode::Escalate
    } else {
        ResponseMode::Invert
    }
}

impl ResponseMode {
    /// Chooses the next response mode.
    pub fn auto(surprise: SurpriseLevel, streak: u32, round: u32) -> (m: Self)
        ensures
            m == auto_mode(surprise, streak, round),
            streak > 5 ==> m == ResponseMode::Pivot,
            streak <= 5 && surprise == SurpriseLevel::Flat ==> m == ResponseMode::Provoked,
            streak <= 5 && (surprise == SurpriseLevel::High || surprise == SurpriseLevel::Landing)
                ==> m == ResponseMode::Escalate,
            streak <= 5 && (surprise == SurpriseLevel::Mild || surprise == SurpriseLevel::Notable)
                ==> m == ResponseMode::Invert,
    {
        if streak > 5 {
            ResponseMode::Pivot
        } else if surprise == SurpriseLevel::Flat {
            ResponseMode::Provoked
        } else if surprise == SurpriseLevel::High || surprise == SurpriseLevel::Landing {
            ResponseMode::Escalate
        } else if round > 8 {
            ResponseMode::Invert
        } else {
            ResponseMode::Invert
        }
    }
}

/// A streak of more than five productive rounds always pivots, whatever the
/// surprise and the round.
pub proof fn lemma_long_streak_pivots(surprise: SurpriseLevel, streak: u32, round: u32)
    requires
        streak > 5,
    ensures
        auto_mode(surprise, streak, round) == ResponseMode::Pivot,
{
}

/// After round 8, a surprise that is neither flat nor high forces inversion
/// unless the streak is long.
pub proof fn lemma_inversion_after_round_eight(surprise: SurpriseLevel, streak: u32, round: u32)
    requires
        streak <= 5,
        round > 8,
        !surprise.provokes(),
        !surprise.escalates(),
    ensures
        auto_mode(surprise, streak, round) == ResponseMode::Invert,
{
}

/// The quality scores are ordered Weak < Okay < Strong and lie in -1..=1.
pub proof fn lemma_quality_order()
    ensures
        quality_value(Quality::Weak) < quality_value(Quality::Okay) < quality_value(Quality::Strong),
        forall|q: Quality| -1 <= #[trigger] quality_value(q) <= 1,
{
}

/// What each surprise level means for the rules, read off the thresholds:
/// only a flat score (below 0.2) provokes; only notable, high and landing
/// scores (above 0.3) are productive; only high and landing scores (above
/// 0.7) escalate; only a landing score (above 0.8) lands. The bands are
/// nested: landing implies escalating implies productive, and a productive
/// score never provokes.
pub proof fn lemma_surprise_thresholds(level: SurpriseLevel)
    ensures
        level.provokes() <==> level == SurpriseLevel::Flat,
        level.productive() <==> (level == SurpriseLevel::Notable || level == SurpriseLevel::High
            || level == SurpriseLevel::Landing),
        level.escalates() <==> (level == SurpriseLevel::High || level == SurpriseLevel::Landing),
        level.lands() <==> level == SurpriseLevel::Landing,
        level.lands() ==> level.escalates(),
        level.escalates() ==> level.productive(),
        level.productive() ==> !level.provokes(),
{
}

/// The mode chosen, case by case: a streak above 5 pivots; otherwise a flat
/// score provokes, a high or landing score escalates, and a mild or notable
/// score inverts. The round number never changes the choice.
pub proof fn lemma_auto_cases(surprise: SurpriseLevel, streak: u32, round: u32, other_round: u32)
    ensures
        streak > 5 ==> auto_mode(surprise, streak, round) == ResponseMode::Pivot,
        streak <= 5 && surprise == SurpriseLevel::Flat ==> auto_mode(surprise, streak, round)
            == ResponseMode::Provoked,
        streak <= 5 && (surprise == SurpriseLevel::High || surprise == SurpriseLevel::Landing)
            ==> auto_mode(surprise, streak, round) == ResponseMode::Escalate,
        streak <= 5 && (surprise == SurpriseLevel::Mild || surprise == SurpriseLevel::Notable)
            ==> auto_mode(surprise, streak, round) == ResponseMode::Invert,
        auto_mode(surprise, streak, round) == auto_mode(surprise, streak, other_round),
{
}

} // verus!
