use agent_riff_v2::{Quality, ResponseMode, Riff, Round, SurpriseLevel};

#[test]
fn response_mode_auto_v2() {
    // Surprise 0.1 is flat, 0.8 high, 0.5 notable.
    assert_eq!(ResponseMode::auto(SurpriseLevel::Flat, 0, 3), ResponseMode::Provoked);
    assert_eq!(ResponseMode::auto(SurpriseLevel::High, 0, 3), ResponseMode::Escalate);
    assert_eq!(ResponseMode::auto(SurpriseLevel::Notable, 6, 3), ResponseMode::Pivot);
    assert_eq!(ResponseMode::auto(SurpriseLevel::Notable, 0, 9), ResponseMode::Invert); // force inversion
}

#[test]
fn auto_covers_every_level() {
    assert_eq!(ResponseMode::auto(SurpriseLevel::Mild, 5, 0), ResponseMode::Invert);
    assert_eq!(ResponseMode::auto(SurpriseLevel::Landing, 5, 0), ResponseMode::Escalate);
    assert_eq!(ResponseMode::auto(SurpriseLevel::Flat, 6, 0), ResponseMode::Pivot);
    assert_eq!(ResponseMode::auto(SurpriseLevel::Landing, u32::MAX, u32::MAX), ResponseMode::Pivot);
    assert_eq!(ResponseMode::auto(SurpriseLevel::Notable, 0, 2), ResponseMode::Invert);
}

#[test]
fn surprise_level_predicates() {
    assert!(!SurpriseLevel::Flat.is_productive());
    assert!(!SurpriseLevel::Mild.is_productive());
    assert!(SurpriseLevel::Notable.is_productive());
    assert!(SurpriseLevel::High.is_productive());
    assert!(SurpriseLevel::Landing.is_productive());
    assert!(SurpriseLevel::Landing.is_landing());
    assert!(!SurpriseLevel::High.is_landing());
}

#[test]
fn riff_with_output_records_output() {
    let mut r = Riff::new(0, 1, Quality::Strong);
    r.loc = 200;
    r.tests = 15;
    r.with_output(5, 6, vec!["gpu-packing", "entropy"]);
    assert_eq!(r.loc, 5);
    assert_eq!(r.tests, 6);
    assert_eq!(r.features, vec!["gpu-packing".to_string(), "entropy".to_string()]);
    assert_eq!(r.agent_id, 0);
    assert_eq!(r.round, 1);
    assert_eq!(r.quality, Quality::Strong);
}

#[test]
fn riff_productivity() {
    // The productivity score itself is real-valued and computed outside the
    // library; it is positive exactly when the riff has lines and tests
    // (its surprise, 0.8, being above -0.5).
    let mut r = Riff::new(0, 1, Quality::Strong);
    r.loc = 200;
    r.tests = 15;
    r.features = vec!["gpu-packing".to_string()];
    assert!(r.loc * r.tests > 0);
    assert_eq!(r.features.len(), 1);
}

#[test]
fn round_ranks_its_riffs() {
    let mut round = Round::new(4);
    assert_eq!(round.surprise, SurpriseLevel::Flat);
    assert!(!round.was_productive());
    round.recalc();
    assert_eq!(round.best_agent, 0);
    assert_eq!(round.quality_gap, 0);
    round.add(Riff::new(9, 4, Quality::Okay), SurpriseLevel::Mild);
    assert_eq!(round.best_agent, 9);
    assert_eq!(round.quality_gap, 0);
    assert!(!round.was_productive());
    round.add(Riff::new(8, 4, Quality::Weak), SurpriseLevel::Mild);
    assert_eq!(round.best_agent, 9);
    assert_eq!(round.quality_gap, 1);
    assert!(round.was_productive());
    round.add(Riff::new(7, 4, Quality::Okay), SurpriseLevel::Notable);
    assert_eq!(round.best_agent, 7);
    assert_eq!(round.quality_gap, 1);
    assert_eq!(round.number, 4);
    assert_eq!(round.riffs.len(), 3);
}
