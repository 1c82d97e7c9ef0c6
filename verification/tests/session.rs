use agent_riff_v2::{FleetRiffSession, Quality, ResponseMode, RiffMemory, SurpriseLevel};

// Surprise scores enter the library as the level of the round's running
// total: below 0.2 Flat, up to 0.3 Mild, up to 0.7 Notable, up to 0.8 High,
// above 0.8 Landing.

#[test]
fn fleet_session_multi_round() {
    let mut s = FleetRiffSession::new(vec![0, 1], 1);
    for _ in 0..4 {
        s.new_round();
        // 0.6 so far
        s.riff_with_output(0, Quality::Strong, SurpriseLevel::Notable, 200, 12, vec!["feature"]);
        // 0.6 + 0.7
        s.riff_with_output(1, Quality::Strong, SurpriseLevel::Landing, 250, 15, vec!["better-feature"]);
        s.evaluate();
    }
    let m = s.metrics();
    assert_eq!(m.total_rounds, 4);
    assert_eq!(m.generation, 1);
    assert!(m.total_loc > 0);
    assert!(m.total_tests > 0);
}

#[test]
fn bootstrap_next_generation() {
    let mut s = FleetRiffSession::new(vec![0, 1], 1);
    s.new_round();
    // 0.8
    s.riff(0, Quality::Strong, SurpriseLevel::High);
    s.evaluate();
    s.memory.learn(&s.rounds);

    let gen2 = s.bootstrap_next();
    assert_eq!(gen2.generation, 2);
    assert_eq!(gen2.parent_session_id, Some("gen-1".to_string()));
    // Gen 2 inherits memory from gen 1
    assert_eq!(gen2.memory.total_rounds, 1);
}

#[test]
fn stale_detection() {
    let mut s = FleetRiffSession::new(vec![0, 1], 1);
    for _ in 0..6 {
        s.new_round();
        // 0.05, then 0.1
        s.riff(0, Quality::Weak, SurpriseLevel::Flat);
        s.riff(1, Quality::Weak, SurpriseLevel::Flat);
        s.evaluate();
    }
    assert!(s.finished);
}

#[test]
fn landing_detection() {
    let mut s = FleetRiffSession::new(vec![0, 1], 1);
    s.new_round();
    // 0.9, then 1.75
    s.riff(0, Quality::Strong, SurpriseLevel::Landing);
    s.riff(1, Quality::Strong, SurpriseLevel::Landing);
    let summary = s.evaluate();
    assert!(summary.landed);
}

#[test]
fn metrics_accumulate() {
    let mut s = FleetRiffSession::new(vec![0, 1], 1);
    s.new_round();
    // 0.4, then 1.0
    s.riff_with_output(0, Quality::Okay, SurpriseLevel::Notable, 100, 10, vec!["a", "b"]);
    s.riff_with_output(1, Quality::Strong, SurpriseLevel::Landing, 200, 20, vec!["c", "d", "e"]);
    s.evaluate();
    let m = s.metrics();
    assert_eq!(m.total_loc, 300);
    assert_eq!(m.total_tests, 30);
    assert_eq!(m.total_features, 5);
}

#[test]
fn snowball_three_generations() {
    // Gen 1 -> Gen 2 -> Gen 3, each learning from the previous
    let mut gen1 = FleetRiffSession::new(vec![0, 1], 1);
    gen1.new_round();
    // 0.3, then 0.3 + 0.6
    gen1.riff_with_output(0, Quality::Okay, SurpriseLevel::Mild, 100, 5, vec!["baseline"]);
    gen1.riff_with_output(1, Quality::Strong, SurpriseLevel::Landing, 200, 12, vec!["conservation"]);
    gen1.evaluate();
    gen1.memory.learn(&gen1.rounds);

    let mut gen2 = gen1.bootstrap_next();
    gen2.new_round();
    // 0.7, then 1.5
    gen2.riff_with_output(0, Quality::Strong, SurpriseLevel::Notable, 300, 18, vec!["gpu-packing"]);
    gen2.riff_with_output(1, Quality::Strong, SurpriseLevel::Landing, 400, 25, vec!["entropy", "thread-safe"]);
    gen2.evaluate();
    gen2.memory.learn(&gen2.rounds);

    let gen3 = gen2.bootstrap_next();
    assert_eq!(gen3.generation, 3);
    assert_eq!(gen3.memory.total_rounds, 2); // Learned from both gen1 and gen2
}

#[test]
fn session_basic_is_productive() {
    let mut s = FleetRiffSession::new(vec![0, 1], 1);
    s.new_round();
    // 0.3, then 1.0
    s.riff_with_output(0, Quality::Okay, SurpriseLevel::Mild, 100, 8, vec!["baseline"]);
    s.riff_with_output(1, Quality::Strong, SurpriseLevel::Landing, 300, 20, vec!["gpu-packing", "entropy"]);
    let summary = s.evaluate();
    assert!(summary.productive);
    assert!(summary.landed);
    assert_eq!(summary.mode, ResponseMode::Escalate);
    assert_eq!(s.streak, 1);
    assert_eq!(s.rounds[0].best_agent, 1);
    assert_eq!(s.rounds[0].quality_gap, 1);
}

#[test]
fn memory_learns_rounds() {
    let mut mem = RiffMemory::new();
    let mut s = FleetRiffSession::new(vec![0, 1], 1);
    s.new_round();
    s.riff(0, Quality::Strong, SurpriseLevel::Notable);
    s.evaluate();
    mem.learn(&s.rounds);
    assert_eq!(mem.total_rounds, 1);
    mem.learn(&s.rounds);
    assert_eq!(mem.total_rounds, 2);
    mem.learn(&[]);
    assert_eq!(mem.total_rounds, 2);
}

#[test]
fn recommend_mode_defaults_to_escalate() {
    let mut mem = RiffMemory::default();
    assert_eq!(mem.recommend_mode(0), ResponseMode::Escalate);
    mem.best_modes.insert(7, ResponseMode::Pivot);
    assert_eq!(mem.recommend_mode(7), ResponseMode::Pivot);
    assert_eq!(mem.recommend_mode(8), ResponseMode::Escalate);
    let copy = mem.copy();
    assert_eq!(copy.recommend_mode(7), ResponseMode::Pivot);
}

#[test]
fn riff_without_round_changes_nothing() {
    let mut s = FleetRiffSession::new(vec![0, 1], 1);
    s.riff(0, Quality::Strong, SurpriseLevel::Landing);
    s.riff_with_output(1, Quality::Weak, SurpriseLevel::Flat, 10, 1, vec!["x"]);
    assert!(s.rounds.is_empty());
    assert_eq!(s.current_round, 0);
    let summary = s.evaluate();
    assert!(!summary.productive);
    assert!(!summary.landed);
    assert_eq!(summary.mode, ResponseMode::Escalate);
    assert_eq!(s.streak, 0);
    assert!(!s.finished);
}

#[test]
fn rounds_are_numbered_and_riffs_recorded_in_them() {
    let mut s = FleetRiffSession::new(vec![3, 4], 1);
    let r = s.new_round();
    assert_eq!(r.number, 0);
    assert!(r.riffs.is_empty());
    s.riff(3, Quality::Okay, SurpriseLevel::Mild);
    s.new_round();
    s.new_round();
    s.riff(4, Quality::Weak, SurpriseLevel::Flat);
    assert_eq!(s.current_round, 3);
    assert_eq!(s.rounds.len(), 3);
    assert_eq!(s.rounds[0].riffs[0].round, 0);
    assert_eq!(s.rounds[0].riffs[0].agent_id, 3);
    assert!(s.rounds[1].riffs.is_empty());
    assert_eq!(s.rounds[2].number, 2);
    assert_eq!(s.rounds[2].riffs[0].round, 2);
    assert_eq!(s.rounds[2].riffs[0].loc, 0);
}

#[test]
fn best_agent_is_last_of_greatest_quality() {
    let mut s = FleetRiffSession::new(vec![0, 1, 2, 3], 1);
    s.new_round();
    s.riff(0, Quality::Strong, SurpriseLevel::Flat);
    s.riff(1, Quality::Weak, SurpriseLevel::Flat);
    s.riff(2, Quality::Strong, SurpriseLevel::Flat);
    s.riff(3, Quality::Okay, SurpriseLevel::Flat);
    assert_eq!(s.rounds[0].best_agent, 2);
    assert_eq!(s.rounds[0].quality_gap, 2);
    // Differing qualities make the round productive even with flat surprise.
    let summary = s.evaluate();
    assert!(summary.productive);
    assert!(!summary.landed);
    assert_eq!(summary.mode, ResponseMode::Provoked);
}

#[test]
fn landing_needs_a_strong_riff() {
    let mut s = FleetRiffSession::new(vec![0, 1], 1);
    s.new_round();
    s.riff(0, Quality::Okay, SurpriseLevel::Notable);
    s.riff(1, Quality::Okay, SurpriseLevel::Landing);
    let summary = s.evaluate();
    assert!(!summary.landed);
    assert!(summary.productive);
}

#[test]
fn long_streak_pivots_and_stale_session_stays_finished() {
    let mut s = FleetRiffSession::new(vec![0, 1], 1);
    for i in 0..6 {
        s.new_round();
        s.riff(0, Quality::Okay, SurpriseLevel::Notable);
        let summary = s.evaluate();
        assert!(summary.productive);
        assert_eq!(s.streak, i + 1);
    }
    assert_eq!(s.mode, ResponseMode::Pivot);
    assert!(!s.finished);
    s.new_round();
    s.riff(0, Quality::Okay, SurpriseLevel::Mild);
    let summary = s.evaluate();
    assert!(!summary.productive);
    assert_eq!(s.streak, 0);
    assert_eq!(summary.mode, ResponseMode::Invert);
    assert!(s.finished);
    s.new_round();
    s.riff(0, Quality::Okay, SurpriseLevel::High);
    s.evaluate();
    assert_eq!(s.streak, 1);
    assert!(s.finished);
}

#[test]
fn bootstrap_labels_and_resets() {
    let mut s = FleetRiffSession::new(vec![5, 6, 7], 0);
    s.new_round();
    s.riff(5, Quality::Strong, SurpriseLevel::Landing);
    s.evaluate();
    s.memory.best_modes.insert(5, ResponseMode::Invert);
    let next = s.bootstrap_next();
    assert_eq!(next.parent_session_id, Some("gen-0".to_string()));
    assert_eq!(next.agents, vec![5, 6, 7]);
    assert!(next.rounds.is_empty());
    assert_eq!(next.current_round, 0);
    assert_eq!(next.streak, 0);
    assert_eq!(next.mode, ResponseMode::Escalate);
    assert!(!next.finished);
    assert_eq!(next.memory.recommend_mode(5), ResponseMode::Invert);

    let far = FleetRiffSession::new(vec![], 4_294_967_294).bootstrap_next();
    assert_eq!(far.generation, u32::MAX);
    assert_eq!(far.parent_session_id, Some("gen-4294967294".to_string()));
    let mid = FleetRiffSession::new(vec![], 1090).bootstrap_next();
    assert_eq!(mid.parent_session_id, Some("gen-1090".to_string()));
}

#[test]
fn metrics_count_productive_rounds() {
    let mut s = FleetRiffSession::new(vec![0, 1], 2);
    s.new_round();
    s.riff_with_output(0, Quality::Okay, SurpriseLevel::Mild, 7, 1, vec![]);
    s.evaluate();
    s.new_round();
    s.riff_with_output(1, Quality::Okay, SurpriseLevel::High, 3, 2, vec!["f"]);
    s.evaluate();
    s.new_round();
    let m = s.metrics();
    assert_eq!(m.generation, 2);
    assert_eq!(m.total_rounds, 3);
    assert_eq!(m.productive_rounds, 1);
    assert_eq!(m.total_loc, 10);
    assert_eq!(m.total_tests, 3);
    assert_eq!(m.total_features, 1);
    assert_eq!(m.streak, 1);
}

#[test]
fn fleet_session_basic() {
    let mut s = FleetRiffSession::new(vec![0, 1], 1);
    s.new_round();
    // 0.3, then 0.3 + 0.7
    s.riff_with_output(0, Quality::Okay, SurpriseLevel::Mild, 100, 8, vec!["baseline"]);
    s.riff_with_output(1, Quality::Strong, SurpriseLevel::Landing, 300, 20, vec!["gpu-packing", "entropy"]);
    let summary = s.evaluate();
    assert!(summary.productive);
    // The best productivity is real-valued and computed outside the library;
    // it is positive because some riff has both lines and tests (and a
    // surprise above -0.5).
    assert!(s.rounds[0].riffs.iter().any(|r| r.loc * r.tests > 0));
}

#[test]
fn riff_memory_learns() {
    let mut mem = RiffMemory::new();
    let mut s = FleetRiffSession::new(vec![0, 1], 1);
    s.new_round();
    // 0.7
    s.riff(0, Quality::Strong, SurpriseLevel::Notable);
    s.evaluate();
    mem.learn(&s.rounds);
    assert_eq!(mem.total_rounds, 1);
    // The total surprise is real-valued and added outside the library; the
    // round it learned from has a total above 0.3, so it is positive.
    assert!(s.rounds[0].surprise.is_productive());
}

#[test]
fn bootstrapped_sessions_are_independent() {
    let mut parent = FleetRiffSession::new(vec![0, 1], 1);
    parent.new_round();
    parent.riff(0, Quality::Strong, SurpriseLevel::High);
    parent.evaluate();
    parent.memory.learn(&parent.rounds);
    let mut child = parent.bootstrap_next();

    child.new_round();
    child.riff(1, Quality::Weak, SurpriseLevel::Flat);
    child.evaluate();
    child.memory.learn(&child.rounds);
    child.memory.best_modes.insert(1, ResponseMode::Pivot);
    assert_eq!(parent.memory.total_rounds, 1);
    assert_eq!(parent.memory.recommend_mode(1), ResponseMode::Escalate);
    assert_eq!(parent.rounds.len(), 1);
    assert_eq!(parent.streak, 1);

    parent.memory.learn(&parent.rounds);
    parent.new_round();
    assert_eq!(child.memory.total_rounds, 2);
    assert_eq!(child.rounds.len(), 1);
    assert_eq!(child.current_round, 1);
}

#[test]
fn learning_in_two_steps_equals_learning_joined() {
    let mut s = FleetRiffSession::new(vec![0], 1);
    for _ in 0..3 {
        s.new_round();
    }
    let mut one = RiffMemory::new();
    one.learn(&s.rounds[..1]);
    one.learn(&s.rounds[1..]);
    let mut joined = RiffMemory::new();
    joined.learn(&s.rounds);
    assert_eq!(one.total_rounds, joined.total_rounds);
    joined.learn(&[]);
    assert_eq!(joined.total_rounds, 3);
}
