use zombie_policy_core::model::total_order_key;
use zombie_policy_core::{
    choose_empirical_winner, EvalSummary, GroupedAttentionConfig, MlpConfig, TacticalAction,
    ACTION_COUNT, FEATURE_COUNT, FEATURE_NAMES, PARAMETER_BUDGET, PLAYER_FEATURE_COUNT,
    PLAYER_FEATURE_NAMES,
};

fn summary(mode: &str, death: f32, reward: f32, damage: f32, diversity: f32) -> EvalSummary {
    EvalSummary {
        mode: mode.to_string(),
        player_death_rate: death.to_bits(),
        mean_reward_per_episode: reward.to_bits(),
        mean_player_damage_per_episode: damage.to_bits(),
        action_diversity: diversity.to_bits(),
    }
}

#[test]
fn default_models_stay_under_budget() {
    assert_eq!(MlpConfig::default().parameter_count(), 991);
    assert_eq!(GroupedAttentionConfig::default().parameter_count(), 3677);
    assert!(MlpConfig::default().parameter_count() <= PARAMETER_BUDGET);
    assert!(GroupedAttentionConfig::default().parameter_count() <= PARAMETER_BUDGET);
}

#[test]
fn empirical_winner_uses_reward_after_death_rate() {
    let summaries = [
        summary("Rule", 1.0, 9.83, 144.0, 0.9361),
        summary("Attention", 1.0, 28.77, 135.0, 0.576),
    ];
    let winner = choose_empirical_winner(&summaries).unwrap();
    assert_eq!(winner.mode, "Attention");
}

#[test]
fn empirical_winner_can_still_be_rule() {
    let summaries = [
        summary("Rule", 1.0, 31.0, 144.0, 0.9361),
        summary("Attention", 1.0, 28.77, 135.0, 0.576),
    ];
    let winner = choose_empirical_winner(&summaries).unwrap();
    assert_eq!(winner.mode, "Rule");
}

#[test]
fn readme_model_shapes_have_their_parameter_counts() {
    let mlp = MlpConfig { input_dim: 23, hidden_dim: 275, actions: 5 };
    assert_eq!(mlp.parameter_count(), 7_980);
    let attention = GroupedAttentionConfig {
        input_dim: 23,
        d_model: 40,
        layers: 2,
        query_heads: 4,
        kv_heads: 1,
        actions: 5,
    };
    assert_eq!(attention.parameter_count(), 9_325);
}

#[test]
fn mlp_count_is_two_dense_layers() {
    let mlp = MlpConfig { input_dim: 3, hidden_dim: 4, actions: 2 };
    assert_eq!(mlp.parameter_count(), 4 * 3 + 4 + 2 * 4 + 2);
    let empty = MlpConfig { input_dim: 0, hidden_dim: 0, actions: 0 };
    assert_eq!(empty.parameter_count(), 0);
}

#[test]
fn empty_summaries_have_no_winner() {
    let summaries: [EvalSummary; 0] = [];
    assert!(choose_empirical_winner(&summaries).is_none());
}

#[test]
fn death_rate_decides_first() {
    let summaries = [
        summary("A", 0.5, 100.0, 1000.0, 1.0),
        summary("B", 0.75, -5.0, 0.0, 0.0),
        summary("C", 0.25, 50.0, 50.0, 0.5),
    ];
    assert_eq!(choose_empirical_winner(&summaries).unwrap().mode, "B");
}

#[test]
fn later_metrics_break_ties_in_order() {
    let summaries = [
        summary("A", 1.0, 2.0, 10.0, 0.1),
        summary("B", 1.0, 2.0, 12.0, 0.0),
        summary("C", 1.0, 2.0, 12.0, 0.3),
    ];
    assert_eq!(choose_empirical_winner(&summaries).unwrap().mode, "C");
}

#[test]
fn equal_summaries_pick_the_last() {
    let summaries = [summary("first", 1.0, 2.0, 3.0, 4.0), summary("second", 1.0, 2.0, 3.0, 4.0)];
    assert_eq!(choose_empirical_winner(&summaries).unwrap().mode, "second");
}

#[test]
fn total_order_matches_float_total_cmp() {
    let values = [
        f32::NEG_INFINITY,
        -1.5,
        -0.0,
        0.0,
        1.0e-30,
        2.0,
        f32::INFINITY,
        f32::NAN,
        -f32::NAN,
        f32::MIN_POSITIVE,
    ];
    for a in values {
        for b in values {
            let keys = total_order_key(a.to_bits()).cmp(&total_order_key(b.to_bits()));
            assert_eq!(keys, a.total_cmp(&b), "{a} vs {b}");
        }
    }
    assert!(total_order_key((-0.0f32).to_bits()) < total_order_key(0.0f32.to_bits()));
}

#[test]
fn negative_zero_ranks_below_positive_zero_in_the_winner() {
    let summaries = [summary("pos", 0.0, 0.0, 0.0, 0.0), summary("neg", -0.0, 0.0, 0.0, 0.0)];
    assert_eq!(choose_empirical_winner(&summaries).unwrap().mode, "pos");
}

#[test]
fn feature_and_action_tables_have_their_sizes() {
    assert_eq!(FEATURE_NAMES.len(), FEATURE_COUNT);
    assert_eq!(PLAYER_FEATURE_NAMES.len(), PLAYER_FEATURE_COUNT);
    assert_eq!(TacticalAction::ALL.len(), ACTION_COUNT);
    assert_eq!(TacticalAction::ALL[0], TacticalAction::Attack);
    assert_eq!(TacticalAction::ALL[4], TacticalAction::DashOut);
    assert_eq!(FEATURE_NAMES[0], "is_player_armed");
    assert_eq!(PLAYER_FEATURE_NAMES[14], "dodge_ready");
}

#[test]
fn checked_mlp_count_reports_overflow() {
    let mlp = MlpConfig { input_dim: 23, hidden_dim: 275, actions: 5 };
    assert_eq!(mlp.checked_parameter_count(), Some(7_980));
    let huge = MlpConfig { input_dim: usize::MAX, hidden_dim: 2, actions: 0 };
    assert_eq!(huge.checked_parameter_count(), None);
    let edge = MlpConfig { input_dim: 0, hidden_dim: 0, actions: usize::MAX };
    assert_eq!(edge.checked_parameter_count(), Some(usize::MAX));
}
