use zombie_policy_core::attention::{
    attention_param_count, can_attend, capacity_sweep_configs, check_attention_shape,
    checked_attention_param_count, normalize_kv_heads, DecoderConfig, ShapeError,
    MAX_DECODER_PARAMS, PLAYER_ACTION_COUNT, ZOMBIE_ACTION_COUNT,
};
use zombie_policy_core::GroupedAttentionConfig;

#[test]
fn kv_heads_are_clamped_and_lowered_to_a_divisor() {
    assert_eq!(normalize_kv_heads(1, 4), 1);
    assert_eq!(normalize_kv_heads(2, 4), 2);
    assert_eq!(normalize_kv_heads(3, 4), 2);
    assert_eq!(normalize_kv_heads(0, 4), 1);
    assert_eq!(normalize_kv_heads(9, 4), 4);
    assert_eq!(normalize_kv_heads(5, 6), 3);
    assert_eq!(normalize_kv_heads(4, 7), 1);
    assert_eq!(normalize_kv_heads(3, 0), 1);
}

#[test]
fn normalizing_kv_heads_twice_changes_nothing() {
    for heads in 0..12usize {
        for kv in 0..14usize {
            let once = normalize_kv_heads(kv, heads);
            assert_eq!(normalize_kv_heads(once, heads), once);
            assert!(once >= 1);
            if heads > 0 {
                assert_eq!(heads % once, 0);
            }
        }
    }
}

#[test]
fn trainer_attention_count_matches_the_formula() {
    // 23 inputs, width 40, two layers, four heads, one kv head, five actions
    assert_eq!(attention_param_count(23, 40, 2, 4, 1, 5), 9_325);
    // zero head counts read as one
    assert_eq!(attention_param_count(2, 4, 1, 0, 0, 1), 2 * 4 + 8 + (4 + 32 + 32) + 4 + 4 + 1);
    assert_eq!(checked_attention_param_count(23, 40, 2, 4, 1, 5), Some(9_325));
}

#[test]
fn checked_count_reports_overflow() {
    assert_eq!(checked_attention_param_count(usize::MAX, 2, 0, 1, 1, 0), None);
    assert_eq!(checked_attention_param_count(0, usize::MAX / 2, 1, 1, 1, 0), None);
    assert_eq!(checked_attention_param_count(0, 0, 0, 0, 0, usize::MAX), Some(usize::MAX));
}

#[test]
fn attention_shape_is_checked_before_building() {
    assert_eq!(check_attention_shape(23, 40, 2, 4, 1, 5), Ok((1, 9_325)));
    assert_eq!(check_attention_shape(23, 40, 2, 3, 1, 5), Err(ShapeError::IndivisibleHeads));
    assert_eq!(check_attention_shape(23, 0, 2, 4, 1, 5), Err(ShapeError::IndivisibleHeads));
    assert_eq!(check_attention_shape(23, 40, 2, 0, 1, 5), Err(ShapeError::IndivisibleHeads));
    let count = attention_param_count(23, 64, 2, 4, 1, 5);
    assert!(count > 10_000);
    assert_eq!(
        check_attention_shape(23, 64, 2, 4, 1, 5),
        Err(ShapeError::BudgetExceeded { count })
    );
    // three requested kv heads with four query heads become two
    assert_eq!(
        check_attention_shape(23, 24, 2, 4, 3, 5),
        Ok((2, attention_param_count(23, 24, 2, 4, 2, 5)))
    );
}

#[test]
fn decoder_count_matches_library_count() {
    let decoder = DecoderConfig { d_model: 22, layers: 1, heads: 2, kv_heads: 1 };
    let grouped = GroupedAttentionConfig {
        input_dim: 8,
        d_model: 22,
        layers: 1,
        query_heads: 2,
        kv_heads: 1,
        actions: 8,
    };
    assert_eq!(decoder.params(8), grouped.parameter_count());
    assert_eq!(decoder.params(8), 1_900);
    assert_eq!(decoder.params(16), 2_084);
}

#[test]
fn capacity_sweep_fits_the_decoder_budget() {
    let configs = capacity_sweep_configs();
    assert_eq!(configs.len(), 9);
    assert_eq!(configs[0].0, 1_000);
    assert_eq!(configs[8], (50_000, DecoderConfig { d_model: 136, layers: 1, heads: 4, kv_heads: 1 }));
    for window in configs.windows(2) {
        assert!(window[0].0 < window[1].0);
    }
    for (_, config) in &configs {
        assert_eq!(config.d_model % config.heads, 0);
        assert!(config.params(ZOMBIE_ACTION_COUNT) <= MAX_DECODER_PARAMS);
        assert!(config.params(PLAYER_ACTION_COUNT) <= MAX_DECODER_PARAMS);
    }
    assert_eq!(configs[8].1.params(PLAYER_ACTION_COUNT), 50_064);
}

#[test]
fn causal_mask_of_the_entity_decoder() {
    // prefix of 3 tokens (global + two entities), then action queries
    assert!(can_attend(0, 2, 3));
    assert!(!can_attend(0, 3, 3));
    assert!(can_attend(4, 1, 3));
    assert!(can_attend(4, 3, 3));
    assert!(can_attend(4, 4, 3));
    assert!(!can_attend(4, 5, 3));
    assert!(!can_attend(2, 4, 3));
}

#[test]
fn checked_decoder_count_reports_failure() {
    let decoder = DecoderConfig { d_model: 22, layers: 1, heads: 2, kv_heads: 1 };
    assert_eq!(decoder.checked_params(8), Some(1_900));
    let no_heads = DecoderConfig { d_model: 22, layers: 1, heads: 0, kv_heads: 1 };
    assert_eq!(no_heads.checked_params(8), None);
    let no_kv = DecoderConfig { d_model: 8, layers: 1, heads: 2, kv_heads: 0 };
    assert_eq!(no_kv.checked_params(8), Some(no_kv.params(8)));
    let wide = DecoderConfig { d_model: usize::MAX / 2, layers: 0, heads: 1, kv_heads: 1 };
    assert_eq!(wide.checked_params(8), None);
}
