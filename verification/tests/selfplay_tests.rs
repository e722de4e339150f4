use zombie_policy_core::selfplay::{
    role_path_action, sanitize_player_action, sanitize_zombie_actions, weight_bits, Rng,
    Z_DASH_LEFT, Z_DASH_RIGHT, Z_DASH_UP, Z_PATH_BACK, Z_PATH_FRONT, Z_PATH_LEFT, Z_PATH_RIGHT,
};

fn reference_mix(mut x: u64) -> u64 {
    x ^= x >> 30;
    x = x.wrapping_mul(0xBF58476D1CE4E5B9);
    x ^= x >> 27;
    x = x.wrapping_mul(0x94D049BB133111EB);
    x ^ (x >> 31)
}

#[test]
fn slots_take_front_left_right_back_in_turn() {
    assert_eq!(role_path_action(0), Z_PATH_FRONT);
    assert_eq!(role_path_action(1), Z_PATH_LEFT);
    assert_eq!(role_path_action(2), Z_PATH_RIGHT);
    assert_eq!(role_path_action(3), Z_PATH_BACK);
    assert_eq!(role_path_action(4), Z_PATH_FRONT);
    assert_eq!(role_path_action(7), Z_PATH_BACK);
}

#[test]
fn player_path_actions_target_live_slots() {
    assert_eq!(sanitize_player_action(13, 2), 12);
    assert_eq!(sanitize_player_action(12, 2), 12);
    assert_eq!(sanitize_player_action(15, 5), 15);
    assert_eq!(sanitize_player_action(15, 1), 11);
    assert_eq!(sanitize_player_action(14, 0), 11);
    assert_eq!(sanitize_player_action(4, 0), 4);
    assert_eq!(sanitize_player_action(16, 0), 16);
    for action in 0..20usize {
        for live in 1..6usize {
            let once = sanitize_player_action(action, live);
            assert_eq!(sanitize_player_action(once, live), once);
            if (11..=15).contains(&action) {
                assert!(once - 11 < live);
            }
        }
    }
}

#[test]
fn cooling_dashes_become_role_paths() {
    let mut actions = vec![Z_DASH_UP, Z_DASH_LEFT, Z_PATH_BACK, Z_DASH_RIGHT, Z_DASH_UP];
    sanitize_zombie_actions(&mut actions, &[true, false, true, true]);
    assert_eq!(actions, vec![Z_PATH_FRONT, Z_DASH_LEFT, Z_PATH_BACK, Z_PATH_BACK, Z_DASH_UP]);
    let settled = actions.clone();
    sanitize_zombie_actions(&mut actions, &[true, false, true, true]);
    assert_eq!(actions, settled);
}

#[test]
fn rng_follows_its_generator() {
    let seed = 159u64;
    let mut state = seed ^ 0xA5A5_A5A5_5A5A_5A5A;
    let mut rng = Rng::new(seed);
    for _ in 0..20 {
        state = state.wrapping_mul(6364136223846793005).wrapping_add(1442695040888963407);
        assert_eq!(rng.next_u64(), reference_mix(state));
    }
    let mut a = Rng::new(7);
    let mut b = Rng::new(7);
    for _ in 0..10 {
        assert_eq!(a.next_u64(), b.next_u64());
    }
}

#[test]
fn rng_usize_stays_in_range() {
    let mut rng = Rng::new(42);
    let mut copy = Rng::new(42);
    for _ in 0..200 {
        let expected = 1 + (copy.next_u64() as usize % 5);
        let drawn = rng.usize(1, 5);
        assert_eq!(drawn, expected);
        assert!((1..=5).contains(&drawn));
    }
    assert_eq!(rng.usize(3, 3), 3);
}

#[test]
fn weight_bits_hash_the_index() {
    for index in [0u64, 1, 1_000, 70_000, u64::MAX] {
        assert_eq!(weight_bits(index), reference_mix(index.wrapping_add(0x9E37_79B9_7F4A_7C15)));
    }
    assert_ne!(weight_bits(0), weight_bits(1));
}
