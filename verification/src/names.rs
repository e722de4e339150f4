//! The feature and action names of the policies.
use vstd::prelude::*;

use crate::attention::{PLAYER_ACTION_COUNT, ZOMBIE_ACTION_COUNT};
use crate::model::{ACTION_COUNT, FEATURE_COUNT, PLAYER_FEATURE_COUNT};

verus! {

/// Names of the enemy-side state features, in input order.
pub const FEATURE_NAMES: [&'static str; FEATURE_COUNT] = [
    "is_player_armed",
    "is_player_stamina_less_half",
    "is_player_health_less_half",
    "is_player_stuck",
    "player_stuck_normal_x",
    "player_stuck_normal_y",
    "nearby_zombie_count",
    "dash_ready",
    "attack_ready",
    "nearest_zombie_distance",
    "nearest_zombie_dir_x",
    "nearest_zombie_dir_y",
    "player_speed",
    "swarm_centroid_dir_x",
    "swarm_centroid_dir_y",
    "player_facing_dot_nearest_zombie",
    "nearest_zombie_side_sign",
    "backstab_opportunity",
    "swarm_left_pressure",
    "swarm_right_pressure",
    "swarm_front_pressure",
    "swarm_back_pressure",
    "swarm_spread",
];

/// Names of the player-side (duelist) state features, in input order.
pub const PLAYER_FEATURE_NAMES: [&'static str; PLAYER_FEATURE_COUNT] = [
    "health_ratio",
    "stamina_ratio",
    "is_player_armed",
    "is_player_attacking",
    "nearest_zombie_distance",
    "nearest_zombie_dir_x",
    "nearest_zombie_dir_y",
    "nearest_zombie_attacking",
    "zombie_count",
    "pressure_count",
    "player_speed",
    "player_facing_dot_nearest_zombie",
    "swarm_centroid_dir_x",
    "swarm_centroid_dir_y",
    "dodge_ready",
];

/// Action names of the enemy role.
pub const ZOMBIE_ACTION_NAMES: [&'static str; ACTION_COUNT] = [
    "ATTACK",
    "FLANK_LEFT",
    "FLANK_RIGHT",
    "DASH_IN",
    "DASH_OUT",
];

/// Action names of the player role.
pub const PLAYER_ACTION_NAMES: [&'static str; ACTION_COUNT] = [
    "ATTACK",
    "APPROACH",
    "RETREAT",
    "STRAFE",
    "ROLL",
];

/// The action names of a role: the player's for `player`, the enemy's for
/// any other role.
pub fn action_names_for_role(role: &str) -> (names: &'static [&'static str])
    ensures
        role@ == "player"@ ==> names@ == PLAYER_ACTION_NAMES@,
        role@ != "player"@ ==> names@ == ZOMBIE_ACTION_NAMES@,
{
    if crate::text::str_eq(role, "player") {
        &PLAYER_ACTION_NAMES
    } else {
        &ZOMBIE_ACTION_NAMES
    }
}

/// Zombie action names of the entity decoder.
pub const DECODER_ZOMBIE_ACTIONS: [&'static str; ZOMBIE_ACTION_COUNT] = [
    "PATH_FRONT",
    "PATH_LEFT",
    "PATH_RIGHT",
    "PATH_BACK",
    "DASH_UP",
    "DASH_DOWN",
    "DASH_LEFT",
    "DASH_RIGHT",
];

/// Player action names of the entity decoder.
pub const DECODER_PLAYER_ACTIONS: [&'static str; PLAYER_ACTION_COUNT] = [
    "ROLL_UP",
    "ROLL_DOWN",
    "ROLL_FORWARD",
    "ROLL_BACK",
    "ATTACK_WHILE_MOVE_1_COMBO",
    "ATTACK_WHILE_MOVE_2_COMBOS",
    "MOVE_UP",
    "MOVE_DOWN",
    "MOVE_RIGHT",
    "MOVE_LEFT",
    "HEAL",
    "PATH_FINDING_TO_ZOMBIE_1",
    "PATH_FINDING_TO_ZOMBIE_2",
    "PATH_FINDING_TO_ZOMBIE_3",
    "PATH_FINDING_TO_ZOMBIE_4",
    "PATH_FINDING_TO_ZOMBIE_5",
];

/// The feature list of an input width: the enemy features for
/// `FEATURE_COUNT` inputs, the player features for `PLAYER_FEATURE_COUNT`;
/// any other width is refused and returned as the error.
pub fn feature_names_for_dim(input_dim: usize) -> (r: Result<&'static [&'static str], usize>)
    ensures
        input_dim == FEATURE_COUNT ==> (r matches Ok(names) && names@ == FEATURE_NAMES@),
        input_dim == PLAYER_FEATURE_COUNT ==> (r matches Ok(names) && names@
            == PLAYER_FEATURE_NAMES@),
        input_dim != FEATURE_COUNT && input_dim != PLAYER_FEATURE_COUNT ==> r == Err::<
            &'static [&'static str],
            usize,
        >(input_dim),
{
    if input_dim == FEATURE_COUNT {
        Ok(&FEATURE_NAMES)
    } else if input_dim == PLAYER_FEATURE_COUNT {
        Ok(&PLAYER_FEATURE_NAMES)
    } else {
        Err(input_dim)
    }
}

} // verus!
