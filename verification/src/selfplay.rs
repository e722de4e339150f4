//! The integer decisions of the self-play arena: slot roles, action
//! sanitizing, the seeded random generator and the deterministic weight
//! hash.
use vstd::prelude::*;

verus! {

/// Zombie action: path to the slot in front of the player.
pub const Z_PATH_FRONT: usize = 0;

/// Zombie action: path to the slot left of the player.
pub const Z_PATH_LEFT: usize = 1;

/// Zombie action: path to the slot right of the player.
pub const Z_PATH_RIGHT: usize = 2;

/// Zombie action: path to the slot behind the player.
pub const Z_PATH_BACK: usize = 3;

/// Zombie action: dash up.
pub const Z_DASH_UP: usize = 4;

/// Zombie action: dash down.
pub const Z_DASH_DOWN: usize = 5;

/// Zombie action: dash left.
pub const Z_DASH_LEFT: usize = 6;

/// Zombie action: dash right.
pub const Z_DASH_RIGHT: usize = 7;

/// First player action that paths to a zombie; actions `11..=15` path to the
/// zombie of live slot `action - 11`.
pub const P_PATH_TO_FIRST_ZOMBIE: usize = 11;

/// Last player action that paths to a zombie.
pub const P_PATH_TO_LAST_ZOMBIE: usize = 15;

/// The path action of the role of live slot `slot`: slots take front, left,
/// right and back in turn.
pub open spec fn spec_role_path_action(slot: int) -> int {
    slot % 4
}

/// Whether `action` is one of the four dash actions.
pub open spec fn is_dash(action: int) -> bool {
    Z_DASH_UP <= action <= Z_DASH_RIGHT
}

/// The path action that belongs to live slot `slot`.
pub fn role_path_action(slot: usize) -> (action: usize)
    ensures
        action == spec_role_path_action(slot as int),
        action <= Z_PATH_BACK,
        slot % 4 == 0 ==> action == Z_PATH_FRONT,
        slot % 4 == 1 ==> action == Z_PATH_LEFT,
        slot % 4 == 2 ==> action == Z_PATH_RIGHT,
        slot % 4 == 3 ==> action == Z_PATH_BACK,
{
    let r = slot % 4;
    if r == 0 {
        Z_PATH_FRONT
    } else if r == 1 {
        Z_PATH_LEFT
    } else if r == 2 {
        Z_PATH_RIGHT
    } else {
        Z_PATH_BACK
    }
}

/// The player action after sanitizing against `live_count` live zombies.
pub open spec fn spec_sanitize_player_action(action: int, live_count: int) -> int {
    if P_PATH_TO_FIRST_ZOMBIE <= action <= P_PATH_TO_LAST_ZOMBIE && action
        - P_PATH_TO_FIRST_ZOMBIE >= live_count {
        P_PATH_TO_FIRST_ZOMBIE + if live_count > 0 {
            live_count - 1
        } else {
            0
        }
    } else {
        action
    }
}

/// Redirects a path-to-zombie action whose slot has no live zombie to the
/// last live slot (the first slot when none is live); other actions are
/// kept.
pub fn sanitize_player_action(action: usize, live_count: usize) -> (r: usize)
    ensures
        r == spec_sanitize_player_action(action as int, live_count as int),
{
    if P_PATH_TO_FIRST_ZOMBIE <= action && action <= P_PATH_TO_LAST_ZOMBIE && action
        - P_PATH_TO_FIRST_ZOMBIE >= live_count {
        return P_PATH_TO_FIRST_ZOMBIE + live_count.saturating_sub(1);
    }
    action
}

/// A sanitized path-to-zombie action targets a live slot whenever a zombie
/// is alive, and sanitizing it again changes nothing.
pub proof fn lemma_sanitize_player_action_targets_live(action: int, live_count: int)
    requires
        action >= 0,
        1 <= live_count,
    ensures
        ({
            let r = spec_sanitize_player_action(action, live_count);
            &&& P_PATH_TO_FIRST_ZOMBIE <= r <= P_PATH_TO_LAST_ZOMBIE && action
                <= P_PATH_TO_LAST_ZOMBIE ==> r - P_PATH_TO_FIRST_ZOMBIE < live_count
            &&& spec_sanitize_player_action(r, live_count) == r
        }),
{
}

/// The zombie actions after sanitizing: a dash on a slot whose dash is
/// cooling down becomes that slot's path action.
pub open spec fn sanitized_zombie_actions(actions: Seq<usize>, cooling: Seq<bool>) -> Seq<usize> {
    Seq::new(
        actions.len(),
        |slot: int|
            if slot < cooling.len() && is_dash(actions[slot] as int) && cooling[slot] {
                spec_role_path_action(slot) as usize
            } else {
                actions[slot]
            },
    )
}

/// Replaces each dash of a live slot whose dash is still cooling down
/// (`cooling[slot]`) by the path action of that slot's role. Slots past the
/// live ones are left alone.
pub fn sanitize_zombie_actions(actions: &mut Vec<usize>, cooling: &[bool])
    ensures
        final(actions)@ == sanitized_zombie_actions(old(actions)@, cooling@),
        final(actions)@.len() == old(actions)@.len(),
        forall|slot: int|
            #![trigger final(actions)@[slot]]
            0 <= slot < old(actions)@.len() && slot < cooling@.len() && cooling@[slot]
                && Z_DASH_UP <= old(actions)@[slot] <= Z_DASH_RIGHT ==> final(actions)@[slot]
                == (slot % 4) as usize,
        forall|slot: int|
            #![trigger final(actions)@[slot]]
            0 <= slot < old(actions)@.len() && !(slot < cooling@.len() && cooling@[slot]
                && Z_DASH_UP <= old(actions)@[slot] <= Z_DASH_RIGHT) ==> final(actions)@[slot]
                == old(actions)@[slot],
{
    let ghost before = actions@;
    let mut slot: usize = 0;
    while slot < actions.len()
        invariant
            actions@.len() == before.len(),
            0 <= slot <= actions@.len(),
            forall|j: int|
                0 <= j < slot ==> #[trigger] actions@[j] == sanitized_zombie_actions(
                    before,
                    cooling@,
                )[j],
            forall|j: int| slot <= j < actions@.len() ==> #[trigger] actions@[j] == before[j],
        decreases actions@.len() - slot,
    {
        if slot < cooling.len() && Z_DASH_UP <= actions[slot] && actions[slot] <= Z_DASH_RIGHT
            && cooling[slot] {
            let path_action = role_path_action(slot);
            actions.set(slot, path_action);
        }
        slot = slot + 1;
    }
    assert(actions@ =~= sanitized_zombie_actions(before, cooling@));
}

/// Sanitizing keeps the length; a cooling live slot that dashes gets the
/// path of its role, front, left, right and back by `slot % 4`, whichever
/// dash it chose; every other slot keeps its action.
pub proof fn lemma_sanitized_zombie_actions_role_paths(actions: Seq<usize>, cooling: Seq<bool>)
    ensures
        sanitized_zombie_actions(actions, cooling).len() == actions.len(),
        forall|slot: int|
            #![trigger sanitized_zombie_actions(actions, cooling)[slot]]
            0 <= slot < actions.len() && slot < cooling.len() && cooling[slot] && Z_DASH_UP
                <= actions[slot] <= Z_DASH_RIGHT ==> {
                let r = sanitized_zombie_actions(actions, cooling)[slot];
                &&& slot % 4 == 0 ==> r == Z_PATH_FRONT
                &&& slot % 4 == 1 ==> r == Z_PATH_LEFT
                &&& slot % 4 == 2 ==> r == Z_PATH_RIGHT
                &&& slot % 4 == 3 ==> r == Z_PATH_BACK
            },
        forall|slot: int|
            #![trigger sanitized_zombie_actions(actions, cooling)[slot]]
            0 <= slot < actions.len() && !(slot < cooling.len() && cooling[slot] && Z_DASH_UP
                <= actions[slot] <= Z_DASH_RIGHT) ==> sanitized_zombie_actions(
                actions,
                cooling,
            )[slot] == actions[slot],
{
}

/// After sanitizing, no cooling live slot dashes, and sanitizing again
/// changes nothing.
pub proof fn lemma_sanitized_zombie_actions_settled(actions: Seq<usize>, cooling: Seq<bool>)
    ensures
        forall|slot: int|
            0 <= slot < actions.len() && slot < cooling.len() && cooling[slot] ==> !is_dash(
                #[trigger] sanitized_zombie_actions(actions, cooling)[slot] as int,
            ),
        sanitized_zombie_actions(sanitized_zombie_actions(actions, cooling), cooling)
            == sanitized_zombie_actions(actions, cooling),
{
    let once = sanitized_zombie_actions(actions, cooling);
    assert(sanitized_zombie_actions(once, cooling) =~= once);
}

/// The increment that seeds the weight hash.
pub const WEIGHT_HASH_OFFSET: u64 = 0x9E37_79B9_7F4A_7C15;

/// The 64-bit finalizer that scrambles generator states and weight indices.
pub open spec fn mix64(x: u64) -> u64 {
    let a = x ^ (x >> 30u64);
    let b = a.wrapping_mul(0xBF58_476D_1CE4_E5B9);
    let c = b ^ (b >> 27u64);
    let d = c.wrapping_mul(0x94D0_49BB_1331_11EB);
    d ^ (d >> 31u64)
}

/// Scrambles `x` with the 64-bit finalizer.
fn mix(x: u64) -> (r: u64)
    ensures
        r == mix64(x),
{
    let a = x ^ (x >> 30u64);
    let b = a.wrapping_mul(0xBF58_476D_1CE4_E5B9);
    let c = b ^ (b >> 27u64);
    let d = c.wrapping_mul(0x94D0_49BB_1331_11EB);
    d ^ (d >> 31u64)
}

/// The bits behind the deterministic initial weight with index `index`.
pub open spec fn spec_weight_bits(index: u64) -> u64 {
    mix64(index.wrapping_add(WEIGHT_HASH_OFFSET))
}

/// The pseudo-random 64 bits from which the deterministic initial weight
/// with index `index` is scaled.
pub fn weight_bits(index: u64) -> (bits: u64)
    ensures
        bits == spec_weight_bits(index),
{
    mix(index.wrapping_add(WEIGHT_HASH_OFFSET))
}

/// The value XORed into a seed to form the generator's first state.
pub const RNG_SEED_MASK: u64 = 0xA5A5_A5A5_5A5A_5A5A;

/// The state that follows `state`: one step of a 64-bit linear congruential
/// generator.
pub open spec fn lcg_next(state: u64) -> u64 {
    state.wrapping_mul(6364136223846793005).wrapping_add(1442695040888963407)
}

/// A seeded, reproducible random generator for the arena.
#[derive(Debug, Clone)]
pub struct Rng {
    state: u64,
}

impl View for Rng {
    type V = u64;

    closed spec fn view(&self) -> u64 {
        self.state
    }
}

impl Rng {
    /// A generator whose state is `seed` XOR `RNG_SEED_MASK`.
    pub fn new(seed: u64) -> (rng: Rng)
        ensures
            rng@ == seed ^ RNG_SEED_MASK,
    {
        Rng { state: seed ^ RNG_SEED_MASK }
    }

    /// Advances the state one step and returns the scrambled new state.
    pub fn next_u64(&mut self) -> (r: u64)
        ensures
            final(self)@ == lcg_next(old(self)@),
            r == mix64(lcg_next(old(self)@)),
    {
        self.state = self.state.wrapping_mul(6364136223846793005).wrapping_add(
            1442695040888963407,
        );
        mix(self.state)
    }

    /// A draw from `low..=high`: `low` plus the next output modulo the range
    /// width.
    pub fn usize(&mut self, low: usize, high: usize) -> (r: usize)
        requires
            low <= high,
            high - low < usize::MAX,
        ensures
            final(self)@ == lcg_next(old(self)@),
            r == low + (mix64(lcg_next(old(self)@)) as usize) % ((high - low + 1) as usize),
            low <= r <= high,
    {
        let x = self.next_u64();
        let width = high - low + 1;
        let offset = (x as usize) % width;
        low + offset
    }
}

} // verus!
