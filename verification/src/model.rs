//! Model shapes, their parameter counts, and the pick of the best
//! evaluated controller.
use vstd::prelude::*;

verus! {

/// Number of enemy-side state features.
pub const FEATURE_COUNT: usize = 23;

/// Number of player-side (duelist) state features.
pub const PLAYER_FEATURE_COUNT: usize = 15;

/// Number of tactical actions a policy chooses from.
pub const ACTION_COUNT: usize = 5;

/// Runtime parameter budget of a shipped policy.
pub const PARAMETER_BUDGET: usize = 10_000;

/// The five high-level actions of the enemy policy.
#[derive(Debug, Clone, Copy, PartialEq, Eq, Structural)]
pub enum TacticalAction {
    Attack,
    FlankLeft,
    FlankRight,
    DashIn,
    DashOut,
}

impl TacticalAction {
    /// Every tactical action, in index order.
    pub const ALL: [TacticalAction; ACTION_COUNT] = [
        TacticalAction::Attack,
        TacticalAction::FlankLeft,
        TacticalAction::FlankRight,
        TacticalAction::DashIn,
        TacticalAction::DashOut,
    ];
}

/// Parameters of a fully connected layer with `inputs` inputs and `outputs`
/// outputs: one weight per pair and one bias per output.
pub open spec fn dense_parameters(inputs: int, outputs: int) -> int {
    outputs * inputs + outputs
}

/// Parameters of the one-hidden-layer MLP `Q(s) = W2 relu(W1 x + b1) + b2`.
pub open spec fn mlp_parameters(input_dim: int, hidden_dim: int, actions: int) -> int {
    dense_parameters(input_dim, hidden_dim) + dense_parameters(hidden_dim, actions)
}

/// Parameters of one grouped-attention layer: an RMS-norm weight, the query
/// and output projections, and the key and value projections of width
/// `kv_dim`.
pub open spec fn attention_layer_parameters(d_model: int, kv_dim: int) -> int {
    d_model + 2 * d_model * d_model + 2 * kv_dim * d_model
}

/// Parameters of the grouped-attention Q model: feature embeddings, the value
/// embedding and query token, the layers, the final RMS-norm weight and the
/// Q readout.
pub open spec fn attention_parameters(
    input_dim: int,
    d_model: int,
    layers: int,
    kv_dim: int,
    actions: int,
) -> int {
    input_dim * d_model + d_model * 2 + layers * attention_layer_parameters(d_model, kv_dim)
        + d_model + actions * d_model + actions
}

/// The width of the key and value projections of a grouped-attention model.
pub open spec fn kv_width(d_model: int, heads: int, kv_heads: int) -> int {
    kv_heads * (d_model / heads)
}

/// Shape of the one-hidden-layer MLP policy.
#[derive(Debug, Clone, Copy, PartialEq, Eq, Structural)]
pub struct MlpConfig {
    pub input_dim: usize,
    pub hidden_dim: usize,
    pub actions: usize,
}

impl Default for MlpConfig {
    fn default() -> (config: Self)
        ensures
            config.input_dim == FEATURE_COUNT,
            config.hidden_dim == 34,
            config.actions == ACTION_COUNT,
    {
        MlpConfig { input_dim: FEATURE_COUNT, hidden_dim: 34, actions: ACTION_COUNT }
    }
}

impl MlpConfig {
    /// The parameter count fits in a `usize`.
    pub open spec fn fits(self) -> bool {
        mlp_parameters(self.input_dim as int, self.hidden_dim as int, self.actions as int)
            <= usize::MAX
    }

    /// Number of trainable parameters of this MLP.
    pub fn parameter_count(self) -> (count: usize)
        requires
            self.fits(),
        ensures
            count == mlp_parameters(
                self.input_dim as int,
                self.hidden_dim as int,
                self.actions as int,
            ),
    {
        let h = self.hidden_dim;
        let i = self.input_dim;
        let a = self.actions;
        proof {
            assert(0 <= h * i) by (nonlinear_arith)
                requires
                    0 <= h,
                    0 <= i,
            ;
            assert(0 <= a * h) by (nonlinear_arith)
                requires
                    0 <= h,
                    0 <= a,
            ;
        }
        h * i + h + a * h + a
    }
}

impl MlpConfig {
    /// The parameter count where it fits in a `usize`, `None` where
    /// `parameter_count` would overflow.
    pub fn checked_parameter_count(self) -> (r: Option<usize>)
        ensures
            r is Some <==> self.fits(),
            r matches Some(count) ==> count == mlp_parameters(
                self.input_dim as int,
                self.hidden_dim as int,
                self.actions as int,
            ),
    {
        let h = self.hidden_dim;
        let i = self.input_dim;
        let a = self.actions;
        proof {
            assert(0 <= h * i) by (nonlinear_arith)
                requires
                    0 <= h,
                    0 <= i,
            ;
            assert(0 <= a * h) by (nonlinear_arith)
                requires
                    0 <= h,
                    0 <= a,
            ;
        }
        let w1 = match h.checked_mul(i) {
            Some(x) => x,
            None => return None,
        };
        let w2 = match a.checked_mul(h) {
            Some(x) => x,
            None => return None,
        };
        let s1 = match w1.checked_add(h) {
            Some(x) => x,
            None => return None,
        };
        let s2 = match s1.checked_add(w2) {
            Some(x) => x,
            None => return None,
        };
        s2.checked_add(a)
    }
}

/// Shape of the grouped-query attention policy.
#[derive(Debug, Clone, Copy, PartialEq, Eq, Structural)]
pub struct GroupedAttentionConfig {
    pub input_dim: usize,
    pub d_model: usize,
    pub layers: usize,
    pub query_heads: usize,
    pub kv_heads: usize,
    pub actions: usize,
}

impl Default for GroupedAttentionConfig {
    fn default() -> (config: Self)
        ensures
            config.input_dim == FEATURE_COUNT,
            config.d_model == 24,
            config.layers == 2,
            config.query_heads == 4,
            config.kv_heads == 1,
            config.actions == ACTION_COUNT,
    {
        GroupedAttentionConfig {
            input_dim: FEATURE_COUNT,
            d_model: 24,
            layers: 2,
            query_heads: 4,
            kv_heads: 1,
            actions: ACTION_COUNT,
        }
    }
}

impl GroupedAttentionConfig {
    /// The heads split the model width evenly.
    pub open spec fn well_shaped(self) -> bool {
        &&& self.query_heads > 0
        &&& self.kv_heads > 0
        &&& self.d_model % self.query_heads == 0
    }

    /// The key/value width of this shape.
    pub open spec fn kv_dim(self) -> int {
        kv_width(self.d_model as int, self.query_heads as int, self.kv_heads as int)
    }

    /// The parameter count of this shape.
    pub open spec fn spec_parameter_count(self) -> int {
        attention_parameters(
            self.input_dim as int,
            self.d_model as int,
            self.layers as int,
            self.kv_dim(),
            self.actions as int,
        )
    }

    /// Every quantity computed on the way to the count fits in a `usize`.
    pub open spec fn fits(self) -> bool {
        &&& attention_layer_parameters(self.d_model as int, self.kv_dim()) <= usize::MAX
        &&& self.spec_parameter_count() <= usize::MAX
    }

    /// Number of trainable parameters of this grouped-attention model.
    pub fn parameter_count(self) -> (count: usize)
        requires
            self.well_shaped(),
            self.fits(),
        ensures
            count == self.spec_parameter_count(),
    {
        let head_dim = self.d_model / self.query_heads;
        proof {
            lemma_kv_dim_fits(
                self.d_model as int,
                self.query_heads as int,
                self.kv_heads as int,
            );
        }
        let kv_dim = self.kv_heads * head_dim;
        let per_layer_params = layer_parameter_count(self.d_model, kv_dim);
        proof {
            lemma_attention_terms_bounded(
                self.input_dim as int,
                self.d_model as int,
                self.layers as int,
                kv_dim as int,
                self.actions as int,
            );
        }
        let feature_params = self.input_dim * self.d_model;
        let token_params = self.d_model * 2;
        let output_params = self.d_model + self.actions * self.d_model + self.actions;
        feature_params + token_params + self.layers * per_layer_params + output_params
    }
}

/// `kv_heads * (d_model / heads)` never exceeds `kv_heads * d_model`.
pub proof fn lemma_kv_dim_bounded(d_model: int, heads: int, kv_heads: int)
    requires
        d_model >= 0,
        heads > 0,
        kv_heads >= 0,
    ensures
        0 <= d_model / heads <= d_model,
        0 <= kv_width(d_model, heads, kv_heads) <= kv_heads * d_model,
{
    assert(0 <= d_model / heads <= d_model) by (nonlinear_arith)
        requires
            d_model >= 0,
            heads > 0,
    ;
    assert(0 <= kv_heads * (d_model / heads) <= kv_heads * d_model) by (nonlinear_arith)
        requires
            0 <= d_model / heads <= d_model,
            kv_heads >= 0,
    ;
}

/// The key/value width fits whenever one layer's count fits, and it is zero
/// for a model of width zero.
pub proof fn lemma_kv_dim_fits(d_model: int, heads: int, kv_heads: int)
    requires
        d_model >= 0,
        heads > 0,
        kv_heads >= 0,
        attention_layer_parameters(d_model, kv_width(d_model, heads, kv_heads)) <= usize::MAX,
    ensures
        0 <= d_model / heads <= d_model,
        0 <= kv_width(d_model, heads, kv_heads) <= usize::MAX,
        d_model > 0 || kv_width(d_model, heads, kv_heads) == 0,
{
    lemma_kv_dim_bounded(d_model, heads, kv_heads);
    let hd = d_model / heads;
    let kv = kv_width(d_model, heads, kv_heads);
    if hd > 0 {
        assert(kv <= 2 * kv * d_model) by (nonlinear_arith)
            requires
                kv >= 0,
                d_model >= 1,
        ;
        assert(0 <= 2 * d_model * d_model) by (nonlinear_arith)
            requires
                d_model >= 0,
        ;
    } else {
        assert(kv == 0) by (nonlinear_arith)
            requires
                kv == kv_heads * hd,
                hd == 0,
        ;
    }
}

/// Each term of the attention parameter count is at most the count.
pub proof fn lemma_attention_terms_bounded(
    input_dim: int,
    d_model: int,
    layers: int,
    kv_dim: int,
    actions: int,
)
    requires
        input_dim >= 0,
        d_model >= 0,
        layers >= 0,
        kv_dim >= 0,
        actions >= 0,
    ensures
        0 <= input_dim * d_model,
        0 <= actions * d_model,
        0 <= layers * attention_layer_parameters(d_model, kv_dim),
        0 <= attention_layer_parameters(d_model, kv_dim),
        0 <= 2 * d_model * d_model,
        0 <= 2 * kv_dim * d_model,
{
    assert(0 <= input_dim * d_model) by (nonlinear_arith)
        requires
            input_dim >= 0,
            d_model >= 0,
    ;
    assert(0 <= actions * d_model) by (nonlinear_arith)
        requires
            actions >= 0,
            d_model >= 0,
    ;
    assert(0 <= 2 * d_model * d_model) by (nonlinear_arith)
        requires
            d_model >= 0,
    ;
    assert(0 <= 2 * kv_dim * d_model) by (nonlinear_arith)
        requires
            kv_dim >= 0,
            d_model >= 0,
    ;
    let p = attention_layer_parameters(d_model, kv_dim);
    assert(0 <= layers * p) by (nonlinear_arith)
        requires
            layers >= 0,
            p >= 0,
    ;
}

/// The products inside one layer's count fit when the count fits.
pub proof fn lemma_layer_terms_fit(d_model: int, kv_dim: int)
    requires
        d_model >= 0,
        kv_dim >= 0,
        d_model > 0 || kv_dim == 0,
        attention_layer_parameters(d_model, kv_dim) <= usize::MAX,
    ensures
        2 * d_model <= usize::MAX,
        2 * kv_dim <= usize::MAX,
        0 <= 2 * d_model * d_model <= usize::MAX,
        0 <= 2 * kv_dim * d_model <= usize::MAX,
{
    assert(0 <= 2 * d_model * d_model) by (nonlinear_arith)
        requires
            d_model >= 0,
    ;
    assert(0 <= 2 * kv_dim * d_model) by (nonlinear_arith)
        requires
            kv_dim >= 0,
            d_model >= 0,
    ;
    assert(2 * d_model <= 2 * d_model * d_model) by (nonlinear_arith)
        requires
            d_model >= 0,
    ;
    assert(2 * kv_dim <= 2 * kv_dim * d_model) by (nonlinear_arith)
        requires
            kv_dim >= 0,
            d_model > 0 || kv_dim == 0,
    ;
}

/// The parameters of one attention layer of width `d_model` with key/value
/// width `kv_dim`.
fn layer_parameter_count(d_model: usize, kv_dim: usize) -> (count: usize)
    requires
        d_model > 0 || kv_dim == 0,
        attention_layer_parameters(d_model as int, kv_dim as int) <= usize::MAX,
    ensures
        count == attention_layer_parameters(d_model as int, kv_dim as int),
{
    proof {
        lemma_layer_terms_fit(d_model as int, kv_dim as int);
    }
    d_model + 2 * d_model * d_model + 2 * kv_dim * d_model
}

/// Where a single-precision float with bit pattern `bits` stands in the IEEE
/// 754 `totalOrder` (the order of `f32::total_cmp`): non-negative patterns
/// keep their value, negative ones are mirrored below them, so that `-0.0`
/// comes just below `+0.0` and NaNs sit at both ends.
pub open spec fn total_order_rank(bits: u32) -> int {
    if bits < 0x8000_0000 {
        bits as int
    } else {
        0x7fff_ffff - bits
    }
}

/// The rank of a float bit pattern in the IEEE 754 total order.
pub fn total_order_key(bits: u32) -> (key: i64)
    ensures
        key == total_order_rank(bits),
{
    if bits < 0x8000_0000 {
        bits as i64
    } else {
        0x7fff_ffff - (bits as i64)
    }
}

/// Summary of one evaluated controller. Each metric is held as the bit
/// pattern of its single-precision value (`f32::to_bits`), which is all the
/// choice of a winner reads.
#[derive(Debug, Clone, PartialEq)]
pub struct EvalSummary {
    pub mode: String,
    pub player_death_rate: u32,
    pub mean_reward_per_episode: u32,
    pub mean_player_damage_per_episode: u32,
    pub action_diversity: u32,
}

/// The ranks by which summaries are compared, most significant first: death
/// rate, then reward, then damage, then action diversity.
pub open spec fn summary_ranks(s: EvalSummary) -> (int, int, int, int) {
    (
        total_order_rank(s.player_death_rate),
        total_order_rank(s.mean_reward_per_episode),
        total_order_rank(s.mean_player_damage_per_episode),
        total_order_rank(s.action_diversity),
    )
}

/// Lexicographic `a <= b` on rank tuples.
pub open spec fn ranks_le(a: (int, int, int, int), b: (int, int, int, int)) -> bool {
    ||| a.0 < b.0
    ||| a.0 == b.0 && a.1 < b.1
    ||| a.0 == b.0 && a.1 == b.1 && a.2 < b.2
    ||| a.0 == b.0 && a.1 == b.1 && a.2 == b.2 && a.3 <= b.3
}

/// `a` ranks no higher than `b`.
pub open spec fn summary_le(a: EvalSummary, b: EvalSummary) -> bool {
    ranks_le(summary_ranks(a), summary_ranks(b))
}

/// `s[i]` ranks highest, and every later summary ranks strictly lower: it is
/// the last of the highest-ranked summaries.
pub open spec fn is_last_best(s: Seq<EvalSummary>, i: int) -> bool {
    &&& 0 <= i < s.len()
    &&& forall|j: int| 0 <= j < s.len() ==> summary_le(#[trigger] s[j], s[i])
    &&& forall|j: int| i < j < s.len() ==> !summary_le(s[i], #[trigger] s[j])
}

/// Whether `a` ranks no higher than `b`.
fn summary_at_most(a: &EvalSummary, b: &EvalSummary) -> (r: bool)
    ensures
        r == summary_le(*a, *b),
{
    let a0 = total_order_key(a.player_death_rate);
    let b0 = total_order_key(b.player_death_rate);
    if a0 != b0 {
        return a0 < b0;
    }
    let a1 = total_order_key(a.mean_reward_per_episode);
    let b1 = total_order_key(b.mean_reward_per_episode);
    if a1 != b1 {
        return a1 < b1;
    }
    let a2 = total_order_key(a.mean_player_damage_per_episode);
    let b2 = total_order_key(b.mean_player_damage_per_episode);
    if a2 != b2 {
        return a2 < b2;
    }
    total_order_key(a.action_diversity) <= total_order_key(b.action_diversity)
}

/// Picks the empirically strongest controller: the highest death rate, ties
/// broken by reward, then damage, then action diversity, all in the IEEE 754
/// total order; of equally ranked summaries the last one wins. `None` only
/// for an empty slice.
pub fn choose_empirical_winner(summaries: &[EvalSummary]) -> (winner: Option<&EvalSummary>)
    ensures
        winner is None <==> summaries@.len() == 0,
        winner matches Some(w) ==> exists|i: int|
            is_last_best(summaries@, i) && *w == #[trigger] summaries@[i],
        winner matches Some(w) ==> forall|j: int|
            0 <= j < summaries@.len() ==> ranks_below_or_equal(#[trigger] summaries@[j], *w),
{
    if summaries.len() == 0 {
        return None;
    }
    let mut best: usize = 0;
    let mut idx: usize = 1;
    while idx < summaries.len()
        invariant
            0 < summaries@.len(),
            0 <= best < idx <= summaries@.len(),
            forall|j: int| 0 <= j < idx ==> summary_le(#[trigger] summaries@[j], summaries@[best as int]),
            forall|j: int| best < j < idx ==> !summary_le(summaries@[best as int], #[trigger] summaries@[j]),
        decreases summaries@.len() - idx,
    {
        if summary_at_most(&summaries[best], &summaries[idx]) {
            best = idx;
        }
        idx = idx + 1;
    }
    let w = &summaries[best];
    assert(is_last_best(summaries@, best as int));
    proof {
        lemma_winner_key_order(summaries@, best as int);
    }
    Some(w)
}

/// `a` comes no later than `b` when compared by death rate, then reward,
/// then damage, then action diversity, each in the IEEE 754 total order.
pub open spec fn ranks_below_or_equal(a: EvalSummary, b: EvalSummary) -> bool {
    let (d1, d2) = (
        total_order_rank(a.player_death_rate),
        total_order_rank(b.player_death_rate),
    );
    let (r1, r2) = (
        total_order_rank(a.mean_reward_per_episode),
        total_order_rank(b.mean_reward_per_episode),
    );
    let (m1, m2) = (
        total_order_rank(a.mean_player_damage_per_episode),
        total_order_rank(b.mean_player_damage_per_episode),
    );
    let (v1, v2) = (total_order_rank(a.action_diversity), total_order_rank(b.action_diversity));
    d1 < d2 || d1 == d2 && (r1 < r2 || r1 == r2 && (m1 < m2 || m1 == m2 && v1 <= v2))
}

/// The winner is compared key by key: the highest death rate; among equal
/// death rates the highest reward; among equal death rate and reward the
/// highest damage; among equal death rate, reward and damage the highest
/// action diversity; and no later summary equals it on all four keys.
pub proof fn lemma_winner_key_order(s: Seq<EvalSummary>, i: int)
    requires
        is_last_best(s, i),
    ensures
        forall|j: int| 0 <= j < s.len() ==> ranks_below_or_equal(#[trigger] s[j], s[i]),
        forall|j: int|
            0 <= j < s.len() && total_order_rank(#[trigger] s[j].player_death_rate)
                == total_order_rank(s[i].player_death_rate) && total_order_rank(
                s[j].mean_reward_per_episode,
            ) == total_order_rank(s[i].mean_reward_per_episode) ==> total_order_rank(
                s[j].mean_player_damage_per_episode,
            ) <= total_order_rank(s[i].mean_player_damage_per_episode),
        forall|j: int|
            0 <= j < s.len() && total_order_rank(#[trigger] s[j].player_death_rate)
                == total_order_rank(s[i].player_death_rate) && total_order_rank(
                s[j].mean_reward_per_episode,
            ) == total_order_rank(s[i].mean_reward_per_episode) && total_order_rank(
                s[j].mean_player_damage_per_episode,
            ) == total_order_rank(s[i].mean_player_damage_per_episode) ==> total_order_rank(
                s[j].action_diversity,
            ) <= total_order_rank(s[i].action_diversity),
        forall|j: int|
            i < j < s.len() ==> !(total_order_rank(#[trigger] s[j].player_death_rate)
                == total_order_rank(s[i].player_death_rate) && total_order_rank(
                s[j].mean_reward_per_episode,
            ) == total_order_rank(s[i].mean_reward_per_episode) && total_order_rank(
                s[j].mean_player_damage_per_episode,
            ) == total_order_rank(s[i].mean_player_damage_per_episode) && total_order_rank(
                s[j].action_diversity,
            ) == total_order_rank(s[i].action_diversity)),
{
    assert forall|j: int| 0 <= j < s.len() implies ranks_below_or_equal(
        #[trigger] s[j],
        s[i],
    ) by {
        assert(summary_le(s[j], s[i]));
    }
    assert forall|j: int| i < j < s.len() implies !(total_order_rank(
        #[trigger] s[j].player_death_rate,
    ) == total_order_rank(s[i].player_death_rate) && total_order_rank(
        s[j].mean_reward_per_episode,
    ) == total_order_rank(s[i].mean_reward_per_episode) && total_order_rank(
        s[j].mean_player_damage_per_episode,
    ) == total_order_rank(s[i].mean_player_damage_per_episode) && total_order_rank(
        s[j].action_diversity,
    ) == total_order_rank(s[i].action_diversity)) by {
        assert(!summary_le(s[i], s[j]));
    }
}

/// The highest-ranked summary is unique up to its ranks: two last-best
/// positions are the same position.
pub proof fn lemma_last_best_unique(s: Seq<EvalSummary>, i: int, j: int)
    requires
        is_last_best(s, i),
        is_last_best(s, j),
    ensures
        i == j,
{
    if i < j {
        assert(summary_le(s[j], s[i]));
        assert(!summary_le(s[i], s[j]));
        assert(summary_le(s[i], s[j]));
    } else if j < i {
        assert(!summary_le(s[j], s[i]));
    }
}

/// The winner has the highest death rate of all summaries, and among the
/// summaries with that death rate it has the highest reward: reward only
/// decides after death rate.
pub proof fn lemma_winner_death_rate_then_reward(s: Seq<EvalSummary>, i: int)
    requires
        is_last_best(s, i),
    ensures
        forall|j: int|
            0 <= j < s.len() ==> total_order_rank(#[trigger] s[j].player_death_rate)
                <= total_order_rank(s[i].player_death_rate),
        forall|j: int|
            0 <= j < s.len() && total_order_rank(#[trigger] s[j].player_death_rate)
                == total_order_rank(s[i].player_death_rate) ==> total_order_rank(
                s[j].mean_reward_per_episode,
            ) <= total_order_rank(s[i].mean_reward_per_episode),
{
    assert forall|j: int| 0 <= j < s.len() implies total_order_rank(
        #[trigger] s[j].player_death_rate,
    ) <= total_order_rank(s[i].player_death_rate) by {
        assert(summary_le(s[j], s[i]));
    }
    assert forall|j: int|
        0 <= j < s.len() && total_order_rank(#[trigger] s[j].player_death_rate)
            == total_order_rank(s[i].player_death_rate) implies total_order_rank(
        s[j].mean_reward_per_episode,
    ) <= total_order_rank(s[i].mean_reward_per_episode) by {
        assert(summary_le(s[j], s[i]));
    }
}

/// The rank order of float bit patterns is strict: distinct patterns have
/// distinct ranks.
pub proof fn lemma_total_order_rank_injective(a: u32, b: u32)
    requires
        total_order_rank(a) == total_order_rank(b),
    ensures
        a == b,
{
}

} // verus!
