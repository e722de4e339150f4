//! Shapes of the attention policies: key/value head grouping, parameter
//! counts and budgets, the capacity-sweep table and the causal mask of the
//! entity decoder.
use vstd::prelude::*;

use crate::model::{
    attention_layer_parameters, attention_parameters, kv_width, lemma_attention_terms_bounded,
    lemma_kv_dim_fits, lemma_layer_terms_fit, GroupedAttentionConfig,
};

verus! {

/// Parameter budget of the offline-trained attention Q model.
pub const MAX_Q_PARAMS: usize = 10_000;

/// Parameter budget of an entity-decoder policy.
pub const MAX_DECODER_PARAMS: usize = 55_000;

/// Number of global features, and so of feature embeddings, of the entity
/// decoder.
pub const GLOBAL_FEATURES: usize = 8;

/// Number of zombie actions of the entity decoder.
pub const ZOMBIE_ACTION_COUNT: usize = 8;

/// Number of player actions of the entity decoder.
pub const PLAYER_ACTION_COUNT: usize = 16;

/// `n` clamped to `[lo, hi]`.
pub open spec fn clamp(n: int, lo: int, hi: int) -> int {
    if n < lo {
        lo
    } else if n > hi {
        hi
    } else {
        n
    }
}

/// The larger of `n` and one.
pub open spec fn at_least_one(n: int) -> int {
    if n < 1 {
        1
    } else {
        n
    }
}

/// `r` is the largest divisor of `heads` in `[1, cap]`.
pub open spec fn is_largest_divisor_up_to(heads: int, cap: int, r: int) -> bool {
    &&& 1 <= r <= cap
    &&& heads % r == 0
    &&& forall|d: int| r < d <= cap ==> #[trigger] (heads % d) != 0
}

/// The number of key/value heads used for a request of `kv_heads` with
/// `heads` query heads: the request is clamped to `[1, max(heads, 1)]` and
/// then lowered to the largest value that divides `heads`.
pub open spec fn normalized_kv_heads(kv_heads: int, heads: int, r: int) -> bool {
    is_largest_divisor_up_to(heads, clamp(kv_heads, 1, at_least_one(heads)), r)
}

/// Normalizes a key/value head count so that it evenly groups the query
/// heads.
pub fn normalize_kv_heads(kv_heads: usize, heads: usize) -> (r: usize)
    ensures
        normalized_kv_heads(kv_heads as int, heads as int, r as int),
{
    let hi: usize = if heads < 1 {
        1
    } else {
        heads
    };
    let mut candidate: usize = if kv_heads < 1 {
        1
    } else if kv_heads > hi {
        hi
    } else {
        kv_heads
    };
    let ghost cap = candidate as int;
    while heads % candidate != 0
        invariant
            1 <= candidate <= cap,
            cap == clamp(kv_heads as int, 1, at_least_one(heads as int)),
            forall|d: int| candidate < d <= cap ==> #[trigger] (heads as int % d) != 0,
        decreases candidate,
    {
        assert(candidate != 1) by {
            assert(heads as int % 1 == 0);
        }
        candidate = candidate - 1;
    }
    candidate
}

/// The normalized head count is the only value with its defining property.
pub proof fn lemma_normalized_kv_heads_unique(kv_heads: int, heads: int, r1: int, r2: int)
    requires
        normalized_kv_heads(kv_heads, heads, r1),
        normalized_kv_heads(kv_heads, heads, r2),
    ensures
        r1 == r2,
{
    let cap = clamp(kv_heads, 1, at_least_one(heads));
    if r1 < r2 {
        assert(heads % r2 != 0);
    } else if r2 < r1 {
        assert(heads % r1 != 0);
    }
}

/// Normalizing twice changes nothing: a normalized count is already at least
/// one, at most `max(heads, 1)`, and divides `heads`.
pub proof fn lemma_normalize_kv_heads_idempotent(kv_heads: int, heads: int, r: int, s: int)
    requires
        heads >= 0,
        normalized_kv_heads(kv_heads, heads, r),
        normalized_kv_heads(r, heads, s),
    ensures
        s == r,
        1 <= r <= at_least_one(heads),
        heads % r == 0,
{
    assert(clamp(r, 1, at_least_one(heads)) == r);
    if s < r {
        assert(heads % r != 0);
    }
}

/// A count that already divides `heads` and lies in `[1, heads]` is kept.
pub proof fn lemma_normalize_kv_heads_keeps_divisor(kv_heads: int, heads: int, r: int)
    requires
        1 <= kv_heads <= heads,
        heads % kv_heads == 0,
        normalized_kv_heads(kv_heads, heads, r),
    ensures
        r == kv_heads,
{
    if r < kv_heads {
        assert(heads % kv_heads != 0);
    }
}

/// The parameter count of the offline attention Q model with the head counts
/// read as at least one.
pub open spec fn spec_attention_param_count(
    input_dim: int,
    d_model: int,
    layers: int,
    heads: int,
    kv_heads: int,
    actions: int,
) -> int {
    attention_parameters(
        input_dim,
        d_model,
        layers,
        kv_width(d_model, at_least_one(heads), at_least_one(kv_heads)),
        actions,
    )
}

/// Every quantity computed on the way to the attention count fits in a
/// `usize`.
pub open spec fn attention_count_fits(
    input_dim: int,
    d_model: int,
    layers: int,
    heads: int,
    kv_heads: int,
    actions: int,
) -> bool {
    let kv_dim = kv_width(d_model, at_least_one(heads), at_least_one(kv_heads));
    &&& attention_layer_parameters(d_model, kv_dim) <= usize::MAX
    &&& attention_parameters(input_dim, d_model, layers, kv_dim, actions) <= usize::MAX
}

/// Parameter count of the offline attention Q model; zero head counts are
/// read as one.
pub fn attention_param_count(
    input_dim: usize,
    d_model: usize,
    layers: usize,
    heads: usize,
    kv_heads: usize,
    actions: usize,
) -> (count: usize)
    requires
        attention_count_fits(
            input_dim as int,
            d_model as int,
            layers as int,
            heads as int,
            kv_heads as int,
            actions as int,
        ),
    ensures
        count == spec_attention_param_count(
            input_dim as int,
            d_model as int,
            layers as int,
            heads as int,
            kv_heads as int,
            actions as int,
        ),
{
    let h: usize = if heads < 1 {
        1
    } else {
        heads
    };
    let kv: usize = if kv_heads < 1 {
        1
    } else {
        kv_heads
    };
    let head_dim = d_model / h;
    proof {
        lemma_kv_dim_fits(d_model as int, h as int, kv as int);
    }
    let kv_dim = kv * head_dim;
    proof {
        lemma_layer_terms_fit(d_model as int, kv_dim as int);
        lemma_attention_terms_bounded(
            input_dim as int,
            d_model as int,
            layers as int,
            kv_dim as int,
            actions as int,
        );
    }
    input_dim * d_model + d_model * 2 + layers * (d_model + 2 * d_model * d_model + 2 * kv_dim
        * d_model) + d_model + actions * d_model + actions
}

/// One layer's parameter count, or `None` where a quantity on the way leaves
/// `usize`.
fn checked_layer_parameter_count(d_model: usize, kv_dim: usize) -> (r: Option<usize>)
    requires
        d_model > 0 || kv_dim == 0,
    ensures
        r is Some <==> attention_layer_parameters(d_model as int, kv_dim as int) <= usize::MAX,
        r matches Some(count) ==> count == attention_layer_parameters(
            d_model as int,
            kv_dim as int,
        ),
{
    let d = d_model;
    let ghost total = attention_layer_parameters(d as int, kv_dim as int);
    proof {
        assert(0 <= 2 * d * d) by (nonlinear_arith);
        assert(0 <= 2 * kv_dim * d) by (nonlinear_arith);
        assert(2 * d <= 2 * d * d) by (nonlinear_arith);
        assert(2 * kv_dim <= 2 * kv_dim * d) by (nonlinear_arith)
            requires
                d > 0 || kv_dim == 0,
        ;
    }
    let t1 = match 2usize.checked_mul(d) {
        Some(x) => x,
        None => return None,
    };
    let t2 = match t1.checked_mul(d) {
        Some(x) => x,
        None => return None,
    };
    let t3 = match 2usize.checked_mul(kv_dim) {
        Some(x) => x,
        None => return None,
    };
    let t4 = match t3.checked_mul(d) {
        Some(x) => x,
        None => return None,
    };
    let s = match d.checked_add(t2) {
        Some(x) => x,
        None => return None,
    };
    s.checked_add(t4)
}

/// The attention parameter count where every quantity on the way fits in a
/// `usize`, `None` where one does not (there `attention_param_count` would
/// overflow).
pub fn checked_attention_param_count(
    input_dim: usize,
    d_model: usize,
    layers: usize,
    heads: usize,
    kv_heads: usize,
    actions: usize,
) -> (r: Option<usize>)
    ensures
        r is Some <==> attention_count_fits(
            input_dim as int,
            d_model as int,
            layers as int,
            heads as int,
            kv_heads as int,
            actions as int,
        ),
        r matches Some(count) ==> count == spec_attention_param_count(
            input_dim as int,
            d_model as int,
            layers as int,
            heads as int,
            kv_heads as int,
            actions as int,
        ),
{
    let h: usize = if heads < 1 {
        1
    } else {
        heads
    };
    let kv: usize = if kv_heads < 1 {
        1
    } else {
        kv_heads
    };
    checked_grouped_count(input_dim, d_model, layers, h, kv, actions)
}

/// The grouped-attention count with `heads` query heads and `kv` key/value
/// heads, `None` where a quantity on the way leaves `usize`.
fn checked_grouped_count(
    input_dim: usize,
    d_model: usize,
    layers: usize,
    h: usize,
    kv: usize,
    actions: usize,
) -> (r: Option<usize>)
    requires
        h > 0,
    ensures
        r is Some <==> ({
            let kv_dim = kv_width(d_model as int, h as int, kv as int);
            &&& attention_layer_parameters(d_model as int, kv_dim) <= usize::MAX
            &&& attention_parameters(input_dim as int, d_model as int, layers as int, kv_dim, actions as int) <= usize::MAX
        }),
        r matches Some(count) ==> count == attention_parameters(
            input_dim as int,
            d_model as int,
            layers as int,
            kv_width(d_model as int, h as int, kv as int),
            actions as int,
        ),
{
    let head_dim = d_model / h;
    let ghost dm = d_model as int;
    proof {
        crate::model::lemma_kv_dim_bounded(dm, h as int, kv as int);
        assert(head_dim > 0 ==> d_model > 0) by (nonlinear_arith)
            requires
                0 <= head_dim <= d_model,
        ;
    }
    let kv_dim = match kv.checked_mul(head_dim) {
        Some(x) => x,
        None => {
            proof {
                let k = kv_width(dm, h as int, kv as int);
                assert(head_dim > 0) by (nonlinear_arith)
                    requires
                        kv * head_dim > usize::MAX,
                        head_dim >= 0,
                ;
                assert(k <= 2 * k * dm) by (nonlinear_arith)
                    requires
                        k >= 0,
                        dm >= 1,
                ;
                assert(0 <= 2 * dm * dm) by (nonlinear_arith);
            }
            return None;
        },
    };
    proof {
        assert(d_model > 0 || kv_dim == 0) by (nonlinear_arith)
            requires
                kv_dim == kv * head_dim,
                head_dim > 0 ==> d_model > 0,
        ;
    }
    let layer = match checked_layer_parameter_count(d_model, kv_dim) {
        Some(x) => x,
        None => return None,
    };
    checked_total_parameter_count(input_dim, d_model, layers, layer, actions)
}

/// The sum of the attention parameter terms given one layer's count, or
/// `None` where a quantity on the way leaves `usize`.
fn checked_total_parameter_count(
    input_dim: usize,
    d_model: usize,
    layers: usize,
    layer: usize,
    actions: usize,
) -> (r: Option<usize>)
    ensures
        r is Some <==> input_dim * d_model + d_model * 2 + layers * layer + d_model + actions
            * d_model + actions <= usize::MAX,
        r matches Some(count) ==> count == input_dim * d_model + d_model * 2 + layers * layer
            + d_model + actions * d_model + actions,
{
    proof {
        assert(0 <= input_dim * d_model) by (nonlinear_arith);
        assert(0 <= layers * layer) by (nonlinear_arith);
        assert(0 <= actions * d_model) by (nonlinear_arith);
    }
    let a = match input_dim.checked_mul(d_model) {
        Some(x) => x,
        None => return None,
    };
    let b = match layers.checked_mul(layer) {
        Some(x) => x,
        None => return None,
    };
    let c = match actions.checked_mul(d_model) {
        Some(x) => x,
        None => return None,
    };
    let s1 = match a.checked_add(d_model) {
        Some(x) => x,
        None => return None,
    };
    let s2 = match s1.checked_add(d_model) {
        Some(x) => x,
        None => return None,
    };
    let s3 = match s2.checked_add(b) {
        Some(x) => x,
        None => return None,
    };
    let s4 = match s3.checked_add(d_model) {
        Some(x) => x,
        None => return None,
    };
    let s5 = match s4.checked_add(c) {
        Some(x) => x,
        None => return None,
    };
    s5.checked_add(actions)
}

/// The decision of building an offline attention Q model of the given shape:
/// `Ok` holds the normalized key/value head count and the parameter count.
pub open spec fn attention_shape_result(
    input_dim: int,
    d_model: int,
    layers: int,
    heads: int,
    kv_heads: int,
    actions: int,
    r: Result<(usize, usize), ShapeError>,
) -> bool {
    if d_model == 0 || heads == 0 || d_model % heads != 0 {
        r == Err::<(usize, usize), ShapeError>(ShapeError::IndivisibleHeads)
    } else {
        exists|kv: int|
            #![trigger normalized_kv_heads(kv_heads, heads, kv)]
            normalized_kv_heads(kv_heads, heads, kv) && {
                let count = spec_attention_param_count(
                    input_dim,
                    d_model,
                    layers,
                    heads,
                    kv,
                    actions,
                );
                if count > MAX_Q_PARAMS {
                    r == Err::<(usize, usize), ShapeError>(
                        ShapeError::BudgetExceeded { count: count as usize },
                    )
                } else {
                    r == Ok::<(usize, usize), ShapeError>((kv as usize, count as usize))
                }
            }
    }
}

/// Why an attention shape is refused.
#[derive(Debug, Clone, Copy, PartialEq, Eq, Structural)]
pub enum ShapeError {
    /// The model width is zero, there are no heads, or the heads do not
    /// divide the width.
    IndivisibleHeads,
    /// The parameter count is over `MAX_Q_PARAMS`.
    BudgetExceeded { count: usize },
}

/// Checks an offline attention Q model shape before its weights are built:
/// the heads must split the width evenly, the key/value heads are
/// normalized, and the parameter count must be within `MAX_Q_PARAMS`.
pub fn check_attention_shape(
    input_dim: usize,
    d_model: usize,
    layers: usize,
    heads: usize,
    kv_heads: usize,
    actions: usize,
) -> (r: Result<(usize, usize), ShapeError>)
    requires
        d_model == 0 || heads == 0 || d_model % heads != 0 || forall|kv: int|
            #![trigger normalized_kv_heads(kv_heads as int, heads as int, kv)]
            normalized_kv_heads(kv_heads as int, heads as int, kv) ==> attention_count_fits(
                input_dim as int,
                d_model as int,
                layers as int,
                heads as int,
                kv,
                actions as int,
            ),
    ensures
        attention_shape_result(
            input_dim as int,
            d_model as int,
            layers as int,
            heads as int,
            kv_heads as int,
            actions as int,
            r,
        ),
{
    if d_model == 0 || heads == 0 || d_model % heads != 0 {
        return Err(ShapeError::IndivisibleHeads);
    }
    let kv = normalize_kv_heads(kv_heads, heads);
    let count = attention_param_count(input_dim, d_model, layers, heads, kv, actions);
    if count > MAX_Q_PARAMS {
        Err(ShapeError::BudgetExceeded { count })
    } else {
        Ok((kv, count))
    }
}

/// Shape of an entity-decoder policy.
#[derive(Debug, Clone, Copy, PartialEq, Eq, Structural)]
pub struct DecoderConfig {
    pub d_model: usize,
    pub layers: usize,
    pub heads: usize,
    pub kv_heads: usize,
}

impl DecoderConfig {
    /// The parameter count of this decoder with `actions` outputs.
    pub open spec fn spec_params(self, actions: int) -> int {
        attention_parameters(
            GLOBAL_FEATURES as int,
            self.d_model as int,
            self.layers as int,
            kv_width(self.d_model as int, self.heads as int, self.kv_heads as int),
            actions,
        )
    }

    /// Every quantity computed on the way to the count fits in a `usize`.
    pub open spec fn fits(self, actions: int) -> bool {
        &&& attention_layer_parameters(
            self.d_model as int,
            kv_width(self.d_model as int, self.heads as int, self.kv_heads as int),
        ) <= usize::MAX
        &&& self.spec_params(actions) <= usize::MAX
    }

    /// Number of trainable parameters of this decoder with `actions` outputs.
    pub fn params(self, actions: usize) -> (count: usize)
        requires
            self.heads > 0,
            self.fits(actions as int),
        ensures
            count == self.spec_params(actions as int),
    {
        let head_dim = self.d_model / self.heads;
        proof {
            lemma_kv_dim_fits(self.d_model as int, self.heads as int, self.kv_heads as int);
        }
        let kv_dim = self.kv_heads * head_dim;
        proof {
            lemma_layer_terms_fit(self.d_model as int, kv_dim as int);
            lemma_attention_terms_bounded(
                GLOBAL_FEATURES as int,
                self.d_model as int,
                self.layers as int,
                kv_dim as int,
                actions as int,
            );
        }
        let feature_params = GLOBAL_FEATURES * self.d_model;
        let token_params = self.d_model * 2;
        let per_layer = self.d_model + 2 * self.d_model * self.d_model + 2 * kv_dim * self.d_model;
        let output_params = self.d_model + actions * self.d_model + actions;
        feature_params + token_params + self.layers * per_layer + output_params
    }
}

impl DecoderConfig {
    /// The parameter count with `actions` outputs where the heads are
    /// positive and every quantity on the way fits in a `usize`; `None`
    /// where `params` would fail.
    pub fn checked_params(self, actions: usize) -> (r: Option<usize>)
        ensures
            r is Some <==> self.heads > 0 && self.fits(actions as int),
            r matches Some(count) ==> count == self.spec_params(actions as int),
    {
        if self.heads == 0 {
            return None;
        }
        checked_grouped_count(
            GLOBAL_FEATURES,
            self.d_model,
            self.layers,
            self.heads,
            self.kv_heads,
            actions,
        )
    }
}

/// The three attention parameter counts agree: the library's grouped
/// attention shape, the offline trainer's count (where both head counts are
/// positive), and the entity decoder's count (whose input width is the number
/// of global features).
pub proof fn lemma_parameter_counts_agree(
    config: GroupedAttentionConfig,
    decoder: DecoderConfig,
    actions: usize,
)
    requires
        config.query_heads > 0,
        config.kv_heads > 0,
    ensures
        config.spec_parameter_count() == spec_attention_param_count(
            config.input_dim as int,
            config.d_model as int,
            config.layers as int,
            config.query_heads as int,
            config.kv_heads as int,
            config.actions as int,
        ),
        decoder.heads > 0 ==> decoder.spec_params(actions as int) == (GroupedAttentionConfig {
            input_dim: GLOBAL_FEATURES,
            d_model: decoder.d_model,
            layers: decoder.layers,
            query_heads: decoder.heads,
            kv_heads: decoder.kv_heads,
            actions,
        }).spec_parameter_count(),
{
}

/// The capacity-sweep table: target budgets and decoder shapes.
pub open spec fn capacity_sweep_table() -> Seq<(usize, DecoderConfig)> {
    seq![
        (1_000usize, DecoderConfig { d_model: 16, layers: 1, heads: 4, kv_heads: 1 }),
        (2_000usize, DecoderConfig { d_model: 22, layers: 1, heads: 2, kv_heads: 1 }),
        (4_000usize, DecoderConfig { d_model: 36, layers: 1, heads: 4, kv_heads: 1 }),
        (8_000usize, DecoderConfig { d_model: 52, layers: 1, heads: 4, kv_heads: 1 }),
        (10_000usize, DecoderConfig { d_model: 60, layers: 1, heads: 4, kv_heads: 1 }),
        (20_000usize, DecoderConfig { d_model: 84, layers: 1, heads: 4, kv_heads: 1 }),
        (30_000usize, DecoderConfig { d_model: 104, layers: 1, heads: 4, kv_heads: 1 }),
        (40_000usize, DecoderConfig { d_model: 124, layers: 1, heads: 4, kv_heads: 1 }),
        (50_000usize, DecoderConfig { d_model: 136, layers: 1, heads: 4, kv_heads: 1 }),
    ]
}

/// The decoder shapes tried by the capacity sweep, each with its target
/// budget.
pub fn capacity_sweep_configs() -> (configs: Vec<(usize, DecoderConfig)>)
    ensures
        configs@ == capacity_sweep_table(),
{
    let mut configs: Vec<(usize, DecoderConfig)> = Vec::new();
    configs.push((1_000, DecoderConfig { d_model: 16, layers: 1, heads: 4, kv_heads: 1 }));
    configs.push((2_000, DecoderConfig { d_model: 22, layers: 1, heads: 2, kv_heads: 1 }));
    configs.push((4_000, DecoderConfig { d_model: 36, layers: 1, heads: 4, kv_heads: 1 }));
    configs.push((8_000, DecoderConfig { d_model: 52, layers: 1, heads: 4, kv_heads: 1 }));
    configs.push((10_000, DecoderConfig { d_model: 60, layers: 1, heads: 4, kv_heads: 1 }));
    configs.push((20_000, DecoderConfig { d_model: 84, layers: 1, heads: 4, kv_heads: 1 }));
    configs.push((30_000, DecoderConfig { d_model: 104, layers: 1, heads: 4, kv_heads: 1 }));
    configs.push((40_000, DecoderConfig { d_model: 124, layers: 1, heads: 4, kv_heads: 1 }));
    configs.push((50_000, DecoderConfig { d_model: 136, layers: 1, heads: 4, kv_heads: 1 }));
    assert(configs@ =~= capacity_sweep_table());
    configs
}

/// Every shape of the capacity sweep splits its width evenly over its heads
/// and fits the decoder budget with both the zombie and the player action
/// sets, and the target budgets rise strictly.
pub proof fn lemma_capacity_sweep_fits_budget()
    ensures
        forall|i: int|
            0 <= i < capacity_sweep_table().len() ==> {
                let c = #[trigger] capacity_sweep_table()[i].1;
                &&& c.heads > 0
                &&& c.d_model % c.heads == 0
                &&& c.fits(PLAYER_ACTION_COUNT as int)
                &&& c.spec_params(ZOMBIE_ACTION_COUNT as int) <= MAX_DECODER_PARAMS
                &&& c.spec_params(PLAYER_ACTION_COUNT as int) <= MAX_DECODER_PARAMS
            },
        forall|i: int, j: int|
            0 <= i < j < capacity_sweep_table().len() ==> capacity_sweep_table()[i].0
                < capacity_sweep_table()[j].0,
{
    assert forall|i: int| 0 <= i < capacity_sweep_table().len() implies {
        let c = #[trigger] capacity_sweep_table()[i].1;
        &&& c.heads > 0
        &&& c.d_model % c.heads == 0
        &&& c.fits(PLAYER_ACTION_COUNT as int)
        &&& c.spec_params(ZOMBIE_ACTION_COUNT as int) <= MAX_DECODER_PARAMS
        &&& c.spec_params(PLAYER_ACTION_COUNT as int) <= MAX_DECODER_PARAMS
    } by {
        let t = capacity_sweep_table();
        if i == 0 {
            assert(t[0].1 == DecoderConfig { d_model: 16, layers: 1, heads: 4, kv_heads: 1 });
            assert(kv_width(16, 4, 1) == 4);
            assert(attention_layer_parameters(16, 4) == 656);
            assert(t[0].1.spec_params(8) == 968);
            assert(t[0].1.spec_params(16) == 1104);
        } else if i == 1 {
            assert(t[1].1 == DecoderConfig { d_model: 22, layers: 1, heads: 2, kv_heads: 1 });
            assert(kv_width(22, 2, 1) == 11);
            assert(attention_layer_parameters(22, 11) == 1474);
            assert(t[1].1.spec_params(8) == 1900);
            assert(t[1].1.spec_params(16) == 2084);
        } else if i == 2 {
            assert(t[2].1 == DecoderConfig { d_model: 36, layers: 1, heads: 4, kv_heads: 1 });
            assert(kv_width(36, 4, 1) == 9);
            assert(attention_layer_parameters(36, 9) == 3276);
            assert(t[2].1.spec_params(8) == 3968);
            assert(t[2].1.spec_params(16) == 4264);
        } else if i == 3 {
            assert(t[3].1 == DecoderConfig { d_model: 52, layers: 1, heads: 4, kv_heads: 1 });
            assert(kv_width(52, 4, 1) == 13);
            assert(attention_layer_parameters(52, 13) == 6812);
            assert(t[3].1.spec_params(8) == 7808);
            assert(t[3].1.spec_params(16) == 8232);
        } else if i == 4 {
            assert(t[4].1 == DecoderConfig { d_model: 60, layers: 1, heads: 4, kv_heads: 1 });
            assert(kv_width(60, 4, 1) == 15);
            assert(attention_layer_parameters(60, 15) == 9060);
            assert(t[4].1.spec_params(8) == 10208);
            assert(t[4].1.spec_params(16) == 10696);
        } else if i == 5 {
            assert(t[5].1 == DecoderConfig { d_model: 84, layers: 1, heads: 4, kv_heads: 1 });
            assert(kv_width(84, 4, 1) == 21);
            assert(attention_layer_parameters(84, 21) == 17724);
            assert(t[5].1.spec_params(8) == 19328);
            assert(t[5].1.spec_params(16) == 20008);
        } else if i == 6 {
            assert(t[6].1 == DecoderConfig { d_model: 104, layers: 1, heads: 4, kv_heads: 1 });
            assert(kv_width(104, 4, 1) == 26);
            assert(attention_layer_parameters(104, 26) == 27144);
            assert(t[6].1.spec_params(8) == 29128);
            assert(t[6].1.spec_params(16) == 29968);
        } else if i == 7 {
            assert(t[7].1 == DecoderConfig { d_model: 124, layers: 1, heads: 4, kv_heads: 1 });
            assert(kv_width(124, 4, 1) == 31);
            assert(attention_layer_parameters(124, 31) == 38564);
            assert(t[7].1.spec_params(8) == 40928);
            assert(t[7].1.spec_params(16) == 41928);
        } else if i == 8 {
            assert(t[8].1 == DecoderConfig { d_model: 136, layers: 1, heads: 4, kv_heads: 1 });
            assert(kv_width(136, 4, 1) == 34);
            assert(attention_layer_parameters(136, 34) == 46376);
            assert(t[8].1.spec_params(8) == 48968);
            assert(t[8].1.spec_params(16) == 50064);
        }
    }
}

/// Whether token `query_idx` may attend to token `key_idx` when the first
/// `prefix_len` tokens are the state prefix: prefix tokens see the whole
/// prefix; action-query tokens see the prefix and the queries up to
/// themselves.
pub fn can_attend(query_idx: usize, key_idx: usize, prefix_len: usize) -> (r: bool)
    ensures
        r == (if query_idx < prefix_len {
            key_idx < prefix_len
        } else {
            key_idx < prefix_len || key_idx <= query_idx
        }),
{
    if query_idx < prefix_len {
        key_idx < prefix_len
    } else {
        key_idx < prefix_len || key_idx <= query_idx
    }
}

} // verus!
