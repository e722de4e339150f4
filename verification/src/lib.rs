//! Small tactical-policy models for a 2D action game: model shapes and
//! parameter budgets, the CSV transition format read by the offline trainer,
//! the JSON pieces it writes, and the integer decisions of the self-play
//! simulation.
pub mod args;
pub mod attention;
pub mod csv;
pub mod json;
pub mod model;
pub mod names;
pub mod selfplay;
pub mod text;

pub use model::{
    choose_empirical_winner, EvalSummary, GroupedAttentionConfig, MlpConfig, TacticalAction,
    ACTION_COUNT, FEATURE_COUNT, PARAMETER_BUDGET, PLAYER_FEATURE_COUNT,
};
pub use names::{FEATURE_NAMES, PLAYER_FEATURE_NAMES};
