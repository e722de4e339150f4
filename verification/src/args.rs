//! Command-line decisions of the two trainers: the offline trainer's
//! `--name value` options and the self-play trainer's `--name=value` flags.
use vstd::prelude::*;

use crate::csv::views;
use crate::model::{ACTION_COUNT, PLAYER_FEATURE_COUNT};
use crate::names::{feature_names_for_dim, FEATURE_NAMES, PLAYER_FEATURE_NAMES};
use crate::text::{
    chars_of, concat, owned, parse_usize, parsed_usize, str_eq, string_from_range, to_lowercase,
    unicode_lowercase,
};

verus! {

/// The options of the offline trainer.
#[derive(Debug, Clone, Copy, PartialEq, Eq, Structural)]
pub enum TrainerOption {
    Input,
    Output,
    Model,
    Role,
    InputDim,
    HiddenDim,
    DModel,
    Layers,
    Heads,
    KvHeads,
    Actions,
    Epochs,
    LearningRate,
    Gamma,
    TargetSync,
    Help,
    Unknown,
}

/// The option an argument names.
pub open spec fn option_of(arg: Seq<char>) -> TrainerOption {
    if arg == "--input"@ {
        TrainerOption::Input
    } else if arg == "--output"@ {
        TrainerOption::Output
    } else if arg == "--model"@ {
        TrainerOption::Model
    } else if arg == "--role"@ {
        TrainerOption::Role
    } else if arg == "--input-dim"@ {
        TrainerOption::InputDim
    } else if arg == "--hidden-dim"@ {
        TrainerOption::HiddenDim
    } else if arg == "--d-model"@ {
        TrainerOption::DModel
    } else if arg == "--layers"@ {
        TrainerOption::Layers
    } else if arg == "--heads"@ {
        TrainerOption::Heads
    } else if arg == "--kv-heads"@ {
        TrainerOption::KvHeads
    } else if arg == "--actions"@ {
        TrainerOption::Actions
    } else if arg == "--epochs"@ {
        TrainerOption::Epochs
    } else if arg == "--lr"@ {
        TrainerOption::LearningRate
    } else if arg == "--gamma"@ {
        TrainerOption::Gamma
    } else if arg == "--target-sync"@ {
        TrainerOption::TargetSync
    } else if arg == "--help"@ || arg == "-h"@ {
        TrainerOption::Help
    } else {
        TrainerOption::Unknown
    }
}

/// The option `arg` names.
pub fn trainer_option(arg: &str) -> (r: TrainerOption)
    ensures
        r == option_of(arg@),
{
    if str_eq(arg, "--input") {
        TrainerOption::Input
    } else if str_eq(arg, "--output") {
        TrainerOption::Output
    } else if str_eq(arg, "--model") {
        TrainerOption::Model
    } else if str_eq(arg, "--role") {
        TrainerOption::Role
    } else if str_eq(arg, "--input-dim") {
        TrainerOption::InputDim
    } else if str_eq(arg, "--hidden-dim") {
        TrainerOption::HiddenDim
    } else if str_eq(arg, "--d-model") {
        TrainerOption::DModel
    } else if str_eq(arg, "--layers") {
        TrainerOption::Layers
    } else if str_eq(arg, "--heads") {
        TrainerOption::Heads
    } else if str_eq(arg, "--kv-heads") {
        TrainerOption::KvHeads
    } else if str_eq(arg, "--actions") {
        TrainerOption::Actions
    } else if str_eq(arg, "--epochs") {
        TrainerOption::Epochs
    } else if str_eq(arg, "--lr") {
        TrainerOption::LearningRate
    } else if str_eq(arg, "--gamma") {
        TrainerOption::Gamma
    } else if str_eq(arg, "--target-sync") {
        TrainerOption::TargetSync
    } else if str_eq(arg, "--help") || str_eq(arg, "-h") {
        TrainerOption::Help
    } else {
        TrainerOption::Unknown
    }
}

/// The offline trainer's settings. The learning rate and discount are kept
/// as the text given for them (already known to read as floats).
#[derive(Debug, Clone)]
pub struct TrainerConfig {
    pub input_path: String,
    pub output_path: String,
    pub model: String,
    pub role: String,
    pub input_dim: usize,
    pub hidden_dim: usize,
    pub d_model: usize,
    pub layers: usize,
    pub heads: usize,
    pub kv_heads: usize,
    pub actions: usize,
    pub epochs: usize,
    pub learning_rate: String,
    pub gamma: String,
    pub target_sync: usize,
}

/// The characters of a `TrainerConfig`.
pub struct TrainerConfigView {
    pub input_path: Seq<char>,
    pub output_path: Seq<char>,
    pub model: Seq<char>,
    pub role: Seq<char>,
    pub input_dim: usize,
    pub hidden_dim: usize,
    pub d_model: usize,
    pub layers: usize,
    pub heads: usize,
    pub kv_heads: usize,
    pub actions: usize,
    pub epochs: usize,
    pub learning_rate: Seq<char>,
    pub gamma: Seq<char>,
    pub target_sync: usize,
}

impl View for TrainerConfig {
    type V = TrainerConfigView;

    open spec fn view(&self) -> TrainerConfigView {
        TrainerConfigView {
            input_path: self.input_path@,
            output_path: self.output_path@,
            model: self.model@,
            role: self.role@,
            input_dim: self.input_dim,
            hidden_dim: self.hidden_dim,
            d_model: self.d_model,
            layers: self.layers,
            heads: self.heads,
            kv_heads: self.kv_heads,
            actions: self.actions,
            epochs: self.epochs,
            learning_rate: self.learning_rate@,
            gamma: self.gamma@,
            target_sync: self.target_sync,
        }
    }
}

/// The settings before any argument: no paths, the MLP model for the enemy
/// role, 23 inputs, 275 hidden units, width 40, two layers, four heads, one
/// key/value head, five actions, 100 epochs, learning rate `0.006`, discount
/// `0.96`, target sync every 64 updates.
pub open spec fn default_trainer_config() -> TrainerConfigView {
    TrainerConfigView {
        input_path: Seq::empty(),
        output_path: Seq::empty(),
        model: "mlp"@,
        role: "zombie"@,
        input_dim: 23,
        hidden_dim: 275,
        d_model: 40,
        layers: 2,
        heads: 4,
        kv_heads: 1,
        actions: ACTION_COUNT,
        epochs: 100,
        learning_rate: "0.006"@,
        gamma: "0.96"@,
        target_sync: 64,
    }
}

impl Default for TrainerConfig {
    fn default() -> (config: Self)
        ensures
            config@ == default_trainer_config(),
    {
        TrainerConfig {
            input_path: String::new(),
            output_path: String::new(),
            model: owned("mlp"),
            role: owned("zombie"),
            input_dim: 23,
            hidden_dim: 275,
            d_model: 40,
            layers: 2,
            heads: 4,
            kv_heads: 1,
            actions: ACTION_COUNT,
            epochs: 100,
            learning_rate: owned("0.006"),
            gamma: owned("0.96"),
            target_sync: 64,
        }
    }
}

/// Why the offline trainer's arguments are refused.
#[derive(Debug, Clone)]
pub enum ArgError {
    /// An option is the last argument and has no value.
    MissingValue { name: String },
    /// An argument names no option.
    UnknownArgument { arg: String },
    /// The value of a numeric option does not read as its number.
    InvalidNumber { name: String, value: String },
}

/// The characters of an `ArgError`.
pub enum ArgErrorView {
    MissingValue(Seq<char>),
    UnknownArgument(Seq<char>),
    InvalidNumber(Seq<char>, Seq<char>),
}

impl View for ArgError {
    type V = ArgErrorView;

    open spec fn view(&self) -> ArgErrorView {
        match self {
            ArgError::MissingValue { name } => ArgErrorView::MissingValue(name@),
            ArgError::UnknownArgument { arg } => ArgErrorView::UnknownArgument(arg@),
            ArgError::InvalidNumber { name, value } => ArgErrorView::InvalidNumber(
                name@,
                value@,
            ),
        }
    }
}

/// The outcome of reading the arguments: the settings, or a request for
/// the usage text.
#[derive(Debug, Clone)]
pub enum TrainerArgs {
    Run(TrainerConfig),
    Help,
}

/// The characters of a `TrainerArgs`.
pub enum TrainerArgsView {
    Run(TrainerConfigView),
    Help,
}

impl View for TrainerArgs {
    type V = TrainerArgsView;

    open spec fn view(&self) -> TrainerArgsView {
        match self {
            TrainerArgs::Run(c) => TrainerArgsView::Run(c@),
            TrainerArgs::Help => TrainerArgsView::Help,
        }
    }
}

/// Whether an option takes a whole number.
pub open spec fn takes_count(o: TrainerOption) -> bool {
    match o {
        TrainerOption::InputDim | TrainerOption::HiddenDim | TrainerOption::DModel
        | TrainerOption::Layers | TrainerOption::Heads | TrainerOption::KvHeads
        | TrainerOption::Actions | TrainerOption::Epochs | TrainerOption::TargetSync => true,
        _ => false,
    }
}

/// `cfg` with the option `o` set to the value `v` (`n` where the option is
/// numeric); model and role are lowercased.
pub open spec fn apply_option(
    cfg: TrainerConfigView,
    o: TrainerOption,
    v: Seq<char>,
    n: usize,
) -> TrainerConfigView {
    match o {
        TrainerOption::Input => TrainerConfigView { input_path: v, ..cfg },
        TrainerOption::Output => TrainerConfigView { output_path: v, ..cfg },
        TrainerOption::Model => TrainerConfigView { model: unicode_lowercase(v), ..cfg },
        TrainerOption::Role => TrainerConfigView { role: unicode_lowercase(v), ..cfg },
        TrainerOption::InputDim => TrainerConfigView { input_dim: n, ..cfg },
        TrainerOption::HiddenDim => TrainerConfigView { hidden_dim: n, ..cfg },
        TrainerOption::DModel => TrainerConfigView { d_model: n, ..cfg },
        TrainerOption::Layers => TrainerConfigView { layers: n, ..cfg },
        TrainerOption::Heads => TrainerConfigView { heads: n, ..cfg },
        TrainerOption::KvHeads => TrainerConfigView { kv_heads: n, ..cfg },
        TrainerOption::Actions => TrainerConfigView { actions: n, ..cfg },
        TrainerOption::Epochs => TrainerConfigView { epochs: n, ..cfg },
        TrainerOption::LearningRate => TrainerConfigView { learning_rate: v, ..cfg },
        TrainerOption::Gamma => TrainerConfigView { gamma: v, ..cfg },
        TrainerOption::TargetSync => TrainerConfigView { target_sync: n, ..cfg },
        _ => cfg,
    }
}

/// The settings once all arguments are read: with `PLAYER_FEATURE_COUNT`
/// inputs the default enemy role becomes the player role.
pub open spec fn finish_config(cfg: TrainerConfigView) -> TrainerConfigView {
    if cfg.input_dim == PLAYER_FEATURE_COUNT && cfg.role == "zombie"@ {
        TrainerConfigView { role: "player"@, ..cfg }
    } else {
        cfg
    }
}

/// Whether argument `i` reads as a single-precision number, by the caller's
/// flags (one per argument; a missing flag reads as no).
pub open spec fn reads_as_number(numeric: Seq<bool>, i: int) -> bool {
    0 <= i < numeric.len() && numeric[i]
}

/// Reading the arguments from position `i` on with the settings `cfg`: each
/// option takes the next argument as its value, and a later value of an
/// option replaces an earlier one; `--help` or `-h` stops the reading. The
/// learning rate and discount must read as single-precision numbers
/// (`numeric`).
pub open spec fn scan_args(
    args: Seq<Seq<char>>,
    numeric: Seq<bool>,
    i: int,
    cfg: TrainerConfigView,
) -> Result<
    TrainerArgsView,
    ArgErrorView,
>
    decreases args.len() - i,
{
    if i >= args.len() {
        Ok(TrainerArgsView::Run(finish_config(cfg)))
    } else {
        let a = args[i];
        let o = option_of(a);
        if o == TrainerOption::Help {
            Ok(TrainerArgsView::Help)
        } else if o == TrainerOption::Unknown {
            Err(ArgErrorView::UnknownArgument(a))
        } else if i + 1 >= args.len() {
            Err(ArgErrorView::MissingValue(a))
        } else {
            let v = args[i + 1];
            if takes_count(o) {
                match parsed_usize(v) {
                    None => Err(ArgErrorView::InvalidNumber(a, v)),
                    Some(n) => scan_args(args, numeric, i + 2, apply_option(cfg, o, v, n)),
                }
            } else if (o == TrainerOption::LearningRate || o == TrainerOption::Gamma)
                && !reads_as_number(numeric, i + 1) {
                Err(ArgErrorView::InvalidNumber(a, v))
            } else {
                scan_args(args, numeric, i + 2, apply_option(cfg, o, v, 0))
            }
        }
    }
}

/// Reads the offline trainer's arguments (the program name excluded);
/// `numeric[i]` tells whether `args[i]` reads as a single-precision number.
pub fn parse_trainer_args(args: &[String], numeric: &[bool]) -> (r: Result<TrainerArgs, ArgError>)
    ensures
        match scan_args(views(args@), numeric@, 0, default_trainer_config()) {
            Ok(a) => r matches Ok(out) && out@ == a,
            Err(e) => r matches Err(err) && err@ == e,
        },
{
    let ghost all = views(args@);
    let mut config = TrainerConfig::default();
    let mut i: usize = 0;
    while i < args.len()
        invariant
            0 <= i <= args@.len(),
            all == views(args@),
            scan_args(all, numeric@, i as int, config@) == scan_args(
                all,
                numeric@,
                0,
                default_trainer_config(),
            ),
        decreases args@.len() - i,
    {
        let arg = args[i].as_str();
        let option = trainer_option(arg);
        match option {
            TrainerOption::Help => {
                return Ok(TrainerArgs::Help);
            },
            TrainerOption::Unknown => {
                return Err(ArgError::UnknownArgument { arg: owned(arg) });
            },
            _ => {},
        }
        if i + 1 >= args.len() {
            return Err(ArgError::MissingValue { name: owned(arg) });
        }
        let value = args[i + 1].as_str();
        match option {
            TrainerOption::Input => {
                config.input_path = owned(value);
            },
            TrainerOption::Output => {
                config.output_path = owned(value);
            },
            TrainerOption::Model => {
                config.model = to_lowercase(value);
            },
            TrainerOption::Role => {
                config.role = to_lowercase(value);
            },
            TrainerOption::LearningRate | TrainerOption::Gamma => {
                if !(i + 1 < numeric.len() && numeric[i + 1]) {
                    return Err(ArgError::InvalidNumber { name: owned(arg), value: owned(value) });
                }
                if option == TrainerOption::LearningRate {
                    config.learning_rate = owned(value);
                } else {
                    config.gamma = owned(value);
                }
            },
            _ => {
                let n = match parse_usize(value) {
                    Some(n) => n,
                    None => {
                        return Err(
                            ArgError::InvalidNumber { name: owned(arg), value: owned(value) },
                        );
                    },
                };
                match option {
                    TrainerOption::InputDim => {
                        config.input_dim = n;
                    },
                    TrainerOption::HiddenDim => {
                        config.hidden_dim = n;
                    },
                    TrainerOption::DModel => {
                        config.d_model = n;
                    },
                    TrainerOption::Layers => {
                        config.layers = n;
                    },
                    TrainerOption::Heads => {
                        config.heads = n;
                    },
                    TrainerOption::KvHeads => {
                        config.kv_heads = n;
                    },
                    TrainerOption::Actions => {
                        config.actions = n;
                    },
                    TrainerOption::Epochs => {
                        config.epochs = n;
                    },
                    _ => {
                        config.target_sync = n;
                    },
                }
            },
        }
        i = i + 2;
    }
    if config.input_dim == PLAYER_FEATURE_COUNT && str_eq(config.role.as_str(), "zombie") {
        config.role = owned("player");
    }
    Ok(TrainerArgs::Run(config))
}

/// The model families the offline trainer builds.
#[derive(Debug, Clone, Copy, PartialEq, Eq, Structural)]
pub enum ModelKind {
    Mlp,
    Attention,
}

/// The model family a (lowercased) `--model` value names: `mlp` or
/// `attention`; anything else is unsupported.
pub fn model_kind(model: &str) -> (r: Option<ModelKind>)
    ensures
        model@ == "mlp"@ ==> r == Some(ModelKind::Mlp),
        model@ == "attention"@ ==> r == Some(ModelKind::Attention),
        model@ != "mlp"@ && model@ != "attention"@ ==> r is None,
{
    proof {
        reveal_strlit("mlp");
        reveal_strlit("attention");
        assert("mlp"@.len() != "attention"@.len());
    }
    if str_eq(model, "mlp") {
        Some(ModelKind::Mlp)
    } else if str_eq(model, "attention") {
        Some(ModelKind::Attention)
    } else {
        None
    }
}

/// Why the offline trainer's settings cannot run.
#[derive(Debug, Clone, Copy, PartialEq, Eq, Structural)]
pub enum ConfigError {
    /// `--input` or `--output` is missing.
    MissingPaths,
    /// The action count is not the runtime's `ACTION_COUNT`.
    UnsupportedActions,
    /// No feature list has this many inputs.
    UnsupportedInputDim { input_dim: usize },
}

/// The checks of the settings before the data is read, in order: both
/// paths given, the runtime's action count, a known input width; the result
/// is the feature list of that width.
pub fn trainer_feature_names(config: &TrainerConfig) -> (r: Result<&'static [&'static str], ConfigError>)
    ensures
        config.input_path@.len() == 0 || config.output_path@.len() == 0 ==> r == Err::<
            &'static [&'static str],
            ConfigError,
        >(ConfigError::MissingPaths),
        config.input_path@.len() > 0 && config.output_path@.len() > 0 && config.actions
            != ACTION_COUNT ==> r == Err::<&'static [&'static str], ConfigError>(
            ConfigError::UnsupportedActions,
        ),
        config.input_path@.len() > 0 && config.output_path@.len() > 0 && config.actions
            == ACTION_COUNT ==> {
            &&& config.input_dim == FEATURE_NAMES@.len() ==> (r matches Ok(names) && names@
                == FEATURE_NAMES@)
            &&& config.input_dim == PLAYER_FEATURE_NAMES@.len() ==> (r matches Ok(names)
                && names@ == PLAYER_FEATURE_NAMES@)
            &&& config.input_dim != FEATURE_NAMES@.len() && config.input_dim
                != PLAYER_FEATURE_NAMES@.len() ==> r == Err::<
                &'static [&'static str],
                ConfigError,
            >(ConfigError::UnsupportedInputDim { input_dim: config.input_dim })
        },
{
    let input = chars_of(config.input_path.as_str());
    let output = chars_of(config.output_path.as_str());
    if input.len() == 0 || output.len() == 0 {
        return Err(ConfigError::MissingPaths);
    }
    if config.actions != ACTION_COUNT {
        return Err(ConfigError::UnsupportedActions);
    }
    match feature_names_for_dim(config.input_dim) {
        Ok(names) => Ok(names),
        Err(input_dim) => Err(ConfigError::UnsupportedInputDim { input_dim }),
    }
}

/// `c` with an ASCII capital letter replaced by its small letter, as
/// `char::to_ascii_lowercase` gives.
pub open spec fn ascii_lower(c: char) -> char {
    if 'A' <= c <= 'Z' {
        ((c as u32) + 32) as char
    } else {
        c
    }
}

/// Whether `c` lowercases (ASCII) to `t`.
fn lowers_to(c: char, t: char) -> (r: bool)
    ensures
        r == (ascii_lower(c) == t),
{
    if 'A' <= c && c <= 'Z' {
        (c as u32) + 32 == (t as u32)
    } else {
        c == t
    }
}

/// Whether `value` equals `target` once ASCII capitals are lowered.
pub fn equals_ascii_lowercased(value: &str, target: &str) -> (r: bool)
    ensures
        r == (value@.map_values(|c: char| ascii_lower(c)) == target@),
{
    let v = chars_of(value);
    let t = chars_of(target);
    let ghost lowered = value@.map_values(|c: char| ascii_lower(c));
    if v.len() != t.len() {
        assert(lowered.len() != t@.len());
        return false;
    }
    let mut i: usize = 0;
    while i < v.len()
        invariant
            v@ == value@,
            t@ == target@,
            lowered == value@.map_values(|c: char| ascii_lower(c)),
            v@.len() == t@.len(),
            0 <= i <= v@.len(),
            forall|j: int| 0 <= j < i ==> lowered[j] == t@[j],
        decreases v@.len() - i,
    {
        if !lowers_to(v[i], t[i]) {
            assert(lowered[i as int] != t@[i as int]);
            return false;
        }
        i = i + 1;
    }
    assert(lowered =~= t@);
    true
}

/// The values `v` of the arguments of the form `--<name>=v`, in order.
pub open spec fn flag_values_of(args: Seq<Seq<char>>, name: Seq<char>) -> Seq<Seq<char>>
    decreases args.len(),
{
    if args.len() == 0 {
        Seq::empty()
    } else {
        let before = flag_values_of(args.drop_last(), name);
        let prefix = "--"@ + name + "="@;
        let a = args.last();
        if prefix.len() <= a.len() && a.subrange(0, prefix.len() as int) == prefix {
            before.push(a.subrange(prefix.len() as int, a.len() as int))
        } else {
            before
        }
    }
}

/// The values given to the flag `name` as `--name=value`, in argument order.
pub fn flag_values(args: &[String], name: &str) -> (values: Vec<String>)
    ensures
        views(values@) == flag_values_of(views(args@), name@),
{
    let ghost all = views(args@);
    let prefix = concat(concat("--", name).as_str(), "=");
    let p = chars_of(prefix.as_str());
    let mut values: Vec<String> = Vec::new();
    let mut k: usize = 0;
    assert(all.subrange(0, 0) =~= Seq::<Seq<char>>::empty());
    assert(views(values@) =~= Seq::<Seq<char>>::empty());
    while k < args.len()
        invariant
            0 <= k <= args@.len(),
            all == views(args@),
            p@ == "--"@ + name@ + "="@,
            views(values@) == flag_values_of(all.subrange(0, k as int), name@),
        decreases args@.len() - k,
    {
        let a = chars_of(args[k].as_str());
        let ghost sub = all.subrange(0, k + 1);
        assert(sub.drop_last() =~= all.subrange(0, k as int));
        assert(sub.last() == a@);
        if p.len() <= a.len() {
            let mut j: usize = 0;
            while j < p.len() && p[j] == a[j]
                invariant
                    0 <= j <= p@.len() <= a@.len(),
                    forall|m: int| 0 <= m < j ==> p@[m] == a@[m],
                decreases p@.len() - j,
            {
                j = j + 1;
            }
            if j == p.len() {
                assert(a@.subrange(0, p@.len() as int) =~= p@);
                let v = string_from_range(&a, p.len(), a.len());
                let ghost before = values@;
                values.push(v);
                assert(views(values@) =~= views(before).push(v@));
            } else {
                assert(a@.subrange(0, p@.len() as int)[j as int] != p@[j as int]);
            }
        }
        k = k + 1;
    }
    assert(all.subrange(0, k as int) =~= all);
    values
}

/// Whether a flag value reads as true: ASCII-lowercased it is `1`, `true`,
/// `yes` or `on`.
pub open spec fn is_true_flag(value: Seq<char>) -> bool {
    let v = value.map_values(|c: char| ascii_lower(c));
    v == "1"@ || v == "true"@ || v == "yes"@ || v == "on"@
}

/// The boolean flag `--name=value`: the first such argument decides, and
/// `default_value` holds where there is none.
pub fn parse_bool_arg(args: &[String], name: &str, default_value: bool) -> (r: bool)
    ensures
        flag_values_of(views(args@), name@).len() == 0 ==> r == default_value,
        flag_values_of(views(args@), name@).len() > 0 ==> r == is_true_flag(
            flag_values_of(views(args@), name@)[0],
        ),
        flag_values_of(views(args@), name@).len() > 0 ==> (r <==> ({
            let v = flag_values_of(views(args@), name@)[0].map_values(|c: char| ascii_lower(c));
            v == "1"@ || v == "true"@ || v == "yes"@ || v == "on"@
        })),
{
    let values = flag_values(args, name);
    if values.len() == 0 {
        return default_value;
    }
    let v = values[0].as_str();
    proof {
        assert(v@ == views(values@)[0]);
    }
    equals_ascii_lowercased(v, "1") || equals_ascii_lowercased(v, "true")
        || equals_ascii_lowercased(v, "yes") || equals_ascii_lowercased(v, "on")
}

/// The values of a flag over two runs of arguments, one after the other,
/// are those of the first run followed by those of the second.
pub proof fn lemma_flag_values_append(a: Seq<Seq<char>>, b: Seq<Seq<char>>, name: Seq<char>)
    ensures
        flag_values_of(a + b, name) == flag_values_of(a, name) + flag_values_of(b, name),
    decreases b.len(),
{
    if b.len() == 0 {
        assert(a + b =~= a);
        assert(flag_values_of(b, name) =~= Seq::<Seq<char>>::empty());
        assert(flag_values_of(a, name) + flag_values_of(b, name) =~= flag_values_of(a, name));
    } else {
        lemma_flag_values_append(a, b.drop_last(), name);
        assert((a + b).drop_last() =~= a + b.drop_last());
        assert((a + b).last() == b.last());
        let fa = flag_values_of(a, name);
        let fb = flag_values_of(b.drop_last(), name);
        let prefix = "--"@ + name + "="@;
        let l = b.last();
        if prefix.len() <= l.len() && l.subrange(0, prefix.len() as int) == prefix {
            assert(fa + fb.push(l.subrange(prefix.len() as int, l.len() as int)) =~= (fa
                + fb).push(l.subrange(prefix.len() as int, l.len() as int)));
        }
    }
}

/// The argument `--<name>=<v>` gives the flag `name` the one value `v`; an
/// argument that does not begin with `--<name>=` gives it none.
pub proof fn lemma_flag_value_of_argument(name: Seq<char>, v: Seq<char>, other: Seq<char>)
    ensures
        flag_values_of(seq!["--"@ + name + "="@ + v], name) == seq![v],
        !(other.len() >= name.len() + 3 && other.subrange(0, name.len() + 3int) == "--"@ + name
            + "="@) ==> flag_values_of(seq![other], name).len() == 0,
{
    reveal_strlit("--");
    reveal_strlit("=");
    let prefix = "--"@ + name + "="@;
    let a = prefix + v;
    assert(seq![a].drop_last() =~= Seq::<Seq<char>>::empty());
    assert(seq![other].drop_last() =~= Seq::<Seq<char>>::empty());
    assert(a.subrange(0, prefix.len() as int) =~= prefix);
    assert(a.subrange(prefix.len() as int, a.len() as int) =~= v);
    let e = Seq::<Seq<char>>::empty();
    assert(flag_values_of(e, name) == e);
    assert(seq![a].last() == a);
    assert(seq![other].last() == other);
    assert(flag_values_of(seq![a], name) == flag_values_of(e, name).push(v));
    assert(e.push(v) =~= seq![v]);
}

/// The first `--<name>=<v>` argument decides the flag: after arguments
/// that give `name` no value, `--<name>=<v>` makes `v` its first value,
/// whatever follows.
pub proof fn lemma_first_flag_value(
    before: Seq<Seq<char>>,
    name: Seq<char>,
    v: Seq<char>,
    after: Seq<Seq<char>>,
)
    requires
        flag_values_of(before, name).len() == 0,
    ensures
        flag_values_of(before + seq!["--"@ + name + "="@ + v] + after, name).len() > 0,
        flag_values_of(before + seq!["--"@ + name + "="@ + v] + after, name)[0] == v,
{
    let mid = seq!["--"@ + name + "="@ + v];
    lemma_flag_values_append(before, mid, name);
    lemma_flag_values_append(before + mid, after, name);
    lemma_flag_value_of_argument(name, v, v);
    assert(flag_values_of(before, name) + seq![v] =~= seq![v]);
}

/// ASCII lowercasing lowers exactly the capitals `A` to `Z`, each to the
/// small letter 32 places on, and keeps every other character.
pub proof fn lemma_ascii_lower_letters(c: char)
    ensures
        'A' <= c <= 'Z' ==> ascii_lower(c) as u32 == c as u32 + 32 && 'a' <= ascii_lower(c)
            <= 'z',
        !('A' <= c <= 'Z') ==> ascii_lower(c) == c,
{
}

/// Each option of the offline trainer is named by its own argument:
/// `--input`, `--output`, `--model`, `--role`, `--input-dim`,
/// `--hidden-dim`, `--d-model`, `--layers`, `--heads`, `--kv-heads`,
/// `--actions`, `--epochs`, `--lr`, `--gamma`, `--target-sync`, and
/// `--help` or `-h` for the usage text.
pub proof fn lemma_option_names()
    ensures
        option_of("--input"@) == TrainerOption::Input,
        option_of("--output"@) == TrainerOption::Output,
        option_of("--model"@) == TrainerOption::Model,
        option_of("--role"@) == TrainerOption::Role,
        option_of("--input-dim"@) == TrainerOption::InputDim,
        option_of("--hidden-dim"@) == TrainerOption::HiddenDim,
        option_of("--d-model"@) == TrainerOption::DModel,
        option_of("--layers"@) == TrainerOption::Layers,
        option_of("--heads"@) == TrainerOption::Heads,
        option_of("--kv-heads"@) == TrainerOption::KvHeads,
        option_of("--actions"@) == TrainerOption::Actions,
        option_of("--epochs"@) == TrainerOption::Epochs,
        option_of("--lr"@) == TrainerOption::LearningRate,
        option_of("--gamma"@) == TrainerOption::Gamma,
        option_of("--target-sync"@) == TrainerOption::TargetSync,
        option_of("--help"@) == TrainerOption::Help,
        option_of("-h"@) == TrainerOption::Help,
{
    reveal_strlit("--input");
    reveal_strlit("--output");
    reveal_strlit("--model");
    reveal_strlit("--role");
    reveal_strlit("--input-dim");
    reveal_strlit("--hidden-dim");
    reveal_strlit("--d-model");
    reveal_strlit("--layers");
    reveal_strlit("--heads");
    reveal_strlit("--kv-heads");
    reveal_strlit("--actions");
    reveal_strlit("--epochs");
    reveal_strlit("--lr");
    reveal_strlit("--gamma");
    reveal_strlit("--target-sync");
    reveal_strlit("--help");
    reveal_strlit("-h");
    assert("--input"@.len() == 7 && "--input"@[2] == 'i');
    assert("--output"@.len() == 8 && "--output"@[2] == 'o');
    assert("--model"@.len() == 7 && "--model"@[2] == 'm');
    assert("--role"@.len() == 6 && "--role"@[2] == 'r');
    assert("--input-dim"@.len() == 11 && "--input-dim"@[2] == 'i');
    assert("--hidden-dim"@.len() == 12 && "--hidden-dim"@[2] == 'h');
    assert("--d-model"@.len() == 9 && "--d-model"@[2] == 'd');
    assert("--layers"@.len() == 8 && "--layers"@[2] == 'l');
    assert("--heads"@.len() == 7 && "--heads"@[2] == 'h');
    assert("--kv-heads"@.len() == 10 && "--kv-heads"@[2] == 'k');
    assert("--actions"@.len() == 9 && "--actions"@[2] == 'a');
    assert("--epochs"@.len() == 8 && "--epochs"@[2] == 'e');
    assert("--lr"@.len() == 4 && "--lr"@[2] == 'l');
    assert("--gamma"@.len() == 7 && "--gamma"@[2] == 'g');
    assert("--target-sync"@.len() == 13 && "--target-sync"@[2] == 't');
    assert("--help"@.len() == 6 && "--help"@[2] == 'h');
    assert("-h"@.len() == 2);
}

/// A whole-number option followed by a value that reads as the count `n`
/// sets its own setting to `n` and leaves every other setting as it was;
/// reading goes on two arguments later.
pub proof fn lemma_count_option_sets_its_field(
    args: Seq<Seq<char>>,
    numeric: Seq<bool>,
    i: int,
    cfg: TrainerConfigView,
    n: usize,
)
    requires
        0 <= i,
        i + 1 < args.len(),
        parsed_usize(args[i + 1]) == Some(n),
    ensures
        args[i] == "--input-dim"@ ==> scan_args(args, numeric, i, cfg) == scan_args(
            args,
            numeric,
            i + 2,
            (TrainerConfigView { input_dim: n, ..cfg }),
        ),
        args[i] == "--hidden-dim"@ ==> scan_args(args, numeric, i, cfg) == scan_args(
            args,
            numeric,
            i + 2,
            (TrainerConfigView { hidden_dim: n, ..cfg }),
        ),
        args[i] == "--d-model"@ ==> scan_args(args, numeric, i, cfg) == scan_args(
            args,
            numeric,
            i + 2,
            (TrainerConfigView { d_model: n, ..cfg }),
        ),
        args[i] == "--layers"@ ==> scan_args(args, numeric, i, cfg) == scan_args(
            args,
            numeric,
            i + 2,
            (TrainerConfigView { layers: n, ..cfg }),
        ),
        args[i] == "--heads"@ ==> scan_args(args, numeric, i, cfg) == scan_args(
            args,
            numeric,
            i + 2,
            (TrainerConfigView { heads: n, ..cfg }),
        ),
        args[i] == "--kv-heads"@ ==> scan_args(args, numeric, i, cfg) == scan_args(
            args,
            numeric,
            i + 2,
            (TrainerConfigView { kv_heads: n, ..cfg }),
        ),
        args[i] == "--actions"@ ==> scan_args(args, numeric, i, cfg) == scan_args(
            args,
            numeric,
            i + 2,
            (TrainerConfigView { actions: n, ..cfg }),
        ),
        args[i] == "--epochs"@ ==> scan_args(args, numeric, i, cfg) == scan_args(
            args,
            numeric,
            i + 2,
            (TrainerConfigView { epochs: n, ..cfg }),
        ),
        args[i] == "--target-sync"@ ==> scan_args(args, numeric, i, cfg) == scan_args(
            args,
            numeric,
            i + 2,
            (TrainerConfigView { target_sync: n, ..cfg }),
        ),
{
    lemma_option_names();
}

/// A whole-number option followed by a value that does not read as a count
/// is refused with that option and that value.
pub proof fn lemma_count_option_refuses_non_count(
    args: Seq<Seq<char>>,
    numeric: Seq<bool>,
    i: int,
    cfg: TrainerConfigView,
)
    requires
        0 <= i,
        i + 1 < args.len(),
        parsed_usize(args[i + 1]) is None,
        args[i] == "--input-dim"@ || args[i] == "--hidden-dim"@ || args[i] == "--d-model"@ || args[i] == "--layers"@ || args[i] == "--heads"@ || args[i] == "--kv-heads"@ || args[i] == "--actions"@ || args[i] == "--epochs"@ || args[i] == "--target-sync"@,
    ensures
        scan_args(args, numeric, i, cfg) == Err::<TrainerArgsView, ArgErrorView>(
            ArgErrorView::InvalidNumber(args[i], args[i + 1]),
        ),
{
    lemma_option_names();
}

/// A text option sets its own setting to the next argument (`--model` and
/// `--role` lowercased) and leaves every other setting as it was; `--lr`
/// and `--gamma` do so where that argument reads as a number, and are
/// refused with it otherwise.
pub proof fn lemma_text_option_sets_its_field(
    args: Seq<Seq<char>>,
    numeric: Seq<bool>,
    i: int,
    cfg: TrainerConfigView,
)
    requires
        0 <= i,
        i + 1 < args.len(),
    ensures
        args[i] == "--input"@ ==> scan_args(args, numeric, i, cfg) == scan_args(
            args,
            numeric,
            i + 2,
            (TrainerConfigView { input_path: args[i + 1], ..cfg }),
        ),
        args[i] == "--output"@ ==> scan_args(args, numeric, i, cfg) == scan_args(
            args,
            numeric,
            i + 2,
            (TrainerConfigView { output_path: args[i + 1], ..cfg }),
        ),
        args[i] == "--model"@ ==> scan_args(args, numeric, i, cfg) == scan_args(
            args,
            numeric,
            i + 2,
            (TrainerConfigView { model: unicode_lowercase(args[i + 1]), ..cfg }),
        ),
        args[i] == "--role"@ ==> scan_args(args, numeric, i, cfg) == scan_args(
            args,
            numeric,
            i + 2,
            (TrainerConfigView { role: unicode_lowercase(args[i + 1]), ..cfg }),
        ),
        args[i] == "--lr"@ && reads_as_number(numeric, i + 1) ==> scan_args(args, numeric, i, cfg)
            == scan_args(
            args,
            numeric,
            i + 2,
            (TrainerConfigView { learning_rate: args[i + 1], ..cfg }),
        ),
        args[i] == "--gamma"@ && reads_as_number(numeric, i + 1) ==> scan_args(
            args,
            numeric,
            i,
            cfg,
        ) == scan_args(args, numeric, i + 2, (TrainerConfigView { gamma: args[i + 1], ..cfg })),
        (args[i] == "--lr"@ || args[i] == "--gamma"@) && !reads_as_number(numeric, i + 1)
            ==> scan_args(args, numeric, i, cfg) == Err::<TrainerArgsView, ArgErrorView>(
            ArgErrorView::InvalidNumber(args[i], args[i + 1]),
        ),
{
    lemma_option_names();
}

/// Once every argument is read the settings are final: all of them stay as
/// read, but for the role, which becomes `player` where there are
/// `PLAYER_FEATURE_COUNT` inputs and the role was left `zombie`.
pub proof fn lemma_scan_end(args: Seq<Seq<char>>, numeric: Seq<bool>, cfg: TrainerConfigView)
    ensures
        scan_args(args, numeric, args.len() as int, cfg) == Ok::<TrainerArgsView, ArgErrorView>(
            TrainerArgsView::Run(finish_config(cfg)),
        ),
        (TrainerConfigView { role: cfg.role, ..finish_config(cfg) }) == cfg,
        finish_config(cfg).role == (if cfg.input_dim == PLAYER_FEATURE_COUNT && cfg.role
            == "zombie"@ {
            "player"@
        } else {
            cfg.role
        }),
{
}

} // verus!
