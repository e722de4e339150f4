use zombie_policy_core::args::{
    flag_values, model_kind, parse_bool_arg, parse_trainer_args, trainer_feature_names, ArgError,
    ConfigError, ModelKind, TrainerArgs, TrainerConfig,
};
use zombie_policy_core::names::{
    action_names_for_role, feature_names_for_dim, PLAYER_ACTION_NAMES, ZOMBIE_ACTION_NAMES,
};
use zombie_policy_core::{FEATURE_NAMES, PLAYER_FEATURE_NAMES};

fn strings(items: &[&str]) -> Vec<String> {
    items.iter().map(|s| s.to_string()).collect()
}

fn numeric(args: &[String]) -> Vec<bool> {
    args.iter().map(|a| a.parse::<f32>().is_ok()).collect()
}

fn parse(items: &[&str]) -> Result<TrainerArgs, ArgError> {
    let args = strings(items);
    parse_trainer_args(&args, &numeric(&args))
}

fn run(items: &[&str]) -> TrainerConfig {
    match parse(items) {
        Ok(TrainerArgs::Run(config)) => config,
        other => panic!("unexpected {other:?}"),
    }
}

#[test]
fn defaults_without_arguments() {
    let config = run(&[]);
    assert_eq!(config.model, "mlp");
    assert_eq!(config.role, "zombie");
    assert_eq!(config.input_dim, 23);
    assert_eq!(config.hidden_dim, 275);
    assert_eq!(config.d_model, 40);
    assert_eq!(config.layers, 2);
    assert_eq!(config.heads, 4);
    assert_eq!(config.kv_heads, 1);
    assert_eq!(config.actions, 5);
    assert_eq!(config.epochs, 100);
    assert_eq!(config.learning_rate, "0.006");
    assert_eq!(config.gamma, "0.96");
    assert_eq!(config.target_sync, 64);
    assert!(config.input_path.is_empty());
}

#[test]
fn options_take_the_next_argument() {
    let config = run(&[
        "--input", "in.csv", "--output", "out.json", "--model", "ATTENTION", "--d-model", "24",
        "--heads", "2", "--kv-heads", "3", "--lr", "0.01", "--gamma", "0.9", "--epochs", "7",
        "--epochs", "8",
    ]);
    assert_eq!(config.input_path, "in.csv");
    assert_eq!(config.output_path, "out.json");
    assert_eq!(config.model, "attention");
    assert_eq!(config.d_model, 24);
    assert_eq!(config.heads, 2);
    assert_eq!(config.kv_heads, 3);
    assert_eq!(config.learning_rate, "0.01");
    assert_eq!(config.gamma, "0.9");
    assert_eq!(config.epochs, 8);
}

#[test]
fn player_width_switches_the_default_role() {
    assert_eq!(run(&["--input-dim", "15"]).role, "player");
    assert_eq!(run(&["--input-dim", "15", "--role", "Zombie"]).role, "player");
    assert_eq!(run(&["--input-dim", "15", "--role", "boss"]).role, "boss");
    assert_eq!(run(&["--input-dim", "23"]).role, "zombie");
}

#[test]
fn argument_errors() {
    match parse(&["--epochs"]) {
        Err(ArgError::MissingValue { name }) => assert_eq!(name, "--epochs"),
        other => panic!("unexpected {other:?}"),
    }
    match parse(&["--bogus", "1"]) {
        Err(ArgError::UnknownArgument { arg }) => assert_eq!(arg, "--bogus"),
        other => panic!("unexpected {other:?}"),
    }
    match parse(&["--layers", "two"]) {
        Err(ArgError::InvalidNumber { name, value }) => {
            assert_eq!(name, "--layers");
            assert_eq!(value, "two");
        }
        other => panic!("unexpected {other:?}"),
    }
    match parse(&["--lr", "fast", "--bogus"]) {
        Err(ArgError::InvalidNumber { name, .. }) => assert_eq!(name, "--lr"),
        other => panic!("unexpected {other:?}"),
    }
    assert!(matches!(parse(&["-h", "--bogus"]), Ok(TrainerArgs::Help)));
    assert!(matches!(parse(&["--epochs", "3", "--help"]), Ok(TrainerArgs::Help)));
}

#[test]
fn model_kinds() {
    assert_eq!(model_kind("mlp"), Some(ModelKind::Mlp));
    assert_eq!(model_kind("attention"), Some(ModelKind::Attention));
    assert_eq!(model_kind("lstm"), None);
}

#[test]
fn settings_are_checked_in_order() {
    let mut config = run(&["--input", "a", "--output", "b"]);
    assert_eq!(trainer_feature_names(&config).unwrap().to_vec(), FEATURE_NAMES.to_vec());
    config.input_dim = 15;
    assert_eq!(trainer_feature_names(&config).unwrap().to_vec(), PLAYER_FEATURE_NAMES.to_vec());
    config.input_dim = 7;
    assert_eq!(
        trainer_feature_names(&config),
        Err(ConfigError::UnsupportedInputDim { input_dim: 7 })
    );
    config.actions = 4;
    assert_eq!(trainer_feature_names(&config), Err(ConfigError::UnsupportedActions));
    config.output_path.clear();
    assert_eq!(trainer_feature_names(&config), Err(ConfigError::MissingPaths));
}

#[test]
fn names_by_role_and_width() {
    assert_eq!(action_names_for_role("player").to_vec(), PLAYER_ACTION_NAMES.to_vec());
    assert_eq!(action_names_for_role("zombie").to_vec(), ZOMBIE_ACTION_NAMES.to_vec());
    assert_eq!(action_names_for_role("Player").to_vec(), ZOMBIE_ACTION_NAMES.to_vec());
    assert_eq!(feature_names_for_dim(23).unwrap().len(), 23);
    assert_eq!(feature_names_for_dim(15).unwrap().len(), 15);
    assert_eq!(feature_names_for_dim(16), Err(16));
}

#[test]
fn flags_are_read_from_name_equals_value() {
    let args = strings(&["prog", "--seed=7", "--dt=0.1", "--seed=9", "--seedling=3", "--resume=ON"]);
    assert_eq!(flag_values(&args, "seed"), strings(&["7", "9"]));
    assert_eq!(flag_values(&args, "dt"), strings(&["0.1"]));
    assert!(flag_values(&args, "lr").is_empty());
    assert!(parse_bool_arg(&args, "resume", false));
    assert!(parse_bool_arg(&args, "sweep-capacity", true));
    assert!(!parse_bool_arg(&args, "sweep-capacity", false));
    let off = strings(&["--resume=nope", "--resume=true"]);
    assert!(!parse_bool_arg(&off, "resume", true));
    let yes = strings(&["--compare-rule-expert=Yes"]);
    assert!(parse_bool_arg(&yes, "compare-rule-expert", false));
    let one = strings(&["--x=1"]);
    assert!(parse_bool_arg(&one, "x", false));
}

#[test]
fn counts_read_as_std_parses_them() {
    assert_eq!(run(&["--epochs", "+8"]).epochs, 8);
    assert_eq!(run(&["--epochs", "007"]).epochs, 7);
    for bad in ["-1", "", "+", " 8", "8 ", "1_000", "99999999999999999999999"] {
        match parse(&["--epochs", bad]) {
            Err(ArgError::InvalidNumber { value, .. }) => assert_eq!(value, bad),
            other => panic!("unexpected {other:?} for {bad:?}"),
        }
    }
}
