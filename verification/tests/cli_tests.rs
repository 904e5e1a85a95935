use cargo_pup::cli::{PupArgs, PupCommand};

fn parse_args(args: &[&str]) -> PupArgs {
    let args: Vec<String> = args.iter().map(|s| s.to_string()).collect();
    PupArgs::parse(args)
}

#[test]
fn test_basic_command_parsing() {
    let args = parse_args(&["cargo-pup"]);
    assert_eq!(args.command, PupCommand::Check);
    assert!(args.cargo_args.is_empty());

    let args = parse_args(&["cargo-pup", "print-modules"]);
    assert_eq!(args.command, PupCommand::PrintModules);
    assert!(args.cargo_args.is_empty());

    let args = parse_args(&["cargo-pup", "print-traits"]);
    assert_eq!(args.command, PupCommand::PrintTraits);
    assert!(args.cargo_args.is_empty());

    let args = parse_args(&["cargo-pup", "check"]);
    assert_eq!(args.command, PupCommand::Check);
    assert!(args.cargo_args.is_empty());

    let args = parse_args(&["cargo-pup", "generate-config"]);
    assert_eq!(args.command, PupCommand::GenerateConfig);
    assert!(args.cargo_args.is_empty());
}

#[test]
fn test_command_with_cargo_args() {
    let args = parse_args(&["cargo-pup", "print-modules", "--features=foo"]);
    assert_eq!(args.command, PupCommand::PrintModules);
    assert_eq!(args.cargo_args, vec!["--features=foo"]);

    let args = parse_args(&[
        "cargo-pup",
        "check",
        "--features=foo",
        "--manifest-path=Cargo.toml",
    ]);
    assert_eq!(args.command, PupCommand::Check);
    assert_eq!(
        args.cargo_args,
        vec!["--features=foo", "--manifest-path=Cargo.toml"]
    );
}

#[test]
fn test_with_cargo_pup_invocation() {
    let args = parse_args(&["cargo", "pup", "print-modules"]);
    assert_eq!(args.command, PupCommand::PrintModules);
    assert!(args.cargo_args.is_empty());

    let args = parse_args(&["cargo", "pup", "print-modules", "--features=foo"]);
    assert_eq!(args.command, PupCommand::PrintModules);
    assert_eq!(args.cargo_args, vec!["--features=foo"]);
}

#[test]
fn test_pup_config_argument() {
    let args = parse_args(&["cargo-pup", "check", "--pup-config", "/tmp/pup.ron"]);
    assert_eq!(args.command, PupCommand::Check);
    assert_eq!(args.config_path, Some("/tmp/pup.ron".to_string()));
    assert!(args.cargo_args.is_empty());

    let args = parse_args(&[
        "cargo-pup",
        "check",
        "--pup-config",
        "/tmp/pup.ron",
        "--features=foo",
    ]);
    assert_eq!(args.command, PupCommand::Check);
    assert_eq!(args.config_path, Some("/tmp/pup.ron".to_string()));
    assert_eq!(args.cargo_args, vec!["--features=foo"]);

    let args = parse_args(&["cargo", "pup", "check", "--pup-config", "/tmp/pup.ron"]);
    assert_eq!(args.command, PupCommand::Check);
    assert_eq!(args.config_path, Some("/tmp/pup.ron".to_string()));
    assert!(args.cargo_args.is_empty());
}

#[test]
fn test_unknown_args() {
    let args = parse_args(&["cargo-pup", "--features=foo"]);
    assert_eq!(args.command, PupCommand::Check);
    assert_eq!(args.cargo_args, vec!["--features=foo"]);

    let args = parse_args(&["cargo-pup", "unknown-command", "--features=foo"]);
    assert_eq!(args.command, PupCommand::Check);
    assert_eq!(args.cargo_args, vec!["unknown-command", "--features=foo"]);
}

#[test]
fn test_real_world_examples() {
    let args = parse_args(&["cargo", "pup", "print-modules", "--features=test-feature"]);
    assert_eq!(args.command, PupCommand::PrintModules);
    assert_eq!(args.cargo_args, vec!["--features=test-feature"]);
}

#[test]
fn pup_config_flag_without_value_is_dropped() {
    let args = parse_args(&["cargo-pup", "check", "--pup-config"]);
    assert_eq!(args.command, PupCommand::Check);
    assert_eq!(args.config_path, None);
    assert!(args.cargo_args.is_empty());
}

#[test]
fn later_pup_config_wins() {
    let args = parse_args(&["cargo-pup", "--pup-config", "a.ron", "x", "--pup-config", "b.ron"]);
    assert_eq!(args.config_path, Some("b.ron".to_string()));
    assert_eq!(args.cargo_args, vec!["x"]);
}
