use zk_whitelist::cli::{AllCommand, Cli, CliError, ProofsCommand, SubCommand};
use zk_whitelist::commands::all::all_steps;

#[test]
fn test_parse_circuit_subcommand() {
    let args = Cli::parse_from(&["zk_whitelist", "circuit"]);
    assert_eq!(args.subcmd, SubCommand::Circuit);
}

#[test]
fn test_parse_compile_subcommand() {
    let args = Cli::parse_from(&["zk_whitelist", "compile"]);
    assert_eq!(args.subcmd, SubCommand::Compile);
}

#[test]
fn test_parse_setup_subcommand() {
    let args = Cli::parse_from(&["zk_whitelist", "setup"]);
    assert_eq!(args.subcmd, SubCommand::Setup);
}

#[test]
fn test_parse_verifier_subcommand() {
    let args = Cli::parse_from(&["zk_whitelist", "verifier"]);
    assert_eq!(args.subcmd, SubCommand::Verifier);
}

#[test]
fn test_movejs_subcommand() {
    let args = Cli::parse_from(&["zk_whitelist", "movejs"]);
    assert_eq!(args.subcmd, SubCommand::Movejs);
}

#[test]
fn test_parse_proofs_subcommand_with_default_value() {
    let args = Cli::parse_from(&["zk_whitelist", "proofs"]);
    assert_eq!(
        args.subcmd,
        SubCommand::Proofs(ProofsCommand {
            input_file: "addresses.txt".to_string()
        })
    );
}

#[test]
fn test_parse_proofs_subcommand_with_custom_value() {
    let args = Cli::parse_from(&["zk_whitelist", "proofs", "--input-file", "custom.txt"]);
    assert_eq!(
        args.subcmd,
        SubCommand::Proofs(ProofsCommand {
            input_file: "custom.txt".to_string()
        })
    );
}

#[test]
fn test_parse_all_subcommand_with_default_value() {
    let args = Cli::parse_from(&["zk_whitelist", "all"]);
    assert_eq!(
        args.subcmd,
        SubCommand::All(AllCommand {
            input_file: "addresses.txt".to_string()
        })
    );
}

#[test]
fn test_parse_all_subcommand_with_custom_value() {
    let args = Cli::parse_from(&["zk_whitelist", "all", "--input-file", "custom.txt"]);
    assert_eq!(
        args.subcmd,
        SubCommand::All(AllCommand {
            input_file: "custom.txt".to_string()
        })
    );
}

#[test]
fn parse_token_subcommand() {
    let args = Cli::parse_from(&["zk_whitelist", "token"]);
    assert_eq!(args.subcmd, SubCommand::Token);
}

#[test]
fn parse_input_file_with_equals_sign() {
    let args = Cli::parse_from(&["zk_whitelist", "proofs", "--input-file=list.txt"]);
    assert_eq!(
        args.subcmd,
        SubCommand::Proofs(ProofsCommand {
            input_file: "list.txt".to_string()
        })
    );
}

#[test]
fn parse_empty_attached_value() {
    let args = Cli::parse_from(&["zk_whitelist", "all", "--input-file="]);
    assert_eq!(
        args.subcmd,
        SubCommand::All(AllCommand {
            input_file: String::new()
        })
    );
}

#[test]
fn refuse_missing_subcommand() {
    assert_eq!(
        Cli::try_parse_from(&["zk_whitelist"]),
        Err(CliError::MissingSubcommand)
    );
    assert_eq!(Cli::try_parse_from(&[]), Err(CliError::MissingSubcommand));
}

#[test]
fn refuse_unknown_subcommand() {
    assert_eq!(
        Cli::try_parse_from(&["zk_whitelist", "unrecognized"]),
        Err(CliError::UnknownSubcommand)
    );
    assert_eq!(
        Cli::try_parse_from(&["zk_whitelist", "Circuit"]),
        Err(CliError::UnknownSubcommand)
    );
}

#[test]
fn refuse_argument_after_bare_subcommand() {
    assert_eq!(
        Cli::try_parse_from(&["zk_whitelist", "compile", "extra"]),
        Err(CliError::UnexpectedArgument)
    );
    assert_eq!(
        Cli::try_parse_from(&["zk_whitelist", "setup", "--input-file", "a.txt"]),
        Err(CliError::UnexpectedArgument)
    );
}

#[test]
fn refuse_unknown_option() {
    assert_eq!(
        Cli::try_parse_from(&["zk_whitelist", "proofs", "--output", "a.txt"]),
        Err(CliError::UnexpectedArgument)
    );
    assert_eq!(
        Cli::try_parse_from(&["zk_whitelist", "proofs", "--input-filex=a.txt"]),
        Err(CliError::UnexpectedArgument)
    );
}

#[test]
fn refuse_option_without_value() {
    assert_eq!(
        Cli::try_parse_from(&["zk_whitelist", "proofs", "--input-file"]),
        Err(CliError::MissingValue)
    );
}

#[test]
fn refuse_repeated_option() {
    assert_eq!(
        Cli::try_parse_from(&[
            "zk_whitelist",
            "all",
            "--input-file",
            "a.txt",
            "--input-file=b.txt"
        ]),
        Err(CliError::RepeatedOption)
    );
}

#[test]
fn all_runs_every_step_in_order() {
    let steps = all_steps(&AllCommand {
        input_file: "list.txt".to_string(),
    });
    assert_eq!(
        steps,
        vec![
            SubCommand::Circuit,
            SubCommand::Compile,
            SubCommand::Setup,
            SubCommand::Verifier,
            SubCommand::Token,
            SubCommand::Movejs,
            SubCommand::Proofs(ProofsCommand {
                input_file: "list.txt".to_string()
            }),
        ]
    );
}
