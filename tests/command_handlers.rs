use fake::{faker::lorem::en::Sentence, Fake};
use zk_whitelist::commands::compile::handle_compile_subcommand;
use zk_whitelist::commands::movejs::handle_movejs_subcommand;
use zk_whitelist::commands::setup::{execute_setup_command, handle_setup_subcommand};
use zk_whitelist::commands::verifier_export::handle_verifier_subcommand;
use zk_whitelist::utils::command_runner::{run_snarkjs_command, CommandRunner, MockCommandRunner};
use zk_whitelist::utils::filesystem_operations::MockFileSystemOps;

fn strings(items: &[&str]) -> Vec<String> {
    items.iter().map(|s| s.to_string()).collect()
}

/// A runner whose runs fail from the `n`-th on, counting from zero.
struct FailingFrom {
    n: usize,
    seen: Vec<(String, Vec<String>)>,
}

impl CommandRunner for FailingFrom {
    fn run(&mut self, command: &str, args: &[&str]) -> Result<(), String> {
        self.seen.push((command.to_string(), strings(args)));
        if self.seen.len() > self.n {
            Err("exit status 1".to_string())
        } else {
            Ok(())
        }
    }
}

#[test]
fn test_handle_compile_subcommand() {
    let mut runner = MockCommandRunner::new();
    let result = handle_compile_subcommand(&mut runner);
    assert!(result.is_ok());
    assert_eq!(
        runner.calls(),
        vec![(
            "circom".to_string(),
            vec![
                "circuit.circom".to_string(),
                "--r1cs".to_string(),
                "--sym".to_string(),
                "--wasm".to_string(),
            ]
        )]
    );
}

#[test]
fn test_handle_movejs_subcommand() {
    let mut fs_ops = MockFileSystemOps::new();
    let result = handle_movejs_subcommand(&mut fs_ops);
    assert!(result.is_ok());
    assert_eq!(
        fs_ops.operations(),
        vec![("circuit_js".to_string(), ".".to_string())]
    );
}

#[test]
fn test_handle_verifier_subcommand() {
    let mut runner = MockCommandRunner::new();
    let result = handle_verifier_subcommand(&mut runner);
    assert!(result.is_ok());
    assert_eq!(
        runner.calls(),
        vec![(
            "snarkjs".to_string(),
            vec![
                "zkey".to_string(),
                "export".to_string(),
                "solidityverifier".to_string(),
                "circuit_0001.zkey".to_string(),
                "verifier.sol".to_string(),
            ]
        )]
    );
}

#[test]
fn test_run_snarkjs_command() {
    let mut mock_runner = MockCommandRunner::new();
    let args = &["arg1", "arg2"];
    let result = run_snarkjs_command(&mut mock_runner, args);
    assert!(result.is_ok());
    assert_eq!(
        mock_runner.calls(),
        vec![(
            "snarkjs".to_string(),
            vec!["arg1".to_string(), "arg2".to_string()]
        )]
    );
}

fn expected_setup_calls(random_name: &str, random_text: &str) -> Vec<(String, Vec<String>)> {
    vec![
        (
            "snarkjs".to_string(),
            strings(&["powersoftau", "new", "bn128", "12", "pot12_0000.ptau", "-v"]),
        ),
        (
            "snarkjs".to_string(),
            vec![
                "powersoftau".to_string(),
                "contribute".to_string(),
                "pot12_0000.ptau".to_string(),
                "pot12_0001.ptau".to_string(),
                format!("--name=\"{}\"", random_name),
                "-v".to_string(),
                format!("-e=\"{}\"", random_text),
            ],
        ),
        (
            "snarkjs".to_string(),
            strings(&[
                "powersoftau",
                "prepare",
                "phase2",
                "pot12_0001.ptau",
                "pot12_final.ptau",
                "-v",
            ]),
        ),
        (
            "snarkjs".to_string(),
            strings(&[
                "groth16",
                "setup",
                "circuit.r1cs",
                "pot12_final.ptau",
                "circuit_0000.zkey",
            ]),
        ),
        (
            "snarkjs".to_string(),
            vec![
                "zkey".to_string(),
                "contribute".to_string(),
                "circuit_0000.zkey".to_string(),
                "circuit_0001.zkey".to_string(),
                format!("--name=\"{}\"", random_name),
                "-v".to_string(),
                format!("-e=\"{}\"", random_text),
            ],
        ),
        (
            "snarkjs".to_string(),
            strings(&[
                "zkey",
                "export",
                "verificationkey",
                "circuit_0001.zkey",
                "verification_key.json",
            ]),
        ),
    ]
}

#[test]
fn test_execute_setup_command() {
    let mut runner = MockCommandRunner::new();
    let random_name: String = Sentence(2..3).fake();
    let random_text: String = Sentence(3..4).fake();
    let result = handle_setup_subcommand(&mut runner, random_name.clone(), random_text.clone());
    assert!(result.is_ok());
    assert_eq!(runner.calls(), expected_setup_calls(&random_name, &random_text));
}

#[test]
fn setup_signs_contributions_with_given_words() {
    let mut runner = MockCommandRunner::new();
    let result = execute_setup_command(&mut runner, "Alpha beta.".to_string(), "".to_string());
    assert!(result.is_ok());
    let calls = runner.calls();
    assert_eq!(calls[1].1[4], "--name=\"Alpha beta.\"");
    assert_eq!(calls[1].1[6], "-e=\"\"");
    assert_eq!(calls[4].1[4], "--name=\"Alpha beta.\"");
}

#[test]
fn setup_stops_at_first_failure() {
    for n in 0..6 {
        let mut runner = FailingFrom { n, seen: Vec::new() };
        let result = execute_setup_command(&mut runner, "a".to_string(), "b".to_string());
        assert!(result.is_err());
        assert_eq!(runner.seen, expected_setup_calls("a", "b")[..n + 1].to_vec());
    }
    let mut runner = FailingFrom { n: 6, seen: Vec::new() };
    assert!(execute_setup_command(&mut runner, "a".to_string(), "b".to_string()).is_ok());
    assert_eq!(runner.seen.len(), 6);
}

#[test]
fn compile_failure_is_an_error() {
    let mut runner = FailingFrom { n: 0, seen: Vec::new() };
    let result = handle_compile_subcommand(&mut runner);
    assert!(result.is_err());
    assert_eq!(runner.seen.len(), 1);
}
