use crate::utils::command_runner::{
    arg_texts, completed, lemma_next_step, lemma_no_steps, ran_until_failure, run_record,
    run_snarkjs_command, snarkjs, CommandRunner, Invocation,
};
use vstd::prelude::*;

verus! {

/// `flag="value"`, one argument.
pub open spec fn quoted_option(flag: Seq<char>, value: Seq<char>) -> Seq<char> {
    flag + "=\""@ + value + "\""@
}

pub open spec fn start_ceremony_invocation() -> Invocation {
    snarkjs(seq!["powersoftau"@, "new"@, "bn128"@, "12"@, "pot12_0000.ptau"@, "-v"@])
}

pub open spec fn contribute_to_ceremony_invocation(name: Seq<char>, text: Seq<char>) -> Invocation {
    snarkjs(
        seq![
            "powersoftau"@,
            "contribute"@,
            "pot12_0000.ptau"@,
            "pot12_0001.ptau"@,
            quoted_option("--name"@, name),
            "-v"@,
            quoted_option("-e"@, text),
        ],
    )
}

pub open spec fn prepare_phase_2_invocation() -> Invocation {
    snarkjs(
        seq!["powersoftau"@, "prepare"@, "phase2"@, "pot12_0001.ptau"@, "pot12_final.ptau"@, "-v"@],
    )
}

pub open spec fn generate_zkey_invocation() -> Invocation {
    snarkjs(
        seq!["groth16"@, "setup"@, "circuit.r1cs"@, "pot12_final.ptau"@, "circuit_0000.zkey"@],
    )
}

pub open spec fn contribute_to_phase_2_invocation(name: Seq<char>, text: Seq<char>) -> Invocation {
    snarkjs(
        seq![
            "zkey"@,
            "contribute"@,
            "circuit_0000.zkey"@,
            "circuit_0001.zkey"@,
            quoted_option("--name"@, name),
            "-v"@,
            quoted_option("-e"@, text),
        ],
    )
}

pub open spec fn export_verification_key_invocation() -> Invocation {
    snarkjs(
        seq![
            "zkey"@,
            "export"@,
            "verificationkey"@,
            "circuit_0001.zkey"@,
            "verification_key.json"@,
        ],
    )
}

/// The trusted-setup ceremony, step by step: a new powers-of-tau file, one
/// contribution to it, its preparation for phase 2, the initial proving key,
/// one contribution to that key, and the export of the verification key.
/// `name` and `text` sign both contributions.
pub open spec fn setup_plan(name: Seq<char>, text: Seq<char>) -> Seq<Invocation> {
    seq![
        start_ceremony_invocation(),
        contribute_to_ceremony_invocation(name, text),
        prepare_phase_2_invocation(),
        generate_zkey_invocation(),
        contribute_to_phase_2_invocation(name, text),
        export_verification_key_invocation(),
    ]
}

/// The argument `flag="value"`.
fn quoted_option_arg(flag: &str, value: &String) -> (r: String)
    ensures
        r@ == quoted_option(flag@, value@),
{
    let mut r = flag.to_string();
    r.append("=\"");
    r.append(value.as_str());
    r.append("\"");
    r
}

fn start_ceremony<R: CommandRunner>(runner: &mut R) -> (r: std::io::Result<()>)
    ensures
        final(runner).history() == old(runner).history().push(
            run_record(start_ceremony_invocation(), r is Ok),
        ),
{
    let args: [&str; 6] = ["powersoftau", "new", "bn128", "12", "pot12_0000.ptau", "-v"];
    assert(arg_texts(args@) =~= start_ceremony_invocation().args);
    run_snarkjs_command(runner, &args)
}

fn contribute_to_ceremony<R: CommandRunner>(
    runner: &mut R,
    random_name: String,
    random_text: String,
) -> (r: std::io::Result<()>)
    ensures
        final(runner).history() == old(runner).history().push(
            run_record(contribute_to_ceremony_invocation(random_name@, random_text@), r is Ok),
        ),
{
    let name = quoted_option_arg("--name", &random_name);
    let text = quoted_option_arg("-e", &random_text);
    let args: [&str; 7] = [
        "powersoftau",
        "contribute",
        "pot12_0000.ptau",
        "pot12_0001.ptau",
        name.as_str(),
        "-v",
        text.as_str(),
    ];
    assert(arg_texts(args@) =~= contribute_to_ceremony_invocation(random_name@, random_text@).args);
    run_snarkjs_command(runner, &args)
}

fn prepare_phase_2<R: CommandRunner>(runner: &mut R) -> (r: std::io::Result<()>)
    ensures
        final(runner).history() == old(runner).history().push(
            run_record(prepare_phase_2_invocation(), r is Ok),
        ),
{
    let args: [&str; 6] = [
        "powersoftau",
        "prepare",
        "phase2",
        "pot12_0001.ptau",
        "pot12_final.ptau",
        "-v",
    ];
    assert(arg_texts(args@) =~= prepare_phase_2_invocation().args);
    run_snarkjs_command(runner, &args)
}

fn generate_zkey<R: CommandRunner>(runner: &mut R) -> (r: std::io::Result<()>)
    ensures
        final(runner).history() == old(runner).history().push(
            run_record(generate_zkey_invocation(), r is Ok),
        ),
{
    let args: [&str; 5] = [
        "groth16",
        "setup",
        "circuit.r1cs",
        "pot12_final.ptau",
        "circuit_0000.zkey",
    ];
    assert(arg_texts(args@) =~= generate_zkey_invocation().args);
    run_snarkjs_command(runner, &args)
}

fn contribute_to_phase_2<R: CommandRunner>(
    runner: &mut R,
    random_name: String,
    random_text: String,
) -> (r: std::io::Result<()>)
    ensures
        final(runner).history() == old(runner).history().push(
            run_record(contribute_to_phase_2_invocation(random_name@, random_text@), r is Ok),
        ),
{
    let name = quoted_option_arg("--name", &random_name);
    let text = quoted_option_arg("-e", &random_text);
    let args: [&str; 7] = [
        "zkey",
        "contribute",
        "circuit_0000.zkey",
        "circuit_0001.zkey",
        name.as_str(),
        "-v",
        text.as_str(),
    ];
    assert(arg_texts(args@) =~= contribute_to_phase_2_invocation(random_name@, random_text@).args);
    run_snarkjs_command(runner, &args)
}

fn export_verification_key<R: CommandRunner>(runner: &mut R) -> (r: std::io::Result<()>)
    ensures
        final(runner).history() == old(runner).history().push(
            run_record(export_verification_key_invocation(), r is Ok),
        ),
{
    let args: [&str; 5] = [
        "zkey",
        "export",
        "verificationkey",
        "circuit_0001.zkey",
        "verification_key.json",
    ];
    assert(arg_texts(args@) =~= export_verification_key_invocation().args);
    run_snarkjs_command(runner, &args)
}

/// Runs the trusted-setup ceremony of `setup_plan`, one step after another,
/// and stops at the first step that fails.
pub fn execute_setup_command<R: CommandRunner>(
    runner: &mut R,
    random_name: String,
    random_text: String,
) -> (r: std::io::Result<()>)
    ensures
        ran_until_failure(
            old(runner).history(),
            final(runner).history(),
            setup_plan(random_name@, random_text@),
        ),
        r is Ok <==> completed(
            old(runner).history(),
            final(runner).history(),
            setup_plan(random_name@, random_text@),
        ),
{
    let ghost before = runner.history();
    let ghost plan = setup_plan(random_name@, random_text@);
    proof {
        lemma_no_steps(before, plan);
    }

    let ghost mid = runner.history();
    let r = start_ceremony(runner);
    proof {
        lemma_next_step(before, mid, plan, 0, runner.history().last());
    }
    if r.is_err() {
        return r;
    }

    let ghost mid = runner.history();
    let r = contribute_to_ceremony(runner, random_name.clone(), random_text.clone());
    proof {
        lemma_next_step(before, mid, plan, 1, runner.history().last());
    }
    if r.is_err() {
        return r;
    }

    let ghost mid = runner.history();
    let r = prepare_phase_2(runner);
    proof {
        lemma_next_step(before, mid, plan, 2, runner.history().last());
    }
    if r.is_err() {
        return r;
    }

    let ghost mid = runner.history();
    let r = generate_zkey(runner);
    proof {
        lemma_next_step(before, mid, plan, 3, runner.history().last());
    }
    if r.is_err() {
        return r;
    }

    let ghost mid = runner.history();
    let r = contribute_to_phase_2(runner, random_name, random_text);
    proof {
        lemma_next_step(before, mid, plan, 4, runner.history().last());
    }
    if r.is_err() {
        return r;
    }

    let ghost mid = runner.history();
    let r = export_verification_key(runner);
    proof {
        lemma_next_step(before, mid, plan, 5, runner.history().last());
    }
    r
}

/// The `setup` subcommand: the whole trusted-setup ceremony.
pub fn handle_setup_subcommand<R: CommandRunner>(
    runner: &mut R,
    random_name: String,
    random_text: String,
) -> (r: std::io::Result<()>)
    ensures
        ran_until_failure(
            old(runner).history(),
            final(runner).history(),
            setup_plan(random_name@, random_text@),
        ),
        r is Ok <==> completed(
            old(runner).history(),
            final(runner).history(),
            setup_plan(random_name@, random_text@),
        ),
{
    execute_setup_command(runner, random_name, random_text)
}

} // verus!
