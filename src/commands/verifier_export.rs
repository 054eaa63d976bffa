use crate::utils::command_runner::{
    arg_texts, run_record, run_snarkjs_command, snarkjs, CommandRunner, Invocation,
};
use vstd::prelude::*;

verus! {

/// `snarkjs` exporting a Solidity verifier for the final proving key.
pub open spec fn verifier_invocation() -> Invocation {
    snarkjs(
        seq!["zkey"@, "export"@, "solidityverifier"@, "circuit_0001.zkey"@, "verifier.sol"@],
    )
}

/// Writes `verifier.sol`, a Solidity contract that checks proofs made with the
/// final proving key.
pub fn handle_verifier_subcommand<R: CommandRunner>(runner: &mut R) -> (r: std::io::Result<()>)
    ensures
        final(runner).history() == old(runner).history().push(
            run_record(verifier_invocation(), r is Ok),
        ),
{
    let args: [&str; 5] = ["zkey", "export", "solidityverifier", "circuit_0001.zkey", "verifier.sol"];
    assert(arg_texts(args@) =~= verifier_invocation().args);
    run_snarkjs_command(runner, &args)
}

} // verus!
