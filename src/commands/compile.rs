use crate::utils::command_runner::{
    arg_texts, invocation, other_error, run_record, CommandRunner, Invocation,
};
use vstd::prelude::*;

verus! {

/// `circom` on the circuit, asked for the constraint system, the symbols and the
/// WebAssembly witness generator.
pub open spec fn compile_invocation() -> Invocation {
    invocation("circom"@, seq!["circuit.circom"@, "--r1cs"@, "--sym"@, "--wasm"@])
}

/// Compiles `circuit.circom` with `circom`; a failure comes back as an I/O error.
pub fn handle_compile_subcommand<R: CommandRunner>(runner: &mut R) -> (r: std::io::Result<()>)
    ensures
        final(runner).history() == old(runner).history().push(
            run_record(compile_invocation(), r is Ok),
        ),
{
    let args: [&str; 4] = ["circuit.circom", "--r1cs", "--sym", "--wasm"];
    let result = runner.run("circom", &args);
    assert(arg_texts(args@) =~= compile_invocation().args);
    match result {
        Ok(()) => Ok(()),
        Err(e) => Err(other_error(e)),
    }
}

} // verus!
