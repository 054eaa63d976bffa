use crate::cli::{AllCommand, ProofsCommand, Selected, SubCommand};
use vstd::prelude::*;

verus! {

/// What the `all` subcommand runs, in order, until one fails: the circuit, its
/// compilation, the ceremony, the verifier, the token contract, the move of the
/// compiled files, and the proofs for the addresses of `input_file`.
pub open spec fn all_plan(input_file: Seq<char>) -> Seq<Selected> {
    seq![
        Selected::Circuit,
        Selected::Compile,
        Selected::Setup,
        Selected::Verifier,
        Selected::Token,
        Selected::Movejs,
        Selected::Proofs(input_file),
    ]
}

/// The subcommands that `all` runs, in order.
pub fn all_steps(all_command: &AllCommand) -> (r: Vec<SubCommand>)
    ensures
        r@.map_values(|c: SubCommand| c@) == all_plan(all_command.input_file@),
{
    let mut r: Vec<SubCommand> = Vec::new();
    r.push(SubCommand::Circuit);
    r.push(SubCommand::Compile);
    r.push(SubCommand::Setup);
    r.push(SubCommand::Verifier);
    r.push(SubCommand::Token);
    r.push(SubCommand::Movejs);
    r.push(SubCommand::Proofs(ProofsCommand { input_file: all_command.input_file.clone() }));
    assert(r@.map_values(|c: SubCommand| c@) =~= all_plan(all_command.input_file@));
    r
}

} // verus!
