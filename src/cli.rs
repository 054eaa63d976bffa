use crate::utils::command_runner::arg_texts;
use vstd::prelude::*;

verus! {

/// The option that names the file of addresses.
pub const INPUT_FILE_OPTION: &'static str = "--input-file";

/// The file of addresses read when no other is named.
pub const DEFAULT_INPUT_FILE: &'static str = "addresses.txt";

/// Options of the `proofs` subcommand.
#[derive(PartialEq, Debug)]
pub struct ProofsCommand {
    /// The file of addresses, one per line.
    pub input_file: String,
}

/// Options of the `all` subcommand.
#[derive(PartialEq, Debug)]
pub struct AllCommand {
    /// The file of addresses, one per line.
    pub input_file: String,
}

/// The subcommands of the tool.
#[derive(PartialEq, Debug)]
pub enum SubCommand {
    /// Copy the circuit template into the current directory.
    Circuit,
    /// Compile the circuit.
    Compile,
    /// Run the trusted-setup ceremony.
    Setup,
    /// Export a Solidity verifier.
    Verifier,
    /// Move the contents of `circuit_js` into the current directory.
    Movejs,
    /// Write a sample token contract that uses the verifier.
    Token,
    /// Make a proof for each address of a file.
    Proofs(ProofsCommand),
    /// Run every step above, one after the other.
    All(AllCommand),
}

/// A command line, parsed.
#[derive(PartialEq, Debug)]
pub struct Cli {
    /// The subcommand to carry out.
    pub subcmd: SubCommand,
}

/// Why a command line was refused.
#[derive(PartialEq, Eq, Structural, Debug, Clone, Copy)]
pub enum CliError {
    /// No subcommand was given.
    MissingSubcommand,
    /// The subcommand is not one of the tool's.
    UnknownSubcommand,
    /// An argument that the subcommand does not take.
    UnexpectedArgument,
    /// `--input-file` came last, without its value.
    MissingValue,
    /// `--input-file` was given more than once.
    RepeatedOption,
}

/// A subcommand as the values it carries.
pub enum Selected {
    Circuit,
    Compile,
    Setup,
    Verifier,
    Movejs,
    Token,
    Proofs(Seq<char>),
    All(Seq<char>),
}

impl View for SubCommand {
    type V = Selected;

    open spec fn view(&self) -> Selected {
        match self {
            SubCommand::Circuit => Selected::Circuit,
            SubCommand::Compile => Selected::Compile,
            SubCommand::Setup => Selected::Setup,
            SubCommand::Verifier => Selected::Verifier,
            SubCommand::Movejs => Selected::Movejs,
            SubCommand::Token => Selected::Token,
            SubCommand::Proofs(p) => Selected::Proofs(p.input_file@),
            SubCommand::All(a) => Selected::All(a.input_file@),
        }
    }
}

/// The value in an argument of the form `--input-file=VALUE`.
pub open spec fn attached_input_file(arg: Seq<char>) -> Option<Seq<char>> {
    let n = INPUT_FILE_OPTION@.len() as int;
    if arg.len() > n && arg.take(n) == INPUT_FILE_OPTION@ && arg[n] == '=' {
        Some(arg.skip(n + 1))
    } else {
        None
    }
}

/// The value that `--input-file` is given in `rest`, the arguments after the
/// subcommand: either as `--input-file VALUE` or as `--input-file=VALUE`, at
/// most once. `found` is the value met earlier, if any.
pub open spec fn input_file_value(rest: Seq<Seq<char>>, found: Option<Seq<char>>) -> Result<
    Option<Seq<char>>,
    CliError,
>
    decreases rest.len(),
{
    if rest.len() == 0 {
        Ok(found)
    } else if rest[0] == INPUT_FILE_OPTION@ {
        if rest.len() < 2 {
            Err(CliError::MissingValue)
        } else if found is Some {
            Err(CliError::RepeatedOption)
        } else {
            input_file_value(rest.skip(2), Some(rest[1]))
        }
    } else if attached_input_file(rest[0]) is Some {
        if found is Some {
            Err(CliError::RepeatedOption)
        } else {
            input_file_value(rest.skip(1), attached_input_file(rest[0]))
        }
    } else {
        Err(CliError::UnexpectedArgument)
    }
}

/// The input file named in `rest`, or the default one.
pub open spec fn input_file_or_default(rest: Seq<Seq<char>>) -> Result<Seq<char>, CliError> {
    match input_file_value(rest, None) {
        Ok(Some(v)) => Ok(v),
        Ok(None) => Ok(DEFAULT_INPUT_FILE@),
        Err(e) => Err(e),
    }
}

/// A subcommand that takes no argument, with nothing after it.
pub open spec fn bare(rest: Seq<Seq<char>>, s: Selected) -> Result<Selected, CliError> {
    if rest.len() == 0 {
        Ok(s)
    } else {
        Err(CliError::UnexpectedArgument)
    }
}

/// What the command line `args` asks for. The first argument is the program's
/// name; the second is the subcommand; `proofs` and `all` may then name their
/// input file.
pub open spec fn parse_command_line(args: Seq<Seq<char>>) -> Result<Selected, CliError> {
    if args.len() < 2 {
        Err(CliError::MissingSubcommand)
    } else {
        let name = args[1];
        let rest = args.skip(2);
        if name == "circuit"@ {
            bare(rest, Selected::Circuit)
        } else if name == "compile"@ {
            bare(rest, Selected::Compile)
        } else if name == "setup"@ {
            bare(rest, Selected::Setup)
        } else if name == "verifier"@ {
            bare(rest, Selected::Verifier)
        } else if name == "movejs"@ {
            bare(rest, Selected::Movejs)
        } else if name == "token"@ {
            bare(rest, Selected::Token)
        } else if name == "proofs"@ {
            match input_file_or_default(rest) {
                Ok(f) => Ok(Selected::Proofs(f)),
                Err(e) => Err(e),
            }
        } else if name == "all"@ {
            match input_file_or_default(rest) {
                Ok(f) => Ok(Selected::All(f)),
                Err(e) => Err(e),
            }
        } else {
            Err(CliError::UnknownSubcommand)
        }
    }
}

pub open spec fn option_text(o: Option<String>) -> Option<Seq<char>> {
    match o {
        Some(v) => Some(v@),
        None => None,
    }
}

/// Whether `a` and `b` hold the same text.
fn same_text(a: &str, b: &str) -> (r: bool)
    ensures
        r == (a@ == b@),
{
    a.to_owned() == b.to_owned()
}

/// The value of an argument of the form `--input-file=VALUE`.
fn attached_value(arg: &str) -> (r: Option<String>)
    ensures
        match r {
            Some(v) => attached_input_file(arg@) == Some(v@),
            None => attached_input_file(arg@) is None,
        },
{
    let n = arg.unicode_len();
    let k = INPUT_FILE_OPTION.unicode_len();
    if n <= k {
        return None;
    }
    let head = arg.substring_char(0, k);
    if !same_text(head, INPUT_FILE_OPTION) || arg.get_char(k) != '=' {
        assert(head@ == arg@.take(k as int));
        return None;
    }
    Some(arg.substring_char(k + 1, n).to_owned())
}

/// The input file named by the arguments `args[start..]`, or the default one.
fn parse_input_file(args: &[&str], start: usize) -> (r: Result<String, CliError>)
    requires
        start <= args@.len(),
    ensures
        match r {
            Ok(v) => input_file_or_default(arg_texts(args@).skip(start as int)) == Ok::<
                Seq<char>,
                CliError,
            >(v@),
            Err(e) => input_file_or_default(arg_texts(args@).skip(start as int)) == Err::<
                Seq<char>,
                CliError,
            >(e),
        },
{
    let ghost all = arg_texts(args@);
    let mut found: Option<String> = None;
    let mut i: usize = start;
    while i < args.len()
        invariant
            start <= i <= args@.len(),
            all == arg_texts(args@),
            input_file_value(all.skip(start as int), None) == input_file_value(
                all.skip(i as int),
                option_text(found),
            ),
        decreases args@.len() - i,
    {
        let ghost rest = all.skip(i as int);
        assert(rest[0] == args@[i as int]@);
        if same_text(args[i], INPUT_FILE_OPTION) {
            if i + 1 >= args.len() {
                return Err(CliError::MissingValue);
            }
            if found.is_some() {
                return Err(CliError::RepeatedOption);
            }
            assert(rest[1] == args@[i + 1]@);
            assert(rest.skip(2) =~= all.skip(i + 2));
            found = Some(args[i + 1].to_owned());
            i = i + 2;
        } else {
            match attached_value(args[i]) {
                Some(v) => {
                    if found.is_some() {
                        return Err(CliError::RepeatedOption);
                    }
                    assert(rest.skip(1) =~= all.skip(i + 1));
                    found = Some(v);
                    i = i + 1;
                },
                None => {
                    return Err(CliError::UnexpectedArgument);
                },
            }
        }
    }
    assert(all.skip(i as int).len() == 0);
    match found {
        Some(v) => Ok(v),
        None => Ok(DEFAULT_INPUT_FILE.to_owned()),
    }
}

impl Cli {
    /// Parses the command line `args`, whose first item is the program's name.
    pub fn try_parse_from(args: &[&str]) -> (r: Result<Cli, CliError>)
        ensures
            match r {
                Ok(cli) => parse_command_line(arg_texts(args@)) == Ok::<Selected, CliError>(
                    cli.subcmd@,
                ),
                Err(e) => parse_command_line(arg_texts(args@)) == Err::<Selected, CliError>(e),
            },
    {
        let ghost all = arg_texts(args@);
        if args.len() < 2 {
            return Err(CliError::MissingSubcommand);
        }
        let name = args[1];
        let bare = args.len() == 2;
        assert(all[1] == name@);
        assert(all.skip(2).len() == 0 <==> bare);
        let subcmd = if same_text(name, "circuit") {
            SubCommand::Circuit
        } else if same_text(name, "compile") {
            SubCommand::Compile
        } else if same_text(name, "setup") {
            SubCommand::Setup
        } else if same_text(name, "verifier") {
            SubCommand::Verifier
        } else if same_text(name, "movejs") {
            SubCommand::Movejs
        } else if same_text(name, "token") {
            SubCommand::Token
        } else if same_text(name, "proofs") {
            match parse_input_file(args, 2) {
                Ok(f) => {
                    return Ok(Cli { subcmd: SubCommand::Proofs(ProofsCommand { input_file: f }) });
                },
                Err(e) => {
                    return Err(e);
                },
            }
        } else if same_text(name, "all") {
            match parse_input_file(args, 2) {
                Ok(f) => {
                    return Ok(Cli { subcmd: SubCommand::All(AllCommand { input_file: f }) });
                },
                Err(e) => {
                    return Err(e);
                },
            }
        } else {
            return Err(CliError::UnknownSubcommand);
        };
        if bare {
            Ok(Cli { subcmd })
        } else {
            Err(CliError::UnexpectedArgument)
        }
    }

    /// Parses a command line that is known to be well formed.
    pub fn parse_from(args: &[&str]) -> (r: Cli)
        requires
            parse_command_line(arg_texts(args@)) is Ok,
        ensures
            parse_command_line(arg_texts(args@)) == Ok::<Selected, CliError>(r.subcmd@),
    {
        match Cli::try_parse_from(args) {
            Ok(cli) => cli,
            Err(_) => Cli { subcmd: SubCommand::Circuit },
        }
    }
}

} // verus!
