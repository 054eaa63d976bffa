//! One handler per subcommand that the library can carry out on its own.

pub mod all;
pub mod compile;
pub mod movejs;
pub mod proofs;
pub mod setup;
pub mod verifier_export;
