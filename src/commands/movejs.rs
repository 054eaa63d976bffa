use crate::utils::command_runner::other_error;
use crate::utils::filesystem_operations::{file_op_record, FileOp, FileSystemOps};
use vstd::prelude::*;

verus! {

/// Moving the files that the circuit compiler left in `circuit_js` into the
/// current directory.
pub open spec fn movejs_op() -> FileOp {
    FileOp::Move { src: "circuit_js"@, dst: "."@ }
}

/// Moves the files of `circuit_js` into the current directory; a failure comes
/// back as an I/O error.
pub fn handle_movejs_subcommand<F: FileSystemOps>(fs_ops: &mut F) -> (r: std::io::Result<()>)
    ensures
        final(fs_ops).file_history() == old(fs_ops).file_history().push(
            file_op_record(movejs_op(), r is Ok),
        ),
{
    match fs_ops.move_item("circuit_js", ".") {
        Ok(()) => Ok(()),
        Err(e) => Err(other_error(e)),
    }
}

} // verus!
