//! Dispatch: carry a resolved command out.  A builtin runs in the shell; an
//! executable becomes a launch request for the caller; an unknown name
//! becomes a report on the output sink, not an error.

use vstd::prelude::*;
use vstd::string::*;
use crate::builtin::Action;
use crate::builtin::UsageError;
use crate::builtin::run_holds;
use crate::command::Command;
use crate::text::str_views;

verus! {

/// The report written for a name that resolved to nothing.
pub open spec fn not_found_output(name: Seq<char>) -> Seq<char> {
    name + ": command not found\n"@
}

/// What dispatch decides for a resolved command, for every argument list and
/// search-path snapshot.  The snapshot in `dirs` and `is_file` is the one
/// the `type` builtin re-resolves its operand against.
pub open spec fn execute_holds(
    command: Command,
    args: Seq<Seq<char>>,
    dirs: Seq<Seq<char>>,
    is_file: Seq<bool>,
    r: Result<Action, UsageError>,
) -> bool {
    match command {
        Command::Builtin(b) => run_holds(b, args, dirs, is_file, r),
        Command::Executable(path) => r matches Ok(Action::Launch(p)) && p@ == path@,
        Command::NotFound(name) => r matches Ok(Action::Print(out)) && out@ == not_found_output(
            name@,
        ),
    }
}

/// Carry a resolved command out: run a builtin, ask the caller to launch an
/// executable, or report an unknown name and go on.  `dirs` and `is_file`
/// are the snapshot for the operand of `type`: for each directory, whether
/// `directory/args[0]` exists as a regular file.
pub fn execute(command: Command, args: &Vec<String>, dirs: &Vec<String>, is_file: &Vec<bool>) -> (r:
    Result<Action, UsageError>)
    requires
        dirs@.len() == is_file@.len(),
    ensures
        execute_holds(command, str_views(args@), str_views(dirs@), is_file@, r),
{
    match command {
        Command::Builtin(b) => b.run(args, dirs, is_file),
        Command::Executable(path) => Ok(Action::Launch(path)),
        Command::NotFound(name) => {
            let mut out = name;
            out.append(": command not found\n");
            Ok(Action::Print(out))
        },
    }
}

} // verus!
