//! The shell builtins — `exit`, `echo` and `type` — and what running each
//! one means: which text is written, or which exit status ends the process.

use vstd::prelude::*;
use vstd::string::*;
use crate::command::Command;
use crate::command::first_hit;
use crate::command::join_path_spec;
use crate::command::resolution_holds;
use crate::command::resolve;
use crate::parse::int_text_val;
use crate::parse::is_i32_text;
use crate::parse::parse_i32;
use crate::text::join_spaces;
use crate::text::join_with_spaces;
use crate::text::str_eq;
use crate::text::str_views;

verus! {

/// The closed set of commands the shell implements itself.
#[derive(Debug, PartialEq, Eq, Structural, Clone, Copy)]
pub enum Builtin {
    Exit,
    Echo,
    Type,
}

/// What the shell must do to carry one command out.
#[derive(Debug)]
pub enum Action {
    /// Write this text to the output sink.
    Print(String),
    /// Terminate the whole process with this exit status.
    Terminate(i32),
    /// Launch the program at this path with the remaining arguments and wait
    /// for it.
    Launch(String),
}

/// A caller broke a builtin's usage rules; the shell treats this as fatal.
#[derive(Debug, PartialEq, Eq, Structural, Clone, Copy)]
pub enum UsageError {
    /// `type` was given no name to classify.
    MissingTypeArgument,
    /// `exit` was given a status that is not a 32-bit integer.
    InvalidExitCode,
}

/// The builtin a name denotes, if any: exactly `exit`, `echo` or `type`,
/// case-sensitive, no aliases.
pub open spec fn builtin_of(name: Seq<char>) -> Option<Builtin> {
    if name == "exit"@ {
        Some(Builtin::Exit)
    } else if name == "echo"@ {
        Some(Builtin::Echo)
    } else if name == "type"@ {
        Some(Builtin::Type)
    } else {
        None
    }
}

/// What `echo` writes: the arguments joined with single spaces, then a
/// newline; a newline alone for no arguments.
pub open spec fn echo_output(args: Seq<Seq<char>>) -> Seq<char> {
    join_spaces(args) + "\n"@
}

/// The one line `type` writes for a name, given the same search-path
/// snapshot the resolver sees.
pub open spec fn type_output(name: Seq<char>, dirs: Seq<Seq<char>>, is_file: Seq<bool>) -> Seq<
    char,
> {
    match builtin_of(name) {
        Some(_) => name + " is a shell builtin\n"@,
        None => match first_hit(is_file) {
            Some(i) => name + " is "@ + join_path_spec(dirs[i], name) + "\n"@,
            None => name + ": not found\n"@,
        },
    }
}

/// The line `type` writes agrees with what the resolver returns for the same
/// name and snapshot: exactly one line, chosen by the classification's
/// variant, naming the resolved path where there is one.
pub proof fn lemma_type_line_follows_resolution(
    name: Seq<char>,
    dirs: Seq<Seq<char>>,
    is_file: Seq<bool>,
    c: Command,
)
    requires
        resolution_holds(name, dirs, is_file, c),
    ensures
        type_output(name, dirs, is_file) == (match c {
            Command::Builtin(_) => name + " is a shell builtin\n"@,
            Command::Executable(p) => name + " is "@ + p@ + "\n"@,
            Command::NotFound(_) => name + ": not found\n"@,
        }),
{
}

/// What running a builtin decides, for every argument list and search-path
/// snapshot: the action owed on success, and the usage error otherwise.
pub open spec fn run_holds(
    b: Builtin,
    args: Seq<Seq<char>>,
    dirs: Seq<Seq<char>>,
    is_file: Seq<bool>,
    r: Result<Action, UsageError>,
) -> bool {
    match b {
        Builtin::Exit => if args.len() == 0 {
            r matches Ok(Action::Terminate(code)) && code == 0
        } else if is_i32_text(args[0]) {
            r matches Ok(Action::Terminate(code)) && code as int == int_text_val(args[0])
        } else {
            r == Err::<Action, UsageError>(UsageError::InvalidExitCode)
        },
        Builtin::Echo => r matches Ok(Action::Print(out)) && out@ == echo_output(args),
        Builtin::Type => if args.len() == 0 {
            r == Err::<Action, UsageError>(UsageError::MissingTypeArgument)
        } else {
            r matches Ok(Action::Print(out)) && out@ == type_output(args[0], dirs, is_file)
        },
    }
}

impl Builtin {
    /// The builtin a name denotes, or `Err` for every other name.
    pub fn try_from(value: &str) -> (r: Result<Builtin, ()>)
        ensures
            match builtin_of(value@) {
                Some(b) => r == Ok::<Builtin, ()>(b),
                None => r == Err::<Builtin, ()>(()),
            },
    {
        if str_eq(value, "exit") {
            Ok(Builtin::Exit)
        } else if str_eq(value, "echo") {
            Ok(Builtin::Echo)
        } else if str_eq(value, "type") {
            Ok(Builtin::Type)
        } else {
            Err(())
        }
    }

    /// Run a builtin on its argument list.  `exit` consumes at most one
    /// argument, the exit status, zero when absent; `echo` writes its
    /// arguments; `type` consumes exactly one argument, the name to
    /// classify against the snapshot in `dirs` and `is_file`, and ignores
    /// any extras.
    pub fn run(&self, args: &Vec<String>, dirs: &Vec<String>, is_file: &Vec<bool>) -> (r: Result<
        Action,
        UsageError,
    >)
        requires
            dirs@.len() == is_file@.len(),
        ensures
            run_holds(*self, str_views(args@), str_views(dirs@), is_file@, r),
    {
        match self {
            Builtin::Exit => {
                if args.len() == 0 {
                    Ok(Action::Terminate(0))
                } else {
                    match parse_i32(args[0].as_str()) {
                        Ok(code) => Ok(Action::Terminate(code)),
                        Err(_) => Err(UsageError::InvalidExitCode),
                    }
                }
            },
            Builtin::Echo => {
                let mut out = join_with_spaces(args);
                out.append("\n");
                Ok(Action::Print(out))
            },
            Builtin::Type => {
                if args.len() == 0 {
                    Err(UsageError::MissingTypeArgument)
                } else {
                    let name = args[0].as_str();
                    let target = resolve(name, dirs, is_file);
                    let mut out = name.to_owned();
                    match target {
                        Command::Builtin(_) => {
                            out.append(" is a shell builtin\n");
                        },
                        Command::Executable(path) => {
                            out.append(" is ");
                            out.append(path.as_str());
                            out.append("\n");
                        },
                        Command::NotFound(_) => {
                            out.append(": not found\n");
                        },
                    }
                    Ok(Action::Print(out))
                }
            },
        }
    }
}

} // verus!
