//! The interface to the native compiler: the command line that it is
//! started with, and what is made of how its run ended. Starting it and
//! feeding it are the caller's part.

use vstd::prelude::*;
use vstd::string::StringExecFns;
use crate::emit::string_views;

verus! {

/// The native C++ compiler.
#[derive(Debug, Clone, Copy)]
pub struct ClangCXX;

/// How a run of the compiler failed.
#[derive(Debug, Clone, Copy, PartialEq, Eq, Structural)]
pub enum ToolchainError {
    /// The generated text could not be written to the compiler in full;
    /// `exit` is the code that the compiler ended with, if it gave one.
    WriteFailed { exit: Option<i32> },
    /// The compiler ended with a code other than 0.
    NonZeroExit(i32),
    /// The compiler ended without a code.
    NoExitCode,
}

/// The arguments that make the compiler read C++ from its standard input
/// and write to `output_file`, before the caller's own flags.
pub open spec fn fixed_arguments(output_file: Seq<char>) -> Seq<Seq<char>> {
    seq!["-x"@, "c++"@, "-"@, "-o"@, output_file]
}

/// What is made of a run: success where the text was written and the code
/// is 0, and otherwise the failure, a write failure first.
pub open spec fn outcome_of(written: bool, exit: Option<i32>) -> Result<(), ToolchainError> {
    if !written {
        Err(ToolchainError::WriteFailed { exit })
    } else {
        match exit {
            Some(code) => if code == 0 {
                Ok(())
            } else {
                Err(ToolchainError::NonZeroExit(code))
            },
            None => Err(ToolchainError::NoExitCode),
        }
    }
}

impl ClangCXX {
    /// The name of the program to start.
    pub fn program() -> (name: &'static str)
        ensures
            name@ == "clang++"@,
    {
        "clang++"
    }

    /// The arguments of the compiler: C++ from standard input, the output
    /// path, then `clang_flags` in their order.
    pub fn arguments(output_file: &str, clang_flags: Vec<String>) -> (args: Vec<String>)
        ensures
            string_views(args@) == fixed_arguments(output_file@) + string_views(clang_flags@),
    {
        let mut flags = clang_flags;
        let mut args: Vec<String> = Vec::new();
        args.push(String::from_str("-x"));
        args.push(String::from_str("c++"));
        args.push(String::from_str("-"));
        args.push(String::from_str("-o"));
        args.push(String::from_str(output_file));
        assert(string_views(args@) =~= fixed_arguments(output_file@));
        let ghost fixed = args@;
        args.append(&mut flags);
        assert(string_views(args@) =~= string_views(fixed) + string_views(clang_flags@));
        args
    }

    /// What is made of a run that has ended. `written` says whether the
    /// whole text reached the compiler, `exit` is the compiler's exit code
    /// where it gave one. A failed write is reported after the compiler has
    /// been waited for, with its code.
    pub fn outcome(written: bool, exit: Option<i32>) -> (r: Result<(), ToolchainError>)
        ensures
            r == outcome_of(written, exit),
            r is Ok <==> written && exit == Some(0i32),
    {
        if !written {
            Err(ToolchainError::WriteFailed { exit })
        } else {
            match exit {
                Some(code) => {
                    if code == 0 {
                        Ok(())
                    } else {
                        Err(ToolchainError::NonZeroExit(code))
                    }
                },
                None => Err(ToolchainError::NoExitCode),
            }
        }
    }
}

} // verus!
