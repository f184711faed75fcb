//! The command line: one positional argument, the query.

use vstd::prelude::*;
use vstd::string::StringExecFns;

verus! {

/// The exit status of a run that went through, whether or not anything
/// matched.
pub const EXIT_SUCCESS: i32 = 0;

/// The exit status of a call without a query.
pub const EXIT_USAGE: i32 = 1;

/// What a call asks for.
#[derive(Debug, PartialEq, Eq)]
pub enum Invocation {
    /// No query was given: `message` goes to the error stream, nothing goes
    /// to standard output, and the process ends with `EXIT_USAGE`.
    Usage { message: String },
    /// The candidates are to be filtered by `query`, and the process ends
    /// with `EXIT_SUCCESS`.
    Filter { query: String },
}

/// The usage line for a program called `program`.
pub open spec fn usage_text(program: Seq<char>) -> Seq<char> {
    "Usage: "@ + program + " <pinyin>"@
}

impl Invocation {
    /// The exit status that the process ends with, once the invocation is
    /// carried out.
    pub open spec fn spec_exit_status(self) -> i32 {
        match self {
            Invocation::Usage { .. } => EXIT_USAGE,
            Invocation::Filter { .. } => EXIT_SUCCESS,
        }
    }

    /// The exit status that the process ends with, once the invocation is
    /// carried out.
    pub fn exit_status(&self) -> (status: i32)
        ensures
            status == self.spec_exit_status(),
    {
        match self {
            Invocation::Usage { .. } => EXIT_USAGE,
            Invocation::Filter { .. } => EXIT_SUCCESS,
        }
    }
}

/// The usage line for a program called `program`.
pub fn usage_message(program: &str) -> (message: String)
    ensures
        message@ == usage_text(program@),
{
    let mut message = String::from_str("Usage: ");
    message.append(program);
    message.append(" <pinyin>");
    message
}

/// Reads the arguments of the process, of which the first is the program's
/// name. With no argument after the name the call is answered by the usage
/// line. Otherwise the argument after the name is the query, taken as it is:
/// an empty query is a query, and arguments after it do not count.
pub fn parse_invocation(args: &Vec<String>) -> (r: Invocation)
    requires
        args.len() >= 1,
    ensures
        match r {
            Invocation::Usage { message } => args.len() == 1 && message@ == usage_text(args[0]@),
            Invocation::Filter { query } => args.len() >= 2 && query@ == args[1]@,
        },
{
    if args.len() < 2 {
        Invocation::Usage { message: usage_message(args[0].as_str()) }
    } else {
        Invocation::Filter { query: args[1].clone() }
    }
}

} // verus!
