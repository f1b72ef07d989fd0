//! The command line: what the arguments of the program ask for.

use vstd::prelude::*;
use vstd::string::{StrSliceExecFns, StringExecFns};
use crate::error::{early_error, Diagnostics, ErrorEmitted};
use crate::text::same_text;

verus! {

/// What a run of the compiler works on.
#[derive(Debug, PartialEq, Eq)]
pub struct Options {
    /// The path of the file that holds the program.
    pub input_path: String,
}

/// What a command line asks for.
pub enum Request {
    /// To be told how the program is used: there is no argument, or `-h` or
    /// `--help` comes before anything is amiss.
    Usage,
    /// To compile the file at this path, the one argument.
    Compile(Seq<char>),
    /// Nothing that can be done: this argument looks like a flag and is none.
    NoSuchArgument(Seq<char>),
    /// Nothing that can be done: these are two paths, and one is the most.
    MoreThanOneInput(Seq<char>, Seq<char>),
}

/// Whether an argument looks like a flag: it begins with `-`.
pub open spec fn is_flag(argument: Seq<char>) -> bool {
    argument.len() > 0 && argument[0] == '-'
}

/// Whether an argument asks for help.
pub open spec fn is_help(argument: Seq<char>) -> bool {
    argument == "-h"@ || argument == "--help"@
}

/// What `arguments` ask for when `path` is the path seen before them, if
/// one was seen. The arguments are read from the left, and the first that
/// asks for help or is amiss decides.
pub open spec fn request_of(arguments: Seq<Seq<char>>, path: Option<Seq<char>>) -> Request
    decreases arguments.len(),
{
    if arguments.len() == 0 {
        match path {
            Some(path) => Request::Compile(path),
            None => Request::Usage,
        }
    } else if is_flag(arguments[0]) {
        if is_help(arguments[0]) {
            Request::Usage
        } else {
            Request::NoSuchArgument(arguments[0])
        }
    } else {
        match path {
            Some(path) => Request::MoreThanOneInput(path, arguments[0]),
            None => request_of(arguments.skip(1), Some(arguments[0])),
        }
    }
}

/// The text of each of `list`, in order.
pub open spec fn texts(list: Seq<String>) -> Seq<Seq<char>> {
    Seq::new(list.len(), |i: int| list[i]@)
}

/// The message for an argument that looks like a flag and is none.
pub open spec fn no_such_argument_text(argument: Seq<char>) -> Seq<char> {
    "No such argument: "@ + argument
}

/// The message for a second path.
pub open spec fn more_than_one_input_text(first: Seq<char>, second: Seq<char>) -> Seq<char> {
    "More than one input file was provided (Found "@ + first + " and "@ + second + ")"@
}

/// Whether `argument` looks like a flag.
fn looks_like_flag(argument: &str) -> (b: bool)
    ensures
        b == is_flag(argument@),
{
    !argument.is_empty() && argument.get_char(0) == '-'
}

/// Reads the command line. `arguments[0]` is the name of the program; the
/// others are what the user wrote.
///
/// Gives `Some` options where the user names one file, and `None` where the
/// user is to be told how the program is used. A flag that does not exist and
/// a second path are reported, each with the argument at fault, and fail.
pub fn handle_arguments(arguments: &[String], diagnostics: &mut Diagnostics) -> (result: Result<
    Option<Options>,
    ErrorEmitted,
>)
    requires
        arguments@.len() >= 1,
    ensures
        match request_of(texts(arguments@).skip(1), None) {
            Request::Usage => result matches Ok(None) && final(diagnostics)@ == old(diagnostics)@,
            Request::Compile(path) => result matches Ok(Some(options)) && options.input_path@
                == path && final(diagnostics)@ == old(diagnostics)@,
            Request::NoSuchArgument(argument) => result is Err && final(diagnostics)@ == old(
                diagnostics,
            )@.push(no_such_argument_text(argument)),
            Request::MoreThanOneInput(first, second) => result is Err && final(diagnostics)@
                == old(diagnostics)@.push(more_than_one_input_text(first, second)),
        },
{
    let ghost all = texts(arguments@);
    let mut idx: usize = 1;
    let mut input_path: Option<String> = None;

    while idx < arguments.len()
        invariant
            1 <= idx <= arguments@.len(),
            all == texts(arguments@),
            diagnostics@ == old(diagnostics)@,
            request_of(
                all.skip(idx as int),
                match input_path {
                    Some(path) => Some(path@),
                    None => None,
                },
            ) == request_of(all.skip(1), None),
        decreases arguments@.len() - idx,
    {
        let argument = &arguments[idx];
        let ghost rest = all.skip(idx as int);
        assert(rest[0] == argument@);
        assert(rest.skip(1) =~= all.skip(idx + 1));
        idx += 1;

        if looks_like_flag(argument.as_str()) {
            if same_text(argument.as_str(), "-h") || same_text(argument.as_str(), "--help") {
                return Ok(None);
            }
            let mut message = String::from_str("No such argument: ");
            message.append(argument.as_str());
            return Err(early_error(diagnostics, message));
        }
        match input_path {
            Some(path) => {
                let mut message = String::from_str("More than one input file was provided (Found ");
                message.append(path.as_str());
                message.append(" and ");
                message.append(argument.as_str());
                message.append(")");
                return Err(early_error(diagnostics, message));
            },
            None => {
                input_path = Some(argument.clone());
            },
        }
    }

    match input_path {
        Some(path) => Ok(Some(Options { input_path: path })),
        None => Ok(None),
    }
}

} // verus!
