//! The command line: which options the program has, what a list of
//! arguments gives for each of them, and what that means for the run. The
//! arguments are taken apart by the `getopts` crate.

use vstd::prelude::*;
use vstd::slice::slice_subrange;
use vstd::string::StringExecFns;
use crate::getopts_api::{
    all_named,
    arguments,
    declare_flag,
    declare_value,
    declare_values,
    declared_names,
    declared_options,
    fail_text,
    first_argument,
    matched_options,
    names_accepted,
    new_options,
    option_present,
    option_text,
    option_texts,
    parse_arguments,
    parse_outcome,
    plain_style,
    usage_outcome,
    usage_text,
    Declaration,
    Occurrence,
    TakesArgument,
};
use crate::options::{interpret, interpreted, OptionsError, Parsed, RawOptions, RawView};

verus! {

/// Why a command line gives no options.
#[derive(Debug, PartialEq, Eq)]
pub enum CommandLineError {
    /// The list of arguments is empty: it lacks even the program's name.
    NoProgramName,
    /// The arguments do not fit the declared options; the text says why.
    Unparsable(String),
    /// The options are refused.
    Refused(OptionsError),
}

/// One option of the program that comes without argument.
pub open spec fn flag(short: Seq<char>, long: Seq<char>, desc: Seq<char>) -> Declaration {
    Declaration {
        short,
        long,
        hint: Seq::<char>::empty(),
        desc,
        argument: TakesArgument::No,
        occurrence: Occurrence::Optional,
    }
}

/// One option of the program that comes with an argument, once at most.
pub open spec fn value(short: Seq<char>, long: Seq<char>, desc: Seq<char>, hint: Seq<char>)
    -> Declaration {
    Declaration {
        short,
        long,
        hint,
        desc,
        argument: TakesArgument::Yes,
        occurrence: Occurrence::Optional,
    }
}

/// One option of the program that comes with an argument, any number of
/// times.
pub open spec fn values(short: Seq<char>, long: Seq<char>, desc: Seq<char>, hint: Seq<char>)
    -> Declaration {
    Declaration {
        short,
        long,
        hint,
        desc,
        argument: TakesArgument::Yes,
        occurrence: Occurrence::Multiple,
    }
}

/// The options of the program, in the order of declaration: help without
/// argument; mode, data type, start block, end block, block size, page size
/// and skip interval with one argument each, once at most; the target with an
/// argument, any number of times.
pub open spec fn program_options() -> Seq<Declaration> {
    seq![
        flag("h"@, "help"@, "print this help text"@),
        value(
            "m"@,
            "mode"@,
            "I/O mode, 'sequential' or 'sequentialreverse'  or 'random' or 'random100'"@,
            ""@,
        ),
        value("d"@, "data"@, "datatype, 'random' or 'zero'"@, ""@),
        value("s"@, "startblock"@, "the starting block given the specified blocksize"@, ""@),
        value("e"@, "endblock"@, "the ending block given the specified blocksize"@, ""@),
        value("b"@, "blocksize"@, "block size to write"@, ""@),
        value("p"@, "pagesize"@, "dedupe page-size (16384 for 3PAR)"@, ""@),
        value("i"@, "interval"@, "number of blocks to skip between write ops"@, ""@),
        values("f"@, "file"@, "target file or block device"@, "/dev/sdX"@),
    ]
}

/// What the matches give for the options of the program.
pub open spec fn raw_of(matched: Map<Seq<char>, Seq<Option<Seq<char>>>>) -> RawView {
    RawView {
        help: matched["h"@].len() > 0,
        files: arguments(matched["f"@]),
        mode: first_argument(matched["m"@]),
        data: first_argument(matched["d"@]),
        blocksize: first_argument(matched["b"@]),
        pagesize: first_argument(matched["p"@]),
        startblock: first_argument(matched["s"@]),
        endblock: first_argument(matched["e"@]),
        interval: first_argument(matched["i"@]),
    }
}

proof fn lemma_program_names()
    ensures
        names_accepted("h", "help"),
        names_accepted("m", "mode"),
        names_accepted("d", "data"),
        names_accepted("s", "startblock"),
        names_accepted("e", "endblock"),
        names_accepted("b", "blocksize"),
        names_accepted("p", "pagesize"),
        names_accepted("i", "interval"),
        names_accepted("f", "file"),
        all_named(program_options()),
        declared_names(program_options()).contains("h"@),
        declared_names(program_options()).contains("m"@),
        declared_names(program_options()).contains("d"@),
        declared_names(program_options()).contains("s"@),
        declared_names(program_options()).contains("e"@),
        declared_names(program_options()).contains("b"@),
        declared_names(program_options()).contains("p"@),
        declared_names(program_options()).contains("i"@),
        declared_names(program_options()).contains("f"@),
{
    reveal_strlit("h");
    reveal_strlit("help");
    reveal_strlit("m");
    reveal_strlit("mode");
    reveal_strlit("d");
    reveal_strlit("data");
    reveal_strlit("s");
    reveal_strlit("startblock");
    reveal_strlit("e");
    reveal_strlit("endblock");
    reveal_strlit("b");
    reveal_strlit("blocksize");
    reveal_strlit("p");
    reveal_strlit("pagesize");
    reveal_strlit("i");
    reveal_strlit("interval");
    reveal_strlit("f");
    reveal_strlit("file");
    let d = program_options();
    assert(d[0].short == "h"@);
    assert(d[1].short == "m"@);
    assert(d[2].short == "d"@);
    assert(d[3].short == "s"@);
    assert(d[4].short == "e"@);
    assert(d[5].short == "b"@);
    assert(d[6].short == "p"@);
    assert(d[7].short == "i"@);
    assert(d[8].short == "f"@);
}

/// Declares the options of the program.
fn declare_program_options() -> (o: getopts::Options)
    ensures
        declared_options(o) == program_options(),
        plain_style(o),
{
    proof {
        lemma_program_names();
    }
    let mut o = new_options();
    declare_flag(&mut o, "h", "help", "print this help text");
    declare_value(
        &mut o,
        "m",
        "mode",
        "I/O mode, 'sequential' or 'sequentialreverse'  or 'random' or 'random100'",
        "",
    );
    declare_value(&mut o, "d", "data", "datatype, 'random' or 'zero'", "");
    declare_value(
        &mut o,
        "s",
        "startblock",
        "the starting block given the specified blocksize",
        "",
    );
    declare_value(&mut o, "e", "endblock", "the ending block given the specified blocksize", "");
    declare_value(&mut o, "b", "blocksize", "block size to write", "");
    declare_value(&mut o, "p", "pagesize", "dedupe page-size (16384 for 3PAR)", "");
    declare_value(&mut o, "i", "interval", "number of blocks to skip between write ops", "");
    declare_values(&mut o, "f", "file", "target file or block device", "/dev/sdX");
    assert(declared_options(o) =~= program_options());
    o
}

/// The first line of the help text for a program of the given name.
pub open spec fn usage_brief(program: Seq<char>) -> Seq<char> {
    "Usage: "@ + program + " [options]"@
}

/// The help text of the program, under a first line that names it: what
/// `getopts` makes of the options of the program and that line.
pub fn usage(program: &str) -> (r: String)
    ensures
        r@ == usage_outcome(program_options(), usage_brief(program@)),
{
    let options = declare_program_options();
    let mut brief = String::from_str("Usage: ");
    brief.append(program);
    brief.append(" [options]");
    usage_text(&options, brief.as_str())
}

/// What `getopts` makes of the arguments after the program's name, given the
/// options of the program.
pub open spec fn command_line_outcome(args: Seq<Seq<char>>) -> Result<
    Map<Seq<char>, Seq<Option<Seq<char>>>>,
    Seq<char>,
> {
    parse_outcome(program_options(), args.skip(1))
}

/// What reading a list of arguments gives: a fault where the list is empty;
/// else the options as text where `getopts` finds occurrences, and its
/// fault in words where it refuses the list.
pub open spec fn reads(args: Seq<Seq<char>>, r: Result<RawOptions, CommandLineError>) -> bool {
    if args.len() == 0 {
        r == Err::<RawOptions, _>(CommandLineError::NoProgramName)
    } else {
        match command_line_outcome(args) {
            Ok(matched) => r matches Ok(raw) && raw@ == raw_of(matched),
            Err(words) => r matches Err(CommandLineError::Unparsable(text)) && text@ == words,
        }
    }
}

/// What parsing a list of arguments gives: a fault where the list is empty
/// or `getopts` refuses it; else what the options mean that `getopts` finds,
/// or why they are refused.
pub open spec fn parses(args: Seq<Seq<char>>, r: Result<Parsed, CommandLineError>) -> bool {
    if args.len() == 0 {
        r == Err::<Parsed, _>(CommandLineError::NoProgramName)
    } else {
        match command_line_outcome(args) {
            Ok(matched) => match interpreted(raw_of(matched)) {
                Ok(parsed) => r matches Ok(p) && p@ == parsed,
                Err(e) => r == Err::<Parsed, _>(CommandLineError::Refused(e)),
            },
            Err(words) => r matches Err(CommandLineError::Unparsable(text)) && text@ == words,
        }
    }
}

/// Takes a list of arguments apart; the first argument is the program's
/// name and holds no option. Gives for each option of the program what
/// `getopts` has found for it among the other arguments.
pub fn read_command_line(args: &Vec<String>) -> (r: Result<RawOptions, CommandLineError>)
    ensures
        reads(args.deep_view(), r),
{
    if args.len() == 0 {
        return Err(CommandLineError::NoProgramName);
    }
    let options = declare_program_options();
    proof {
        lemma_program_names();
    }
    let rest = slice_subrange(args.as_slice(), 1, args.len());
    assert(rest.deep_view() =~= args.deep_view().skip(1));
    let matches = match parse_arguments(&options, rest) {
        Ok(m) => m,
        Err(f) => {
            return Err(CommandLineError::Unparsable(fail_text(&f)));
        },
    };
    let raw = RawOptions {
        help: option_present(&matches, "h"),
        files: option_texts(&matches, "f"),
        mode: option_text(&matches, "m"),
        data: option_text(&matches, "d"),
        blocksize: option_text(&matches, "b"),
        pagesize: option_text(&matches, "p"),
        startblock: option_text(&matches, "s"),
        endblock: option_text(&matches, "e"),
        interval: option_text(&matches, "i"),
    };
    assert(raw@ == raw_of(matched_options(matches)));
    Ok(raw)
}

/// Reads the options of a run from a list of arguments: takes the arguments
/// apart and reads what they give.
pub fn parse_opts(args: Vec<String>) -> (r: Result<Parsed, CommandLineError>)
    ensures
        parses(args.deep_view(), r),
        r matches Ok(Parsed::Run(options)) ==> options@.valid(),
{
    let raw = match read_command_line(&args) {
        Ok(raw) => raw,
        Err(e) => {
            return Err(e);
        },
    };
    match interpret(raw) {
        Ok(parsed) => Ok(parsed),
        Err(e) => Err(CommandLineError::Refused(e)),
    }
}

} // verus!
