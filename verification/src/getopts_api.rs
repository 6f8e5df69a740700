//! What is trusted of the `getopts` crate: its three types, what they
//! hold, and one contract for each of its functions that the command line
//! is read with. Nothing in this file is proved: the contracts state what
//! the source of `getopts` 0.2 shows.

use vstd::prelude::*;
use vstd::string::is_ascii;
use crate::options::text_of;

verus! {

/// `getopts::Options`, the set of options that a program declares. Trusted:
/// Verus sees nothing inside a value of it.
#[verifier::external_type_specification]
#[verifier::external_body]
pub struct ExOptions(getopts::Options);

/// `getopts::Matches`, what `getopts` has found on a command line. Trusted:
/// Verus sees nothing inside a value of it.
#[verifier::external_type_specification]
#[verifier::external_body]
pub struct ExMatches(getopts::Matches);

/// `getopts::Fail`, why `getopts` refuses a command line. Trusted: Verus sees
/// nothing inside a value of it.
#[verifier::external_type_specification]
#[verifier::external_body]
pub struct ExFail(getopts::Fail);

/// Whether an option takes an argument; the three cases of
/// `getopts::HasArg`.
pub enum TakesArgument {
    /// The option comes with an argument.
    Yes,
    /// The option comes without one.
    No,
    /// The option may come with or without one.
    Maybe,
}

/// How often an option may come; the three cases of `getopts::Occur`.
pub enum Occurrence {
    /// Once, and it must come.
    Required,
    /// Once at most.
    Optional,
    /// Any number of times.
    Multiple,
}

/// One declared option as plain values: its two names, the two texts that
/// the help shows for it, whether it takes an argument and how often it may
/// come.
pub struct Declaration {
    pub short: Seq<char>,
    pub long: Seq<char>,
    pub hint: Seq<char>,
    pub desc: Seq<char>,
    pub argument: TakesArgument,
    pub occurrence: Occurrence,
}

/// What a `getopts::Options` holds: the options declared, in the order of
/// declaration.
pub uninterp spec fn declared_options(o: getopts::Options) -> Seq<Declaration>;

/// Whether a `getopts::Options` parses in the style that `Options::new`
/// sets: free arguments may stand anywhere, and long options need two
/// dashes.
pub uninterp spec fn plain_style(o: getopts::Options) -> bool;

/// What a `getopts::Matches` holds: under each name that an option was
/// declared with, the occurrences of that option on the command line in
/// order, each with its argument where it came with one.
pub uninterp spec fn matched_options(m: getopts::Matches) -> Map<Seq<char>, Seq<Option<Seq<char>>>>;

/// What a `getopts::Fail` says in words.
pub uninterp spec fn fail_words(f: getopts::Fail) -> Seq<char>;

/// What `getopts::Options::parse` in plain style makes of a list of
/// arguments, given the options declared: the occurrences that it finds, as
/// `matched_options` gives them, or where it refuses the list the fault in
/// words.
pub uninterp spec fn parse_outcome(declared: Seq<Declaration>, args: Seq<Seq<char>>) -> Result<
    Map<Seq<char>, Seq<Option<Seq<char>>>>,
    Seq<char>,
>;

/// The help text that `getopts::Options::usage` in plain style makes for the
/// options declared, under a first line.
pub uninterp spec fn usage_outcome(declared: Seq<Declaration>, brief: Seq<char>) -> Seq<char>;

/// The names that a sequence of declarations makes known: every short or long
/// name that is not empty.
pub open spec fn declared_names(declared: Seq<Declaration>) -> Set<Seq<char>> {
    Set::new(
        |name: Seq<char>|
            name.len() > 0 && exists|i: int|
                0 <= i < declared.len() && ((#[trigger] declared[i]).short == name
                    || declared[i].long == name),
    )
}

/// Every declaration has a short or a long name.
pub open spec fn all_named(declared: Seq<Declaration>) -> bool {
    forall|i: int|
        0 <= i < declared.len() ==> (#[trigger] declared[i]).short.len() + declared[i].long.len()
            > 0
}

/// A short and a long name that `getopts` takes: ASCII text, the short name
/// of at most one character, the long name empty or of two or more.
pub open spec fn names_accepted(short: &str, long: &str) -> bool {
    &&& is_ascii(short)
    &&& is_ascii(long)
    &&& short@.len() <= 1
    &&& long@.len() != 1
}

/// The argument of the first occurrence, if it has one.
pub open spec fn first_argument(occurrences: Seq<Option<Seq<char>>>) -> Option<Seq<char>> {
    if occurrences.len() > 0 {
        occurrences[0]
    } else {
        None
    }
}

/// The arguments of the occurrences that have one, in order.
pub open spec fn arguments(occurrences: Seq<Option<Seq<char>>>) -> Seq<Seq<char>> {
    occurrences.filter(|o: Option<Seq<char>>| o is Some).map_values(
        |o: Option<Seq<char>>| o.unwrap(),
    )
}

/// `getopts::Options::new`.
///
/// Trusted, not proved: the new set declares no option and parses in plain
/// style.
#[verifier::external_body]
pub(crate) fn new_options() -> (o: getopts::Options)
    ensures
        declared_options(o) == Seq::<Declaration>::empty(),
        plain_style(o),
{
    getopts::Options::new()
}

/// `getopts::Options::optflag`: declares an option without argument that may
/// come once.
///
/// Trusted, not proved: the declaration is added after those made before,
/// with an empty hint, and the style stays. The outside function panics on a
/// short name of more than one byte and on a long name of one byte; the
/// precondition leaves out more, all names that are not ASCII.
#[verifier::external_body]
pub(crate) fn declare_flag(o: &mut getopts::Options, short: &str, long: &str, desc: &str)
    requires
        names_accepted(short, long),
    ensures
        declared_options(*final(o)) == declared_options(*old(o)).push(
            (Declaration {
                short: short@,
                long: long@,
                hint: Seq::<char>::empty(),
                desc: desc@,
                argument: TakesArgument::No,
                occurrence: Occurrence::Optional,
            }),
        ),
        plain_style(*final(o)) == plain_style(*old(o)),
{
    o.optflag(short, long, desc);
}

/// `getopts::Options::optopt`: declares an option with an argument that may
/// come once.
///
/// Trusted, not proved: the declaration is added after those made before,
/// and the style stays. Panics as `optflag`.
#[verifier::external_body]
pub(crate) fn declare_value(
    o: &mut getopts::Options,
    short: &str,
    long: &str,
    desc: &str,
    hint: &str,
)
    requires
        names_accepted(short, long),
    ensures
        declared_options(*final(o)) == declared_options(*old(o)).push(
            (Declaration {
                short: short@,
                long: long@,
                hint: hint@,
                desc: desc@,
                argument: TakesArgument::Yes,
                occurrence: Occurrence::Optional,
            }),
        ),
        plain_style(*final(o)) == plain_style(*old(o)),
{
    o.optopt(short, long, desc, hint);
}

/// `getopts::Options::optmulti`: declares an option with an argument that may
/// come any number of times.
///
/// Trusted, not proved: the declaration is added after those made before,
/// and the style stays. Panics as `optflag`.
#[verifier::external_body]
pub(crate) fn declare_values(
    o: &mut getopts::Options,
    short: &str,
    long: &str,
    desc: &str,
    hint: &str,
)
    requires
        names_accepted(short, long),
    ensures
        declared_options(*final(o)) == declared_options(*old(o)).push(
            (Declaration {
                short: short@,
                long: long@,
                hint: hint@,
                desc: desc@,
                argument: TakesArgument::Yes,
                occurrence: Occurrence::Multiple,
            }),
        ),
        plain_style(*final(o)) == plain_style(*old(o)),
{
    o.optmulti(short, long, desc, hint);
}

/// `getopts::Options::parse`: takes a list of arguments apart.
///
/// Trusted, not proved: in plain style, whether it succeeds, what the result
/// holds and what the fault says depend on the options declared and the
/// arguments alone, which `parse_outcome` names; and where it succeeds, the
/// result knows exactly the names that the options were declared with. The
/// outside function panics on a declaration without any name, which the
/// precondition leaves out; the precondition also leaves out every other
/// style, of which nothing is claimed.
#[verifier::external_body]
pub(crate) fn parse_arguments(o: &getopts::Options, args: &[String]) -> (r: Result<
    getopts::Matches,
    getopts::Fail,
>)
    requires
        all_named(declared_options(*o)),
        plain_style(*o),
    ensures
        match r {
            Ok(m) => parse_outcome(declared_options(*o), args.deep_view()) == Ok::<
                Map<Seq<char>, Seq<Option<Seq<char>>>>,
                Seq<char>,
            >(matched_options(m)) && matched_options(m).dom() == declared_names(
                declared_options(*o),
            ),
            Err(f) => parse_outcome(declared_options(*o), args.deep_view()) == Err::<
                Map<Seq<char>, Seq<Option<Seq<char>>>>,
                Seq<char>,
            >(fail_words(f)),
        },
{
    o.parse(args)
}

/// `getopts::Matches::opt_present`: whether an option came at all.
///
/// Trusted, not proved: the result says whether the option has an
/// occurrence. The outside function panics on a name that no option was
/// declared with, which the precondition leaves out.
#[verifier::external_body]
pub(crate) fn option_present(m: &getopts::Matches, name: &str) -> (r: bool)
    requires
        matched_options(*m).dom().contains(name@),
    ensures
        r == (matched_options(*m)[name@].len() > 0),
{
    m.opt_present(name)
}

/// `getopts::Matches::opt_str`: the argument of the first occurrence of an
/// option.
///
/// Trusted, not proved: the result is that argument, and `None` where the
/// option did not come or came first without one. Panics as `opt_present`.
#[verifier::external_body]
pub(crate) fn option_text(m: &getopts::Matches, name: &str) -> (r: Option<String>)
    requires
        matched_options(*m).dom().contains(name@),
    ensures
        text_of(r) == first_argument(matched_options(*m)[name@]),
{
    m.opt_str(name)
}

/// `getopts::Matches::opt_strs`: the arguments of all occurrences of an
/// option.
///
/// Trusted, not proved: the result holds, in order, the argument of every
/// occurrence that has one. Panics as `opt_present`.
#[verifier::external_body]
pub(crate) fn option_texts(m: &getopts::Matches, name: &str) -> (r: Vec<String>)
    requires
        matched_options(*m).dom().contains(name@),
    ensures
        r.deep_view() == arguments(matched_options(*m)[name@]),
{
    m.opt_strs(name)
}

/// `getopts::Options::usage`: the help text for the declared options under a
/// first line.
///
/// Trusted, not proved: in plain style the text depends on the options
/// declared and the first line alone, which `usage_outcome` names. The
/// precondition leaves out every other style, of which nothing is claimed.
#[verifier::external_body]
pub(crate) fn usage_text(o: &getopts::Options, brief: &str) -> (r: String)
    requires
        plain_style(*o),
    ensures
        r@ == usage_outcome(declared_options(*o), brief@),
{
    o.usage(brief)
}

/// `getopts::Fail`'s `to_string`: the fault in words.
///
/// Trusted, not proved: the text depends on the fault alone, which
/// `fail_words` names.
#[verifier::external_body]
pub(crate) fn fail_text(f: &getopts::Fail) -> (r: String)
    ensures
        r@ == fail_words(*f),
{
    f.to_string()
}

} // verus!
