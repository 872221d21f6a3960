//! Where a scan starts.

use vstd::prelude::*;
use vstd::string::*;

use crate::text::same_text;

verus! {

/// The texts of some arguments.
pub open spec fn words(args: Seq<String>) -> Seq<Seq<char>> {
    args.map_values(|a: String| a@)
}

/// The directory to scan, given the arguments after the name of the program and
/// the value of `HOME`: the first argument, or the second where the first is the
/// `wipe` that cargo passes to a subcommand, or else the home directory, or
/// else the current one.
pub open spec fn start_dir_of(args: Seq<Seq<char>>, home: Option<Seq<char>>) -> Seq<char> {
    if args.len() > 0 && args[0] != "wipe"@ {
        args[0]
    } else if args.len() > 1 {
        args[1]
    } else {
        match home {
            Some(dir) => if dir.len() > 0 {
                dir
            } else {
                "."@
            },
            None => "."@,
        }
    }
}

/// The directory to scan, given the arguments after the name of the program and
/// the value of `HOME`, if it is set.
pub fn determine_start_dir(args: &Vec<String>, home: Option<&str>) -> (dir: String)
    ensures
        dir@ == start_dir_of(
            words(args@),
            match home {
                Some(dir) => Some(dir@),
                None => None,
            },
        ),
{
    let ghost given = words(args@);
    if args.len() > 0 {
        assert(given[0] == args@[0]@);
        // Cargo passes "wipe" as the first argument when it runs a subcommand.
        if !same_text(args[0].as_str(), "wipe") {
            return args[0].clone();
        }
        if args.len() > 1 {
            assert(given[1] == args@[1]@);
            return args[1].clone();
        }
    }
    if let Some(dir) = home {
        if !dir.is_empty() {
            return dir.to_owned();
        }
    }
    ".".to_owned()
}

/// Whether the next argument has a say in where the scan starts, after the ones
/// read so far.
pub open spec fn next_matters(args: Seq<Seq<char>>) -> bool {
    args.len() == 0 || (args.len() == 1 && args[0] == "wipe"@)
}

/// Whether the next argument is to be read, after the ones read so far.
pub fn needs_next(args: &Vec<String>) -> (needs: bool)
    ensures
        needs == next_matters(words(args@)),
{
    args.len() == 0 || (args.len() == 1 && same_text(args[0].as_str(), "wipe"))
}

/// Arguments that are not read make no difference.
pub proof fn the_rest_makes_no_difference(
    args: Seq<Seq<char>>,
    rest: Seq<Seq<char>>,
    home: Option<Seq<char>>,
)
    requires
        !next_matters(args),
    ensures
        start_dir_of(args + rest, home) == start_dir_of(args, home),
{
    let all = args + rest;
    assert(all[0] == args[0]);
    if args.len() > 1 {
        assert(all[1] == args[1]);
    }
}

/// Under cargo the program starts where it does on its own.
pub proof fn subcommand_makes_no_difference(args: Seq<Seq<char>>, home: Option<Seq<char>>)
    requires
        args.len() > 0 ==> args[0] != "wipe"@,
    ensures
        start_dir_of(seq!["wipe"@] + args, home) == start_dir_of(args, home),
{
    let all = seq!["wipe"@] + args;
    assert(all[0] == "wipe"@);
    if args.len() > 0 {
        assert(all[1] == args[0]);
    }
}

} // verus!
