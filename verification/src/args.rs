//! The command line: `ngal [-h | --help | help] [--version] [<game directory>]`.
use vstd::prelude::*;
use crate::text::str_eq;

verus! {

/// What the command line asks for.
pub struct Args {
    /// Whether the help text was asked for.
    pub help: bool,
    /// Whether the version was asked for.
    pub version: bool,
    /// The game directory; `.` when none is given.
    pub game_dir: String,
}

/// One of the words that ask for the help text.
pub open spec fn is_help_word(a: Seq<char>) -> bool {
    a == "-h"@ || a == "--help"@ || a == "help"@
}

/// The word that asks for the version.
pub open spec fn is_version_word(a: Seq<char>) -> bool {
    a == "--version"@
}

/// Whether one of the arguments `args[1..n]` asks for the version.
pub open spec fn version_asked(args: Seq<Seq<char>>, n: int) -> bool
    decreases n,
{
    if n <= 1 {
        false
    } else {
        is_version_word(args[n - 1]) || version_asked(args, n - 1)
    }
}

/// Whether one of the arguments `args[1..n]` asks for help.
pub open spec fn help_asked(args: Seq<Seq<char>>, n: int) -> bool
    decreases n,
{
    if n <= 1 {
        false
    } else {
        is_help_word(args[n - 1]) || help_asked(args, n - 1)
    }
}

/// The game directory that the arguments `args[1..n]` give: the last of
/// them that is neither a help word nor a version word, else `.`.
pub open spec fn dir_given(args: Seq<Seq<char>>, n: int) -> Seq<char>
    decreases n,
{
    if n <= 1 {
        "."@
    } else if is_help_word(args[n - 1]) || is_version_word(args[n - 1]) {
        dir_given(args, n - 1)
    } else {
        args[n - 1]
    }
}

fn help_word(a: &str) -> (r: bool)
    ensures
        r == is_help_word(a@),
{
    str_eq(a, "-h") || str_eq(a, "--help") || str_eq(a, "help")
}

fn version_word(a: &str) -> (r: bool)
    ensures
        r == is_version_word(a@),
{
    str_eq(a, "--version")
}

impl Args {
    /// Reads the command line, `args[0]` being the program's name.
    pub fn parse(args: &Vec<String>) -> (r: Args)
        requires
            args@.len() >= 1,
        ensures
            r.help == help_asked(args@.map_values(|s: String| s@), args@.len() as int),
            r.version == version_asked(args@.map_values(|s: String| s@), args@.len() as int),
            r.game_dir@ == dir_given(args@.map_values(|s: String| s@), args@.len() as int),
    {
        let ghost words = args@.map_values(|s: String| s@);
        let mut help = false;
        let mut version = false;
        let mut game_dir = ".".to_string();
        let mut i: usize = 1;
        while i < args.len()
            invariant
                1 <= i <= args@.len(),
                words == args@.map_values(|s: String| s@),
                help == help_asked(words, i as int),
                version == version_asked(words, i as int),
                game_dir@ == dir_given(words, i as int),
            decreases args@.len() - i,
        {
            let a = args[i].as_str();
            assert(words[i as int] == a@);
            let h = help_word(a);
            let v = version_word(a);
            if h {
                help = true;
            }
            if v {
                version = true;
            }
            if !h && !v {
                game_dir = a.to_string();
            }
            i = i + 1;
        }
        Args { help, version, game_dir }
    }
}

} // verus!
