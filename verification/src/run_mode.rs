//! The first word of the command line: pack, serve or help.

use vstd::prelude::*;
use crate::builder_config::BuilderRunConfig;
use crate::path_map::str_equal;
use crate::server_config::ServerRunConfig;

verus! {

/// The mode the program runs in, with its settings.
pub enum RunMode {
    Server(ServerRunConfig),
    Builder(BuilderRunConfig),
}

/// The command that the arguments name.
pub enum RunCommand {
    /// Show the usage text and stop.
    Help,
    /// Pack, with these arguments.
    Pack(Vec<String>),
    /// Serve, with these arguments.
    Serve(Vec<String>),
    /// An unknown command word.
    Unknown(String),
}

/// `args` with every `x` removed.
pub open spec fn without(args: Seq<Seq<char>>, x: Seq<char>) -> Seq<Seq<char>>
    decreases args.len(),
{
    if args.len() == 0 {
        args
    } else if args.last() == x {
        without(args.drop_last(), x)
    } else {
        without(args.drop_last(), x).push(args.last())
    }
}

/// The command named by `args` (the program name first): none but the
/// program name asks for help; otherwise `--verbose` is taken out wherever it
/// stands and the next word decides.
pub open spec fn command_of(args: Seq<Seq<char>>) -> (bool, Seq<char>, Seq<Seq<char>>) {
    let rest = without(args, "--verbose"@);
    (args.contains("--verbose"@), rest[1], rest.skip(2))
}

/// Reads the command line `arguments` (the program name first). The flag
/// says whether `--verbose` was given.
pub fn parse(arguments: &Vec<String>) -> (r: (bool, RunCommand))
    requires
        arguments@.len() == 1 || without(arguments@.map_values(|s: String| s@), "--verbose"@).len() >= 2,
    ensures
        arguments@.len() == 1 ==> r.1 is Help && !r.0,
        arguments@.len() != 1 ==> {
            let (verbose, word, rest) = command_of(arguments@.map_values(|s: String| s@));
            &&& r.0 == verbose
            &&& match r.1 {
                RunCommand::Help => word == "--help"@,
                RunCommand::Pack(a) => word == "--pack"@ && a@.map_values(|s: String| s@) == rest,
                RunCommand::Serve(a) => word == "--serve"@ && a@.map_values(|s: String| s@) == rest,
                RunCommand::Unknown(w) => w@ == word && word != "--help"@ && word != "--pack"@ && word != "--serve"@,
            }
        },
{
    let ghost args = arguments@.map_values(|s: String| s@);
    if arguments.len() == 1 {
        return (false, RunCommand::Help);
    }
    let mut verbose = false;
    let mut rest: Vec<String> = Vec::new();
    let mut i: usize = 0;
    while i < arguments.len()
        invariant
            i <= arguments@.len(),
            args == arguments@.map_values(|s: String| s@),
            rest@.map_values(|s: String| s@) == without(args.take(i as int), "--verbose"@),
            verbose == args.take(i as int).contains("--verbose"@),
        decreases arguments@.len() - i,
    {
        let ghost before = rest@;
        assert(args.take(i + 1).drop_last() =~= args.take(i as int));
        assert(args.take(i + 1).last() == arguments@[i as int]@);
        if str_equal(arguments[i].as_str(), "--verbose") {
            verbose = true;
            assert(args.take(i + 1)[i as int] == "--verbose"@);
        } else {
            let a = arguments[i].clone();
            rest.push(a);
            assert(rest@.map_values(|s: String| s@) =~= before.map_values(|s: String| s@).push(a@));
        }
        assert(args.take(i + 1).contains("--verbose"@) == (args.take(i as int).contains("--verbose"@)
            || arguments@[i as int]@ == "--verbose"@)) by {
            let t = args.take(i + 1);
            if t.contains("--verbose"@) {
                let j = choose|j: int| 0 <= j < t.len() && t[j] == "--verbose"@;
                if j < i {
                    assert(args.take(i as int)[j] == "--verbose"@);
                }
            }
            if args.take(i as int).contains("--verbose"@) {
                let j = choose|j: int| 0 <= j < i && args.take(i as int)[j] == "--verbose"@;
                assert(t[j] == "--verbose"@);
            }
        }
        i = i + 1;
    }
    assert(args.take(arguments@.len() as int) =~= args);
    let ghost rv = rest@.map_values(|s: String| s@);
    assert(rest@[1]@ == rv[1]);
    let mut tail: Vec<String> = Vec::new();
    let mut j: usize = 2;
    while j < rest.len()
        invariant
            2 <= j <= rest@.len(),
            rv == rest@.map_values(|s: String| s@),
            tail@.map_values(|s: String| s@) == rv.subrange(2, j as int),
        decreases rest@.len() - j,
    {
        let ghost before = tail@;
        let a = rest[j].clone();
        tail.push(a);
        assert(tail@.map_values(|s: String| s@) =~= before.map_values(|s: String| s@).push(a@));
        assert(rv.subrange(2, j + 1) =~= rv.subrange(2, j as int).push(rv[j as int]));
        j = j + 1;
    }
    assert(rv.subrange(2, rv.len() as int) =~= rv.skip(2));
    let word = &rest[1];
    if str_equal(word.as_str(), "--pack") {
        (verbose, RunCommand::Pack(tail))
    } else if str_equal(word.as_str(), "--serve") {
        (verbose, RunCommand::Serve(tail))
    } else if str_equal(word.as_str(), "--help") {
        (verbose, RunCommand::Help)
    } else {
        (verbose, RunCommand::Unknown(word.clone()))
    }
}

} // verus!
