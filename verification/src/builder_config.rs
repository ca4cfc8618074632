//! The packer's own command line (`--folder`, `--output`, `--no-gzip`,
//! `--overwrite`) and the validation of the paths it names.

use vstd::prelude::*;
use crate::path_map::str_equal;
use crate::paths::{join, join_of};
use crate::text::{cat, chars_of, own, same_result};

verus! {

/// The file name given to the packed executable when no output is named.
pub const FILESAVENAME: &'static str = "output.run";

/// What the packer was asked to do.
pub struct BuilderRunConfig {
    pub input_path: String,
    pub output_path: String,
    pub use_gzip: bool,
    pub overwrite: bool,
}

/// Why an argument list was refused.
pub enum BuilderArgError {
    /// `--folder` was followed by another option.
    MissingFolderPath,
    /// `--output` was followed by another option.
    MissingOutputPath,
    /// A value came where no option asked for one.
    UnexpectedValue(String),
}

/// The state of reading the arguments.
pub struct ArgState {
    pub input: Seq<char>,
    pub output: Seq<char>,
    pub gzip: bool,
    pub overwrite: bool,
    pub folder_next: bool,
    pub output_next: bool,
    pub unknown: Seq<Seq<char>>,
}

/// Why reading stopped.
pub enum ArgFailure {
    MissingFolderPath,
    MissingOutputPath,
    UnexpectedValue(Seq<char>),
}

/// Whether an argument is an option: it starts with `--`.
pub open spec fn is_option(arg: Seq<char>) -> bool {
    arg.len() >= 2 && arg[0] == '-' && arg[1] == '-'
}

/// The state before any argument.
pub open spec fn initial_state() -> ArgState {
    ArgState {
        input: Seq::empty(),
        output: Seq::empty(),
        gzip: true,
        overwrite: false,
        folder_next: false,
        output_next: false,
        unknown: Seq::empty(),
    }
}

/// Reads one argument.
pub open spec fn arg_step(st: ArgState, arg: Seq<char>) -> Result<ArgState, ArgFailure> {
    if is_option(arg) {
        if st.folder_next {
            Err(ArgFailure::MissingFolderPath)
        } else if st.output_next {
            Err(ArgFailure::MissingOutputPath)
        } else if arg == "--folder"@ {
            Ok(ArgState { folder_next: true, ..st })
        } else if arg == "--output"@ {
            Ok(ArgState { output_next: true, ..st })
        } else if arg == "--no-gzip"@ {
            Ok(ArgState { gzip: false, ..st })
        } else if arg == "--overwrite"@ {
            Ok(ArgState { overwrite: true, ..st })
        } else {
            Ok(ArgState { unknown: st.unknown.push(arg), ..st })
        }
    } else if st.folder_next {
        Ok(ArgState { input: arg, folder_next: false, ..st })
    } else if st.output_next {
        Ok(ArgState { output: arg, output_next: false, ..st })
    } else {
        Err(ArgFailure::UnexpectedValue(arg))
    }
}

/// Reads the arguments in order, stopping at the first refusal.
pub open spec fn read_args(args: Seq<Seq<char>>) -> Result<ArgState, ArgFailure>
    decreases args.len(),
{
    if args.len() == 0 {
        Ok(initial_state())
    } else {
        match read_args(args.drop_last()) {
            Ok(st) => arg_step(st, args.last()),
            Err(e) => Err(e),
        }
    }
}

/// The result of `BuilderRunConfig::parse` agrees with `read_args`.
pub open spec fn parse_agrees(r: Result<(BuilderRunConfig, Vec<String>), BuilderArgError>, args: Seq<Seq<char>>) -> bool {
    match (r, read_args(args)) {
        (Ok((c, unknown)), Ok(st)) => {
            &&& c.input_path@ == st.input
            &&& c.output_path@ == st.output
            &&& c.use_gzip == st.gzip
            &&& c.overwrite == st.overwrite
            &&& unknown@.map_values(|s: String| s@) == st.unknown
        },
        (Err(BuilderArgError::MissingFolderPath), Err(ArgFailure::MissingFolderPath)) => true,
        (Err(BuilderArgError::MissingOutputPath), Err(ArgFailure::MissingOutputPath)) => true,
        (Err(BuilderArgError::UnexpectedValue(a)), Err(ArgFailure::UnexpectedValue(b))) => a@ == b,
        _ => false,
    }
}

/// Once reading stops, later arguments do not change the outcome.
proof fn lemma_refusal_sticks(args: Seq<Seq<char>>, i: int)
    requires
        0 <= i <= args.len(),
        read_args(args.take(i)) is Err,
    ensures
        read_args(args) == read_args(args.take(i)),
    decreases args.len() - i,
{
    if i == args.len() {
        assert(args.take(i) =~= args);
    } else {
        assert(args.take(i + 1).drop_last() =~= args.take(i));
        lemma_refusal_sticks(args, i + 1);
    }
}

/// The unknown options met before reading stops: all of them when every
/// argument is read, else those met before the refused argument.
pub open spec fn unknown_met(args: Seq<Seq<char>>) -> Seq<Seq<char>>
    decreases args.len(),
{
    if args.len() == 0 {
        Seq::empty()
    } else {
        match read_args(args.drop_last()) {
            Err(_) => unknown_met(args.drop_last()),
            Ok(st) => match read_args(args) {
                Ok(next) => next.unknown,
                Err(_) => st.unknown,
            },
        }
    }
}

/// While reading goes on, the unknown options met are those of the state.
proof fn lemma_unknown_of_state(args: Seq<Seq<char>>)
    requires
        read_args(args) is Ok,
    ensures
        unknown_met(args) == read_args(args)->Ok_0.unknown,
{
}

/// Once reading stops, later arguments add no unknown option.
proof fn lemma_unknown_sticks(args: Seq<Seq<char>>, i: int)
    requires
        0 <= i <= args.len(),
        read_args(args.take(i)) is Err,
    ensures
        unknown_met(args) == unknown_met(args.take(i)),
    decreases args.len() - i,
{
    if i == args.len() {
        assert(args.take(i) =~= args);
    } else {
        assert(args.take(i + 1).drop_last() =~= args.take(i));
        lemma_refusal_sticks(args.take(i + 1), i);
        assert(args.take(i + 1).take(i) =~= args.take(i));
        lemma_unknown_sticks(args, i + 1);
    }
}

/// The outcome of reading agrees with `read_args`, and the unknown options
/// returned are `unknown_met`.
pub open spec fn reading_agrees(r: (Result<BuilderRunConfig, BuilderArgError>, Vec<String>), args: Seq<Seq<char>>) -> bool {
    &&& r.1@.map_values(|s: String| s@) == unknown_met(args)
    &&& match (r.0, read_args(args)) {
        (Ok(c), Ok(st)) => {
            &&& c.input_path@ == st.input
            &&& c.output_path@ == st.output
            &&& c.use_gzip == st.gzip
            &&& c.overwrite == st.overwrite
        },
        (Err(BuilderArgError::MissingFolderPath), Err(ArgFailure::MissingFolderPath)) => true,
        (Err(BuilderArgError::MissingOutputPath), Err(ArgFailure::MissingOutputPath)) => true,
        (Err(BuilderArgError::UnexpectedValue(a)), Err(ArgFailure::UnexpectedValue(b))) => a@ == b,
        _ => false,
    }
}

impl BuilderArgError {
    /// The message shown for the refusal.
    pub fn message(&self) -> (r: String)
        ensures
            r@ == match self {
                BuilderArgError::MissingFolderPath => "path is required after --folder."@,
                BuilderArgError::MissingOutputPath => "path is required after --output."@,
                BuilderArgError::UnexpectedValue(v) => "Unexpected value: "@ + v@,
            },
    {
        match self {
            BuilderArgError::MissingFolderPath => own("path is required after --folder."),
            BuilderArgError::MissingOutputPath => own("path is required after --output."),
            BuilderArgError::UnexpectedValue(v) => cat("Unexpected value: ", v.as_str()),
        }
    }
}

/// What to do about an output file that may already exist.
pub enum OutputStep {
    /// The output is a directory: refuse, with this message.
    Reject(String),
    /// Delete the existing file, as overwriting was asked for.
    Remove,
    /// Ask whether to overwrite the existing file.
    Ask,
    /// Nothing is in the way.
    Proceed,
}

impl BuilderRunConfig {
    /// Reads the arguments up to the first refusal: the outcome, and the
    /// unknown options met before reading stopped.
    fn read_arguments(arguments: &Vec<String>) -> (r: (Result<BuilderRunConfig, BuilderArgError>, Vec<String>))
        ensures
            reading_agrees(r, arguments@.map_values(|s: String| s@)),
    {
        let ghost args = arguments@.map_values(|s: String| s@);
        let mut config = BuilderRunConfig {
            input_path: String::new(),
            output_path: String::new(),
            use_gzip: true,
            overwrite: false,
        };
        let mut folder_next = false;
        let mut output_next = false;
        let mut unknown: Vec<String> = Vec::new();
        let mut i: usize = 0;
        assert(args.take(0).len() == 0);
        assert(unknown@.map_values(|s: String| s@) =~= Seq::<Seq<char>>::empty());
        assert(read_args(args.take(0)) == Ok::<ArgState, ArgFailure>(initial_state()));
        assert(unknown_met(args.take(0)) =~= Seq::<Seq<char>>::empty());
        assert(config.input_path@ =~= Seq::<char>::empty());
        assert(config.output_path@ =~= Seq::<char>::empty());
        while i < arguments.len()
            invariant
                i <= arguments@.len(),
                args == arguments@.map_values(|s: String| s@),
                read_args(args.take(i as int)) == Ok::<ArgState, ArgFailure>(ArgState {
                    input: config.input_path@,
                    output: config.output_path@,
                    gzip: config.use_gzip,
                    overwrite: config.overwrite,
                    folder_next,
                    output_next,
                    unknown: unknown@.map_values(|s: String| s@),
                }),
            decreases arguments@.len() - i,
        {
            let arg = &arguments[i];
            assert(args.take(i + 1).drop_last() =~= args.take(i as int));
            assert(args.take(i + 1).last() == arg@);
            let v = chars_of(arg.as_str());
            if v.len() >= 2 && v[0] == '-' && v[1] == '-' {
                if folder_next {
                    proof {
                        lemma_refusal_sticks(args, i + 1);
                        lemma_unknown_sticks(args, i + 1);
                    }
                    return (Err(BuilderArgError::MissingFolderPath), unknown);
                }
                if output_next {
                    proof {
                        lemma_refusal_sticks(args, i + 1);
                        lemma_unknown_sticks(args, i + 1);
                    }
                    return (Err(BuilderArgError::MissingOutputPath), unknown);
                }
                if str_equal(arg.as_str(), "--folder") {
                    folder_next = true;
                } else if str_equal(arg.as_str(), "--output") {
                    output_next = true;
                } else if str_equal(arg.as_str(), "--no-gzip") {
                    config.use_gzip = false;
                } else if str_equal(arg.as_str(), "--overwrite") {
                    config.overwrite = true;
                } else {
                    let ghost before = unknown@;
                    let a = arg.clone();
                    unknown.push(a);
                    assert(unknown@.map_values(|s: String| s@) =~= before.map_values(|s: String| s@).push(arg@));
                }
            } else {
                if folder_next {
                    config.input_path = arg.clone();
                    folder_next = false;
                } else if output_next {
                    config.output_path = arg.clone();
                    output_next = false;
                } else {
                    proof {
                        lemma_refusal_sticks(args, i + 1);
                        lemma_unknown_sticks(args, i + 1);
                    }
                    return (Err(BuilderArgError::UnexpectedValue(arg.clone())), unknown);
                }
            }
            i = i + 1;
        }
        assert(args.take(arguments@.len() as int) =~= args);
        proof {
            lemma_unknown_of_state(args);
        }
        (Ok(config), unknown)
    }

    /// Reads the packer's arguments. On success it gives the settings and the
    /// unknown options met on the way (each is reported, then reading goes on).
    pub fn parse(arguments: &Vec<String>) -> (r: Result<(BuilderRunConfig, Vec<String>), BuilderArgError>)
        ensures
            parse_agrees(r, arguments@.map_values(|s: String| s@)),
    {
        let (outcome, unknown) = Self::read_arguments(arguments);
        proof {
            let args = arguments@.map_values(|s: String| s@);
            if read_args(args) is Ok {
                lemma_unknown_of_state(args);
            }
        }
        match outcome {
            Ok(config) => Ok((config, unknown)),
            Err(e) => Err(e),
        }
    }

    /// The unknown options met while reading the arguments, up to the first
    /// refusal: each is reported as it is met, also when reading then stops.
    pub fn unknown_options(arguments: &Vec<String>) -> (r: Vec<String>)
        ensures
            r@.map_values(|s: String| s@) == unknown_met(arguments@.map_values(|s: String| s@)),
    {
        let (_, unknown) = Self::read_arguments(arguments);
        unknown
    }

    /// Checks the folder to pack, given whether it exists and is a directory;
    /// the error is the message shown.
    pub fn validate_input_dir_path(&self, exists: bool, is_dir: bool) -> (r: Result<(), String>)
        ensures
            same_result(r, input_dir_verdict(self.input_path@, exists, is_dir)),
    {
        if chars_of(self.input_path.as_str()).len() == 0 {
            return Err(own("No input path provided. Use --folder <path> to specify the folder to pack."));
        }
        if !exists {
            return Err(cat("the specified input path does not exist: ", self.input_path.as_str()));
        }
        if !is_dir {
            return Err(cat("The specified input path is not a directory: ", self.input_path.as_str()));
        }
        Ok(())
    }

    /// Names the output `output.run` inside the input folder when none was given.
    pub fn set_default_output(&mut self)
        ensures
            final(self).input_path == old(self).input_path,
            final(self).use_gzip == old(self).use_gzip,
            final(self).overwrite == old(self).overwrite,
            final(self).output_path@ == if old(self).output_path@.len() == 0 {
                join_of(old(self).input_path@, FILESAVENAME@)
            } else {
                old(self).output_path@
            },
    {
        if chars_of(self.output_path.as_str()).len() == 0 {
            self.output_path = join(self.input_path.as_str(), FILESAVENAME);
        }
    }

    /// What to do about the output file, given whether something exists at
    /// its path and whether that is a directory.
    pub fn output_step(&self, exists: bool, is_dir: bool) -> (r: OutputStep)
        ensures
            match r {
                OutputStep::Reject(m) => exists && is_dir
                    && m@ == "The specified output path is a directory, it must be a file: "@ + self.output_path@,
                OutputStep::Remove => exists && !is_dir && self.overwrite,
                OutputStep::Ask => exists && !is_dir && !self.overwrite,
                OutputStep::Proceed => !exists,
            },
    {
        if exists {
            if is_dir {
                return OutputStep::Reject(cat(
                    "The specified output path is a directory, it must be a file: ",
                    self.output_path.as_str(),
                ));
            }
            if self.overwrite {
                return OutputStep::Remove;
            }
            return OutputStep::Ask;
        }
        OutputStep::Proceed
    }
}

/// The verdict on the folder to pack.
pub open spec fn input_dir_verdict(input: Seq<char>, exists: bool, is_dir: bool) -> Result<(), Seq<char>> {
    if input.len() == 0 {
        Err("No input path provided. Use --folder <path> to specify the folder to pack."@)
    } else if !exists {
        Err("the specified input path does not exist: "@ + input)
    } else if !is_dir {
        Err("The specified input path is not a directory: "@ + input)
    } else {
        Ok(())
    }
}

/// The answer a line typed at the overwrite question gives: yes for `y` or
/// `Y`, no for `n` or `N` (each followed by a newline), else none.
pub fn overwrite_answer(line: &str) -> (r: Option<bool>)
    ensures
        r == if line@ == "y\n"@ || line@ == "Y\n"@ {
            Some(true)
        } else if line@ == "n\n"@ || line@ == "N\n"@ {
            Some(false)
        } else {
            None::<bool>
        },
{
    if str_equal(line, "y\n") || str_equal(line, "Y\n") {
        Some(true)
    } else if str_equal(line, "n\n") || str_equal(line, "N\n") {
        Some(false)
    } else {
        None
    }
}

/// Once the arguments are read, `use_gzip` is off exactly when `--no-gzip`
/// was given, and `overwrite` is on exactly when `--overwrite` was given.
pub proof fn law_flags_follow_options(args: Seq<Seq<char>>)
    requires
        read_args(args) is Ok,
    ensures
        read_args(args)->Ok_0.gzip == !args.contains("--no-gzip"@),
        read_args(args)->Ok_0.overwrite == args.contains("--overwrite"@),
    decreases args.len(),
{
    reveal_strlit("--no-gzip");
    reveal_strlit("--overwrite");
    reveal_strlit("--folder");
    reveal_strlit("--output");
    if args.len() == 0 {
    } else {
        let init = args.drop_last();
        let a = args.last();
        law_flags_follow_options(init);
        assert forall|x: Seq<char>| args.contains(x) <==> (init.contains(x) || x == a) by {
            if args.contains(x) {
                let j = choose|j: int| 0 <= j < args.len() && args[j] == x;
                if j < args.len() - 1 {
                    assert(init[j] == x);
                }
            }
            if init.contains(x) {
                let j = choose|j: int| 0 <= j < init.len() && init[j] == x;
                assert(args[j] == x);
            }
            if x == a {
                assert(args[args.len() - 1] == x);
            }
        }
        if a == "--no-gzip"@ || a == "--overwrite"@ {
            assert(is_option(a));
        }
        if !is_option(a) {
            assert(a != "--no-gzip"@);
            assert(a != "--overwrite"@);
        }
    }
}

} // verus!
