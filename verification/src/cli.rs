//! The command line of commitward.

use vstd::prelude::*;

use crate::text::same_text;

verus! {

/// The format of a report.
#[derive(Debug, Clone, Copy, PartialEq, Eq, Structural)]
pub enum Format {
    Text,
    Json,
    Markdown,
}

/// The options of a run.
#[derive(Debug)]
pub struct Options {
    /// The revision to diff `HEAD` against.
    pub base_ref: String,
    /// Diff the staged index instead.
    pub cached: bool,
    /// The file that holds the commit message.
    pub commit_msg_file: Option<String>,
    /// The global registry.
    pub registry: Option<String>,
    /// The repository's registry.
    pub repo_registry: Option<String>,
    /// The format of the report.
    pub format: Format,
}

/// The mathematical value of `Options`.
#[verifier::ext_equal]
pub struct OptionsModel {
    pub base_ref: Seq<char>,
    pub cached: bool,
    pub commit_msg_file: Option<Seq<char>>,
    pub registry: Option<Seq<char>>,
    pub repo_registry: Option<Seq<char>>,
    pub format: Format,
}

impl DeepView for Options {
    type V = OptionsModel;

    open spec fn deep_view(&self) -> OptionsModel {
        OptionsModel {
            base_ref: self.base_ref@,
            cached: self.cached,
            commit_msg_file: self.commit_msg_file.deep_view(),
            registry: self.registry.deep_view(),
            repo_registry: self.repo_registry.deep_view(),
            format: self.format,
        }
    }
}

/// What the command line asks for.
#[derive(Debug)]
pub enum Invocation {
    /// Answer the request on standard input.
    Gate,
    /// Print the help.
    Help,
    /// The command line is wrong, for this reason.
    Usage(String),
    /// Look at the diff of the repository.
    Native(Options),
}

/// The mathematical value of an `Invocation`.
#[verifier::ext_equal]
pub enum InvocationModel {
    Gate,
    Help,
    Usage(Seq<char>),
    Native(OptionsModel),
}

impl DeepView for Invocation {
    type V = InvocationModel;

    open spec fn deep_view(&self) -> InvocationModel {
        match self {
            Invocation::Gate => InvocationModel::Gate,
            Invocation::Help => InvocationModel::Help,
            Invocation::Usage(why) => InvocationModel::Usage(why@),
            Invocation::Native(options) => InvocationModel::Native(options.deep_view()),
        }
    }
}

/// The options of an empty command line.
pub open spec fn default_options() -> OptionsModel {
    OptionsModel {
        base_ref: "origin/main"@,
        cached: false,
        commit_msg_file: None,
        registry: None,
        repo_registry: None,
        format: Format::Text,
    }
}

/// The format of that name.
pub open spec fn format_named(name: Seq<char>) -> Option<Format> {
    if name == "text"@ {
        Some(Format::Text)
    } else if name == "json"@ {
        Some(Format::Json)
    } else if name == "markdown"@ {
        Some(Format::Markdown)
    } else {
        None
    }
}

/// A flag that takes an argument.
pub open spec fn takes_value(flag: Seq<char>) -> bool {
    ||| flag == "--base"@
    ||| flag == "--commit-msg-file"@
    ||| flag == "--registry"@
    ||| flag == "--repo-registry"@
    ||| flag == "--format"@
}

/// The options with the flag's argument set; none when the flag is `--format` and
/// there is no such format.
pub open spec fn with_value(options: OptionsModel, flag: Seq<char>, value: Seq<char>) -> Option<
    OptionsModel,
> {
    if flag == "--base"@ {
        Some(OptionsModel { base_ref: value, ..options })
    } else if flag == "--commit-msg-file"@ {
        Some(OptionsModel { commit_msg_file: Some(value), ..options })
    } else if flag == "--registry"@ {
        Some(OptionsModel { registry: Some(value), ..options })
    } else if flag == "--repo-registry"@ {
        Some(OptionsModel { repo_registry: Some(value), ..options })
    } else {
        match format_named(value) {
            Some(format) => Some(OptionsModel { format, ..options }),
            None => None,
        }
    }
}

/// What the arguments from `i` on ask for, given the options so far. The first
/// `--help` and the first mistake end the reading.
pub open spec fn parse_from(args: Seq<Seq<char>>, i: int, options: OptionsModel) -> InvocationModel
    decreases args.len() - i,
{
    if i >= args.len() {
        InvocationModel::Native(options)
    } else {
        let flag = args[i];
        if flag == "-h"@ || flag == "--help"@ {
            InvocationModel::Help
        } else if flag == "--cached"@ {
            parse_from(args, i + 1, OptionsModel { cached: true, ..options })
        } else if takes_value(flag) {
            if i + 1 >= args.len() {
                InvocationModel::Usage(flag + " requires an argument"@)
            } else {
                match with_value(options, flag, args[i + 1]) {
                    Some(next) => parse_from(args, i + 2, next),
                    None => InvocationModel::Usage(
                        "unknown format '"@ + args[i + 1] + "' (text|json|markdown)"@,
                    ),
                }
            }
        } else {
            InvocationModel::Usage("unknown flag '"@ + flag + "'"@)
        }
    }
}

/// What a command line asks for. Its first argument is the program's own name; a
/// `gate` right behind it asks for the request on standard input, whatever follows.
pub open spec fn invocation(args: Seq<Seq<char>>) -> InvocationModel {
    if args.len() > 1 && args[1] == "gate"@ {
        InvocationModel::Gate
    } else {
        parse_from(args, 1, default_options())
    }
}

/// The format of that name.
fn parse_format(name: &str) -> (r: Option<Format>)
    ensures
        r == format_named(name@),
{
    if same_text(name, "text") {
        Some(Format::Text)
    } else if same_text(name, "json") {
        Some(Format::Json)
    } else if same_text(name, "markdown") {
        Some(Format::Markdown)
    } else {
        None
    }
}

/// Whether a flag takes an argument.
fn wants_value(flag: &str) -> (r: bool)
    ensures
        r == takes_value(flag@),
{
    same_text(flag, "--base") || same_text(flag, "--commit-msg-file") || same_text(
        flag,
        "--registry",
    ) || same_text(flag, "--repo-registry") || same_text(flag, "--format")
}

/// Sets the flag's argument; `false`, and nothing set, when there is no such format.
fn set_value(options: &mut Options, flag: &str, value: &String) -> (r: bool)
    requires
        takes_value(flag@),
    ensures
        match with_value(old(options).deep_view(), flag@, value@) {
            Some(next) => r && final(options).deep_view() == next,
            None => !r && final(options).deep_view() == old(options).deep_view(),
        },
{
    if same_text(flag, "--base") {
        options.base_ref = value.clone();
    } else if same_text(flag, "--commit-msg-file") {
        options.commit_msg_file = Some(value.clone());
    } else if same_text(flag, "--registry") {
        options.registry = Some(value.clone());
    } else if same_text(flag, "--repo-registry") {
        options.repo_registry = Some(value.clone());
    } else {
        match parse_format(value.as_str()) {
            Some(format) => {
                options.format = format;
            },
            None => {
                return false;
            },
        }
    }
    true
}

/// Reads a command line.
pub fn parse_args(args: &[String]) -> (r: Invocation)
    ensures
        r.deep_view() == invocation(args.deep_view()),
{
    let ghost all = args.deep_view();
    if args.len() > 1 && same_text(args[1].as_str(), "gate") {
        return Invocation::Gate;
    }
    let mut options = Options {
        base_ref: "origin/main".to_owned(),
        cached: false,
        commit_msg_file: None,
        registry: None,
        repo_registry: None,
        format: Format::Text,
    };
    let count: usize = args.len();
    let mut i: usize = 1;
    while i < count
        invariant
            all == args.deep_view(),
            count == args@.len(),
            invocation(all) == parse_from(all, i as int, options.deep_view()),
        decreases count - i,
    {
        let flag = args[i].as_str();
        assert(flag@ == all[i as int]);
        if same_text(flag, "-h") || same_text(flag, "--help") {
            return Invocation::Help;
        }
        if same_text(flag, "--cached") {
            options.cached = true;
            i += 1;
        } else if wants_value(flag) {
            if count - i < 2 {
                return Invocation::Usage(flag.to_owned().concat(" requires an argument"));
            }
            if !set_value(&mut options, flag, &args[i + 1]) {
                return Invocation::Usage(
                    "unknown format '".to_owned().concat(args[i + 1].as_str()).concat(
                        "' (text|json|markdown)",
                    ),
                );
            }
            i += 2;
        } else {
            return Invocation::Usage("unknown flag '".to_owned().concat(flag).concat("'"));
        }
    }
    Invocation::Native(options)
}

// ── Before a run ─────────────────────────────────────────────────────────────

/// Whether the off switch is on: its variable is `off`.
pub fn switched_off(variable: Option<&str>) -> (r: bool)
    ensures
        r == (variable.deep_view() == Some("off"@)),
{
    match variable {
        Some(value) => same_text(value, "off"),
        None => false,
    }
}

/// The exit code of a command line that is done before anything is read: 0 for the
/// help, and for everything but a request when commitward is switched off; 64 for a
/// wrong command line.
pub open spec fn early_exit_code(invocation: InvocationModel, off: bool) -> Option<i32> {
    match invocation {
        InvocationModel::Gate => None,
        InvocationModel::Help => Some(0),
        InvocationModel::Usage(_) => Some(
            if off {
                0
            } else {
                64
            },
        ),
        InvocationModel::Native(_) => if off {
            Some(0)
        } else {
            None
        },
    }
}

/// The exit code of a command line that is done before anything is read.
pub fn early_exit(invocation: &Invocation, off: bool) -> (r: Option<i32>)
    ensures
        r == early_exit_code(invocation.deep_view(), off),
{
    match invocation {
        Invocation::Gate => None,
        Invocation::Help => Some(0),
        Invocation::Usage(_) => if off {
            Some(0)
        } else {
            Some(64)
        },
        Invocation::Native(_) => if off {
            Some(0)
        } else {
            None
        },
    }
}

/// Where the global registry lies.
#[derive(Debug)]
pub enum RegistryPlace {
    /// At this path.
    At(String),
    /// A `checkpoints.yaml` in this directory.
    In(String),
    /// A `checkpoints.yaml` in the working directory.
    Here,
}

/// Where the global registry lies: where the command line says, else where the
/// environment says, else beside the executable, else in the working directory.
pub fn registry_place(
    flag: Option<String>,
    variable: Option<String>,
    executable_dir: Option<String>,
) -> (r: RegistryPlace)
    ensures
        r == (match (flag, variable, executable_dir) {
            (Some(path), _, _) => RegistryPlace::At(path),
            (None, Some(path), _) => RegistryPlace::At(path),
            (None, None, Some(dir)) => RegistryPlace::In(dir),
            (None, None, None) => RegistryPlace::Here,
        }),
{
    match (flag, variable, executable_dir) {
        (Some(path), _, _) => RegistryPlace::At(path),
        (None, Some(path), _) => RegistryPlace::At(path),
        (None, None, Some(dir)) => RegistryPlace::In(dir),
        (None, None, None) => RegistryPlace::Here,
    }
}

// ── During a run ─────────────────────────────────────────────────────────────

/// Where the repository's registry lies in the repository, unless the command line
/// says otherwise.
pub const REPO_REGISTRY: &'static str = ".commitward/checkpoints.yaml";

/// The revision to diff against; none for the staged index.
pub fn diff_base<'a>(options: &'a Options) -> (r: Option<&'a str>)
    ensures
        r.deep_view() == (if options.cached {
            None
        } else {
            Some(options.base_ref@)
        }),
{
    if options.cached {
        None
    } else {
        Some(options.base_ref.as_str())
    }
}

/// The revision at which the repository's registry is the one to compare with.
pub fn base_revision<'a>(options: &'a Options) -> (r: &'a str)
    ensures
        r@ == (if options.cached {
            "HEAD"@
        } else {
            options.base_ref@
        }),
{
    if options.cached {
        "HEAD"
    } else {
        options.base_ref.as_str()
    }
}

/// The repository's registry as a path in the repository: that of the file in use
/// where it lies there, else the default one.
pub fn registry_in_repo(relative: Option<String>) -> (r: String)
    ensures
        r@ == (match relative {
            Some(path) => path@,
            None => REPO_REGISTRY@,
        }),
{
    match relative {
        Some(path) => path,
        None => REPO_REGISTRY.to_owned(),
    }
}

} // verus!
