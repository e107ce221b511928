//! Command-line arguments.
use vstd::prelude::*;
use crate::text::{chars_of, eq_at, string_of, texts};
use crate::vendor::{equals_folded, equals_folded_exec};

verus! {

broadcast use vstd::string::group_string_axioms;

/// The options given on the command line.
#[derive(Debug)]
pub struct Args {
    /// `-n` / `--no-logo`: print no logo.
    pub no_logo: bool,
    /// `-l` / `--logo <VENDOR>` / `--logo=<VENDOR>`: the logo to show instead.
    pub logo: Option<String>,
    /// `--license`.
    pub license: bool,
    /// `-h` / `--help`.
    pub help: bool,
    /// `-V` / `--version`.
    pub version: bool,
    /// `--completions <SHELL>`.
    pub completions: Option<String>,
}

pub struct ArgsView {
    pub no_logo: bool,
    pub logo: Option<Seq<char>>,
    pub license: bool,
    pub help: bool,
    pub version: bool,
    pub completions: Option<Seq<char>>,
}

pub open spec fn opt_text(o: Option<String>) -> Option<Seq<char>> {
    match o {
        Some(s) => Some(s@),
        None => None,
    }
}

impl View for Args {
    type V = ArgsView;

    open spec fn view(&self) -> ArgsView {
        ArgsView {
            no_logo: self.no_logo,
            logo: opt_text(self.logo),
            license: self.license,
            help: self.help,
            version: self.version,
            completions: opt_text(self.completions),
        }
    }
}

pub open spec fn no_options() -> ArgsView {
    ArgsView {
        no_logo: false,
        logo: None,
        license: false,
        help: false,
        version: false,
        completions: None,
    }
}

/// Why the command line was refused.
#[derive(Debug)]
pub enum ArgError {
    /// `--logo` without a vendor.
    MissingLogoValue,
    /// `--completions` without a shell.
    MissingShellName,
    /// An argument that is no option.
    UnknownArgument(String),
}

pub enum ArgFailure {
    MissingLogoValue,
    MissingShellName,
    UnknownArgument(Seq<char>),
}

impl View for ArgError {
    type V = ArgFailure;

    open spec fn view(&self) -> ArgFailure {
        match self {
            ArgError::MissingLogoValue => ArgFailure::MissingLogoValue,
            ArgError::MissingShellName => ArgFailure::MissingShellName,
            ArgError::UnknownArgument(a) => ArgFailure::UnknownArgument(a@),
        }
    }
}

pub open spec fn starts_with(t: Seq<char>, p: Seq<char>) -> bool {
    t.len() >= p.len() && t.take(p.len() as int) == p
}

/// The options that the tokens `ts` set, on top of `a`, read left to right.
pub open spec fn parse_tokens(ts: Seq<Seq<char>>, a: ArgsView) -> Result<ArgsView, ArgFailure>
    decreases ts.len(),
{
    if ts.len() == 0 {
        Ok(a)
    } else {
        let t = ts[0];
        if t == "-h"@ || t == "--help"@ {
            parse_tokens(ts.drop_first(), ArgsView { help: true, ..a })
        } else if t == "-V"@ || t == "--version"@ {
            parse_tokens(ts.drop_first(), ArgsView { version: true, ..a })
        } else if t == "--license"@ {
            parse_tokens(ts.drop_first(), ArgsView { license: true, ..a })
        } else if t == "-n"@ || t == "--no-logo"@ {
            parse_tokens(ts.drop_first(), ArgsView { no_logo: true, ..a })
        } else if t == "-l"@ || t == "--logo"@ {
            if ts.len() < 2 {
                Err(ArgFailure::MissingLogoValue)
            } else {
                parse_tokens(ts.skip(2), ArgsView { logo: Some(ts[1]), ..a })
            }
        } else if starts_with(t, "--logo="@) {
            let v = t.skip("--logo="@.len() as int);
            if v.len() == 0 {
                Err(ArgFailure::MissingLogoValue)
            } else {
                parse_tokens(ts.drop_first(), ArgsView { logo: Some(v), ..a })
            }
        } else if t == "--completions"@ {
            if ts.len() < 2 {
                Err(ArgFailure::MissingShellName)
            } else {
                parse_tokens(ts.skip(2), ArgsView { completions: Some(ts[1]), ..a })
            }
        } else {
            Err(ArgFailure::UnknownArgument(t))
        }
    }
}

/// The outcome of parsing a command line whose first word is the program name.
pub open spec fn parse_command_line(args: Seq<Seq<char>>) -> Result<ArgsView, ArgFailure> {
    if args.len() == 0 {
        Ok(no_options())
    } else {
        parse_tokens(args.drop_first(), no_options())
    }
}

pub open spec fn outcome_view(r: Result<Args, ArgError>) -> Result<ArgsView, ArgFailure> {
    match r {
        Ok(a) => Ok(a@),
        Err(e) => Err(e@),
    }
}

fn is_text(t: &String, lit: &str) -> (r: bool)
    ensures
        r == (t@ == lit@),
{
    t.eq(&lit.to_string())
}

impl Default for Args {
    fn default() -> (r: Args)
        ensures
            r@ == no_options(),
    {
        Args {
            no_logo: false,
            logo: None,
            license: false,
            help: false,
            version: false,
            completions: None,
        }
    }
}

impl Args {
    /// Parses a command line; `args[0]` is the program name.
    pub fn parse(args: &Vec<String>) -> (r: Result<Args, ArgError>)
        ensures
            outcome_view(r) == parse_command_line(texts(args@)),
    {
        let mut a = Args::default();
        if args.len() == 0 {
            return Ok(a);
        }
        let ghost all = texts(args@);
        let prefix = chars_of("--logo=");
        let mut i: usize = 1;
        assert(all.skip(1) == all.drop_first());
        while i < args.len()
            invariant
                1 <= i <= args.len(),
                all == texts(args@),
                prefix@ == "--logo="@,
                parse_command_line(all) == parse_tokens(all.skip(i as int), a@),
            decreases args.len() - i,
        {
            let ghost ts = all.skip(i as int);
            let t = &args[i];
            assert(ts[0] == t@);
            assert(ts.drop_first() == all.skip(i + 1));
            if is_text(t, "-h") || is_text(t, "--help") {
                a.help = true;
            } else if is_text(t, "-V") || is_text(t, "--version") {
                a.version = true;
            } else if is_text(t, "--license") {
                a.license = true;
            } else if is_text(t, "-n") || is_text(t, "--no-logo") {
                a.no_logo = true;
            } else if is_text(t, "-l") || is_text(t, "--logo") {
                if i + 1 >= args.len() {
                    return Err(ArgError::MissingLogoValue);
                }
                assert(ts[1] == args@[i + 1]@);
                assert(ts.skip(2) == all.skip(i + 2));
                a.logo = Some(args[i + 1].clone());
                i += 1;
            } else {
                let v = chars_of(t.as_str());
                if v.len() >= prefix.len() && eq_at(&v, 0, prefix.len(), &prefix) {
                    assert(v@.take(prefix.len() as int) == v@.subrange(0, prefix.len() as int));
                    if v.len() == prefix.len() {
                        return Err(ArgError::MissingLogoValue);
                    }
                    let value = string_of(&v, prefix.len(), v.len());
                    assert(value@ == t@.skip(prefix.len() as int));
                    a.logo = Some(value);
                } else {
                    assert(!starts_with(t@, "--logo="@));
                    if is_text(t, "--completions") {
                        if i + 1 >= args.len() {
                            return Err(ArgError::MissingShellName);
                        }
                        assert(ts[1] == args@[i + 1]@);
                        assert(ts.skip(2) == all.skip(i + 2));
                        a.completions = Some(args[i + 1].clone());
                        i += 1;
                    } else {
                        return Err(ArgError::UnknownArgument(t.clone()));
                    }
                }
            }
            i += 1;
        }
        assert(all.skip(i as int) =~= Seq::<Seq<char>>::empty());
        Ok(a)
    }
}

impl ArgError {
    /// The message that reports the error.
    pub fn message(&self) -> (r: String)
        ensures
            r@ == match self@ {
                ArgFailure::MissingLogoValue => "Error: --logo requires a value"@,
                ArgFailure::MissingShellName => "Error: --completions requires a shell name (fish, bash, zsh)"@,
                ArgFailure::UnknownArgument(a) => "Error: Unknown argument '"@ + a + "'"@,
            },
    {
        match self {
            ArgError::MissingLogoValue => "Error: --logo requires a value".to_string(),
            ArgError::MissingShellName => "Error: --completions requires a shell name (fish, bash, zsh)".to_string(),
            ArgError::UnknownArgument(a) => {
                let mut m = "Error: Unknown argument '".to_string();
                m.append(a.as_str());
                m.append("'");
                m
            },
        }
    }
}

/// A shell that completion scripts are written for.
#[derive(Clone, Copy, Debug, PartialEq, Eq, Structural)]
pub enum Shell {
    Fish,
    Bash,
    Zsh,
}

pub open spec fn shell_named(s: Seq<char>) -> Option<Shell> {
    if equals_folded(s, "fish"@) {
        Some(Shell::Fish)
    } else if equals_folded(s, "bash"@) {
        Some(Shell::Bash)
    } else if equals_folded(s, "zsh"@) {
        Some(Shell::Zsh)
    } else {
        None
    }
}

impl Shell {
    /// The shell that a name gives (`fish`, `bash` or `zsh`, in any case).
    pub fn from_name(name: &str) -> (r: Option<Shell>)
        ensures
            r == shell_named(name@),
    {
        let v = chars_of(name);
        if equals_folded_exec(&v, &chars_of("fish")) {
            Some(Shell::Fish)
        } else if equals_folded_exec(&v, &chars_of("bash")) {
            Some(Shell::Bash)
        } else if equals_folded_exec(&v, &chars_of("zsh")) {
            Some(Shell::Zsh)
        } else {
            None
        }
    }
}

} // verus!
