//! Command line options shared by the tracker binaries.

use vstd::prelude::*;

use vstd::string::StrSliceExecFns;

use crate::text::str_eq;

verus! {

/// Log level. Available values are off, error, warn, info, debug and trace.
#[derive(Debug, Clone, Copy, PartialEq, Eq, Structural)]
pub enum LogLevel {
    Off,
    Error,
    Warn,
    Info,
    Debug,
    Trace,
}

impl Default for LogLevel {
    fn default() -> (r: Self)
        ensures
            r == LogLevel::Warn,
    {
        Self::Warn
    }
}

/// Command line options
#[derive(Debug, Default)]
pub struct Options {
    pub config_file: Option<String>,
    pub print_config: bool,
    pub print_parsed_config: bool,
    pub print_version: bool,
}

/// Options as plain values
pub struct OptionsView {
    pub config_file: Option<Seq<char>>,
    pub print_config: bool,
    pub print_parsed_config: bool,
    pub print_version: bool,
}

/// No option given
pub open spec fn no_options() -> OptionsView {
    OptionsView { config_file: None, print_config: false, print_parsed_config: false, print_version: false }
}

/// What parsing the arguments from index `i` on gives, with the options
/// `o` set by those before: the options, or `None` for a request for help,
/// or an error message
pub open spec fn parse_args_from(args: Seq<Seq<char>>, i: int, o: OptionsView) -> Result<
    OptionsView,
    Option<Seq<char>>,
>
    decreases args.len() - i,
{
    if i >= args.len() || i < 0 {
        Ok(o)
    } else {
        let arg = args[i];
        if arg == "-c"@ || arg == "--config-file"@ {
            if i + 1 < args.len() {
                parse_args_from(args, i + 2, OptionsView { config_file: Some(args[i + 1]), ..o })
            } else {
                Err(Some("No config file path given"@))
            }
        } else if arg == "-p"@ || arg == "--print-config"@ {
            parse_args_from(args, i + 1, OptionsView { print_config: true, ..o })
        } else if arg == "-P"@ {
            parse_args_from(args, i + 1, OptionsView { print_parsed_config: true, ..o })
        } else if arg == "-v"@ || arg == "--version"@ {
            parse_args_from(args, i + 1, OptionsView { print_version: true, ..o })
        } else if arg == "-h"@ || arg == "--help"@ {
            Err(None)
        } else if arg == ""@ {
            parse_args_from(args, i + 1, o)
        } else {
            Err(Some("Unrecognized argument"@))
        }
    }
}

/// The arguments as character sequences
pub open spec fn args_view(args: Seq<String>) -> Seq<Seq<char>> {
    args.map_values(|a: String| a@)
}

impl Options {
    pub open spec fn view(&self) -> OptionsView {
        OptionsView {
            config_file: match self.config_file {
                Some(path) => Some(path@),
                None => None,
            },
            print_config: self.print_config,
            print_parsed_config: self.print_parsed_config,
            print_version: self.print_version,
        }
    }

    /// Parse the command line arguments (without the program name). `-h`
    /// asks for help, which is an error without a message.
    pub fn parse_args(args: Vec<String>) -> (r: Result<Options, Option<String>>)
        ensures
            match (r, parse_args_from(args_view(args@), 0, no_options())) {
                (Ok(options), Ok(v)) => options@ == v,
                (Err(None), Err(None)) => true,
                (Err(Some(e)), Err(Some(m))) => e@ == m,
                _ => false,
            },
    {
        let mut options = Options {
            config_file: None,
            print_config: false,
            print_parsed_config: false,
            print_version: false,
        };
        let ghost argv = args_view(args@);
        let mut i: usize = 0;
        proof {
            reveal_strlit("-c");
            reveal_strlit("--config-file");
            reveal_strlit("-p");
            reveal_strlit("--print-config");
            reveal_strlit("-P");
            reveal_strlit("-v");
            reveal_strlit("--version");
            reveal_strlit("-h");
            reveal_strlit("--help");
            reveal_strlit("");
            reveal_strlit("No config file path given");
            reveal_strlit("Unrecognized argument");
        }
        while i < args.len()
            invariant
                argv == args_view(args@),
                i <= args@.len(),
                parse_args_from(argv, 0, no_options()) == parse_args_from(argv, i as int, options@),
            decreases args@.len() - i,
        {
            let arg = args[i].as_str();
            assert(arg@ == argv[i as int]);
            if str_eq(arg, "-c") || str_eq(arg, "--config-file") {
                if i + 1 < args.len() {
                    let path = args[i + 1].clone();
                    assert(path@ == argv[i + 1]);
                    options.config_file = Some(path);
                    i = i + 2;
                } else {
                    return Err(Some(String::from_str("No config file path given")));
                }
            } else if str_eq(arg, "-p") || str_eq(arg, "--print-config") {
                options.print_config = true;
                i = i + 1;
            } else if str_eq(arg, "-P") {
                options.print_parsed_config = true;
                i = i + 1;
            } else if str_eq(arg, "-v") || str_eq(arg, "--version") {
                options.print_version = true;
                i = i + 1;
            } else if str_eq(arg, "-h") || str_eq(arg, "--help") {
                return Err(None);
            } else if str_eq(arg, "") {
                i = i + 1;
            } else {
                return Err(Some(String::from_str("Unrecognized argument")));
            }
        }
        Ok(options)
    }
}

/// The first eight characters of the input, or all of them if there are
/// fewer
pub fn first_8_chars(input: &str) -> (r: String)
    ensures
        r@ == input@.take(if input@.len() < 8 { input@.len() as int } else { 8 }),
{
    let len = input.unicode_len();
    let end = if len < 8 { len } else { 8 };
    String::from_str(input.substring_char(0, end))
}

} // verus!
