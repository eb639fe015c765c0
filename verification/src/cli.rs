use vstd::prelude::*;
use crate::text::str_eq;

verus! {

/// Why a command line was refused.
#[derive(Debug, Clone, PartialEq, Eq)]
pub enum CliError {
    /// No command word was given.
    MissingCommand,
    /// The command word is none the surface knows.
    UnknownCommand,
    /// A required argument is absent.
    MissingArgument,
    /// A flag the command does not take.
    UnknownArgument,
    /// A count or identifier that is not a number.
    BadNumber,
    /// Help was asked for; the text to show.
    Help { text: String },
}

impl CliError {
    /// A human-readable description, or the help text asked for.
    pub fn message(&self) -> String {
        match self {
            CliError::MissingCommand => String::from_str("a command is required"),
            CliError::UnknownCommand => String::from_str("unrecognized command"),
            CliError::MissingArgument => String::from_str("a required argument is missing"),
            CliError::UnknownArgument => String::from_str("unexpected argument"),
            CliError::BadNumber => String::from_str("invalid number"),
            CliError::Help { text } => text.clone(),
        }
    }
}

/// The commands the tool consumes: ingest the logs, query the store, or
/// toggle a favorite.
#[derive(Debug)]
pub enum Commands {
    /// Bring the log files into the store.
    Import { project: Option<String>, force: bool },
    /// Query the store.
    Search {
        keywords: Vec<String>,
        mode: String,
        project: Option<String>,
        from: Option<String>,
        to: Option<String>,
        favorites: bool,
        limit: usize,
    },
    /// Set or clear a record's favorite flag.
    Favorite { id: i64, remove: bool },
    /// The interactive session.
    Tui,
}

/// A parsed command line.
#[derive(Debug)]
pub struct Cli {
    pub command: Commands,
}

/// The top-level help text.
pub fn top_help() -> (r: String) {
    String::from_str(
        "A tool to manage and search chat-tool conversation history\n\nUsage: cc-vault <COMMAND>\n\nCommands:\n  import    Import conversations from the chat tool's logs\n  search    Search conversations\n  favorite  Mark or unmark conversations as favorite\n  tui       Launch interactive terminal mode\n",
    )
}

/// The help text of the search command.
pub fn search_help() -> (r: String) {
    String::from_str(
        "Search conversations\n\nUsage: cc-vault search [OPTIONS] [KEYWORDS]...\n\nOptions:\n  -m, --mode <MODE>        Search mode (and/or)\n  -p, --project <PROJECT>  Filter by project\n      --from <FROM>        Date from\n      --to <TO>            Date to\n  -f, --favorites          Show only favorites\n  -l, --limit <LIMIT>      Maximum number of results\n",
    )
}

/// Reads an unsigned decimal number.
fn parse_u64_digits(s: &str) -> (r: Option<u64>)
    ensures
        s@.len() == 0 ==> r.is_none(),
{
    let v = crate::json_text::str_to_chars(s);
    if v.len() == 0 {
        return None;
    }
    let mut acc: u64 = 0;
    let mut k: usize = 0;
    while k < v.len()
        invariant
            k <= v@.len(),
        decreases v@.len() - k,
    {
        let c = v[k];
        if !('0' <= c && c <= '9') {
            return None;
        }
        let d: u64 = ((c as u32) - 48) as u64;
        acc = match acc.checked_mul(10) {
            Some(m) => match m.checked_add(d) {
                Some(n) => n,
                None => {
                    return None;
                },
            },
            None => {
                return None;
            },
        };
        k = k + 1;
    }
    Some(acc)
}

impl Cli {
    /// Reads a command line, the program name first; asking for help is
    /// reported as a refusal carrying the help text, and an empty line, an
    /// unknown command, or a malformed argument refuses the line.
    pub fn try_parse_from(args: &Vec<String>) -> (r: Result<Cli, CliError>)
        ensures
            args@.len() < 2 ==> r == Err::<Cli, CliError>(CliError::MissingCommand),
    {
        if args.len() < 2 {
            return Err(CliError::MissingCommand);
        }
        let cmd = &args[1];
        if str_eq(cmd.as_str(), "--help") || str_eq(cmd.as_str(), "-h") {
            return Err(CliError::Help { text: top_help() });
        }
        if str_eq(cmd.as_str(), "import") {
            Self::parse_import(args)
        } else if str_eq(cmd.as_str(), "search") {
            Self::parse_search(args)
        } else if str_eq(cmd.as_str(), "favorite") {
            Self::parse_favorite(args)
        } else if str_eq(cmd.as_str(), "tui") {
            Ok(Cli { command: Commands::Tui })
        } else {
            Err(CliError::UnknownCommand)
        }
    }

    fn parse_import(args: &Vec<String>) -> (r: Result<Cli, CliError>) {
        let mut project: Option<String> = None;
        let mut force = false;
        let mut i: usize = 2;
        while i < args.len()
            invariant
                2 <= i,
            decreases args@.len() - i,
        {
            let a = &args[i];
            if str_eq(a.as_str(), "--project") || str_eq(a.as_str(), "-p") {
                if i + 1 >= args.len() {
                    return Err(CliError::MissingArgument);
                }
                project = Some(args[i + 1].clone());
                i = i + 2;
            } else if str_eq(a.as_str(), "--force") || str_eq(a.as_str(), "-f") {
                force = true;
                i = i + 1;
            } else {
                return Err(CliError::UnknownArgument);
            }
        }
        Ok(Cli { command: Commands::Import { project, force } })
    }

    fn parse_search(args: &Vec<String>) -> (r: Result<Cli, CliError>) {
        let mut keywords: Vec<String> = Vec::new();
        let mut mode = String::from_str("and");
        let mut project: Option<String> = None;
        let mut from: Option<String> = None;
        let mut to: Option<String> = None;
        let mut favorites = false;
        let mut limit: usize = 20;
        let mut i: usize = 2;
        while i < args.len()
            invariant
                2 <= i,
            decreases args@.len() - i,
        {
            let a = &args[i];
            if str_eq(a.as_str(), "--help") || str_eq(a.as_str(), "-h") {
                return Err(CliError::Help { text: search_help() });
            } else if str_eq(a.as_str(), "--mode") || str_eq(a.as_str(), "-m") {
                if i + 1 >= args.len() {
                    return Err(CliError::MissingArgument);
                }
                mode = args[i + 1].clone();
                i = i + 2;
            } else if str_eq(a.as_str(), "--project") || str_eq(a.as_str(), "-p") {
                if i + 1 >= args.len() {
                    return Err(CliError::MissingArgument);
                }
                project = Some(args[i + 1].clone());
                i = i + 2;
            } else if str_eq(a.as_str(), "--from") {
                if i + 1 >= args.len() {
                    return Err(CliError::MissingArgument);
                }
                from = Some(args[i + 1].clone());
                i = i + 2;
            } else if str_eq(a.as_str(), "--to") {
                if i + 1 >= args.len() {
                    return Err(CliError::MissingArgument);
                }
                to = Some(args[i + 1].clone());
                i = i + 2;
            } else if str_eq(a.as_str(), "--favorites") || str_eq(a.as_str(), "-f") {
                favorites = true;
                i = i + 1;
            } else if str_eq(a.as_str(), "--limit") || str_eq(a.as_str(), "-l") {
                if i + 1 >= args.len() {
                    return Err(CliError::MissingArgument);
                }
                match parse_u64_digits(args[i + 1].as_str()) {
                    Some(n) => {
                        if n > usize::MAX as u64 {
                            return Err(CliError::BadNumber);
                        }
                        limit = n as usize;
                    },
                    None => {
                        return Err(CliError::BadNumber);
                    },
                }
                i = i + 2;
            } else {
                keywords.push(args[i].clone());
                i = i + 1;
            }
        }
        Ok(
            Cli {
                command: Commands::Search { keywords, mode, project, from, to, favorites, limit },
            },
        )
    }

    fn parse_favorite(args: &Vec<String>) -> (r: Result<Cli, CliError>) {
        if args.len() < 3 {
            return Err(CliError::MissingArgument);
        }
        let id: i64 = match parse_u64_digits(args[2].as_str()) {
            Some(n) => {
                if n > i64::MAX as u64 {
                    return Err(CliError::BadNumber);
                }
                n as i64
            },
            None => {
                return Err(CliError::BadNumber);
            },
        };
        let mut remove = false;
        let mut i: usize = 3;
        while i < args.len()
            invariant
                3 <= i,
            decreases args@.len() - i,
        {
            let a = &args[i];
            if str_eq(a.as_str(), "--remove") || str_eq(a.as_str(), "-r") {
                remove = true;
                i = i + 1;
            } else {
                return Err(CliError::UnknownArgument);
            }
        }
        Ok(Cli { command: Commands::Favorite { id, remove } })
    }
}

} // verus!
