//! The command-line contract of `rosregview`: the subcommands, their
//! arguments and the output format.
//!
//! The program parses the command line into these values; per-subcommand
//! behaviour lives under `view`.

use vstd::prelude::*;
use crate::output::text::{chars_of, push_str, str_eq, string_from_chars};

verus! {

/// Output formats supported across subcommands.
#[derive(Clone, Copy, Debug, PartialEq, Eq, Structural)]
pub enum OutputFormat {
    Human,
    Json,
}

/// The top-level command line.
pub struct Cli {
    pub command: Command,
}

/// The subcommands and their arguments.  `path` is the hive file as shown
/// to the user.
pub enum Command {
    /// Show a summary for a hive file: size, root subkey count.
    Info { path: String, format: OutputFormat },
    /// Print the key tree of a hive file, down to `depth` levels.
    Tree { path: String, depth: Option<usize>, format: OutputFormat },
    /// List the direct subkeys of a key (default: the root).
    List { path: String, key_path: Option<String>, format: OutputFormat },
    /// Show the values of a key (default: the root).
    Show { path: String, key_path: Option<String>, format: OutputFormat },
    /// Search keys by name (`name`, any of) and values by name or data
    /// (`value`), down to `max_depth` levels.
    Find {
        path: String,
        name: Vec<String>,
        value: Option<String>,
        case_sensitive: bool,
        max_depth: Option<usize>,
        format: OutputFormat,
    },
}

impl Command {
    /// The output format the subcommand was given.
    pub open spec fn spec_format(self) -> OutputFormat {
        match self {
            Command::Info { format, .. } => format,
            Command::Tree { format, .. } => format,
            Command::List { format, .. } => format,
            Command::Show { format, .. } => format,
            Command::Find { format, .. } => format,
        }
    }

    /// The hive file the subcommand reads, as shown to the user.
    pub open spec fn spec_path(self) -> Seq<char> {
        match self {
            Command::Info { path, .. } => path@,
            Command::Tree { path, .. } => path@,
            Command::List { path, .. } => path@,
            Command::Show { path, .. } => path@,
            Command::Find { path, .. } => path@,
        }
    }

    /// The output format the subcommand was given.
    pub fn format(&self) -> (f: OutputFormat)
        ensures
            f == self.spec_format(),
    {
        match self {
            Command::Info { format, .. } => *format,
            Command::Tree { format, .. } => *format,
            Command::List { format, .. } => *format,
            Command::Show { format, .. } => *format,
            Command::Find { format, .. } => *format,
        }
    }
}

/// `c` with ASCII uppercase letters made lowercase.
pub open spec fn ascii_lower(c: char) -> char {
    if 'A' <= c && c <= 'Z' { ((c as nat) + 32) as char } else { c }
}

/// `s` with ASCII uppercase letters made lowercase (as `to_ascii_lowercase`).
pub open spec fn ascii_lower_seq(s: Seq<char>) -> Seq<char> {
    s.map_values(|c: char| ascii_lower(c))
}

/// The error for an unknown format name (given lowercased).
pub open spec fn unknown_format_message(lowered: Seq<char>) -> Seq<char> {
    "unknown output format `"@ + lowered + "` (expected: human, json)"@
}

/// What `OutputFormat::parse` gives for `s`.
pub open spec fn parse_format_spec(s: Seq<char>) -> Result<OutputFormat, Seq<char>> {
    let l = ascii_lower_seq(s);
    if l == "human"@ {
        Ok(OutputFormat::Human)
    } else if l == "json"@ {
        Ok(OutputFormat::Json)
    } else {
        Err(unknown_format_message(l))
    }
}

/// The name of a format.
pub open spec fn format_name(f: OutputFormat) -> Seq<char> {
    match f {
        OutputFormat::Human => "human"@,
        OutputFormat::Json => "json"@,
    }
}

/// `s` with ASCII uppercase letters made lowercase.
pub fn to_ascii_lowercase(s: &str) -> (t: String)
    ensures
        t@ == ascii_lower_seq(s@),
{
    let cs = chars_of(s);
    let n = cs.len();
    let mut out: Vec<char> = Vec::new();
    let mut i: usize = 0;
    while i < n
        invariant
            n == cs@.len(),
            cs@ == s@,
            i <= n,
            out@ == ascii_lower_seq(cs@.take(i as int)),
        decreases n - i,
    {
        let c = cs[i];
        let l = if 'A' <= c && c <= 'Z' { ((c as u32 as u8) + 32) as char } else { c };
        out.push(l);
        assert(ascii_lower_seq(cs@.take(i as int + 1)) =~= ascii_lower_seq(cs@.take(i as int)).push(ascii_lower(c)));
        i = i + 1;
    }
    assert(cs@.take(n as int) =~= cs@);
    string_from_chars(out.as_slice())
}

impl OutputFormat {
    /// Parse a format name, ignoring ASCII case: `human` or `json`.
    pub fn parse(s: &str) -> (r: Result<OutputFormat, String>)
        ensures
            r matches Ok(f) ==> parse_format_spec(s@) == Ok::<OutputFormat, Seq<char>>(f),
            r matches Err(m) ==> parse_format_spec(s@) == Err::<OutputFormat, Seq<char>>(m@),
    {
        let lowered = to_ascii_lowercase(s);
        if str_eq(lowered.as_str(), "human") {
            Ok(OutputFormat::Human)
        } else if str_eq(lowered.as_str(), "json") {
            Ok(OutputFormat::Json)
        } else {
            let mut m = String::from_str("unknown output format `");
            push_str(&mut m, lowered.as_str());
            push_str(&mut m, "` (expected: human, json)");
            Err(m)
        }
    }

    /// The name of the format, as it is written on the command line.
    pub fn to_string(&self) -> (s: String)
        ensures
            s@ == format_name(*self),
    {
        match self {
            OutputFormat::Human => String::from_str("human"),
            OutputFormat::Json => String::from_str("json"),
        }
    }
}

impl std::str::FromStr for OutputFormat {
    type Err = String;

    fn from_str(s: &str) -> (r: Result<Self, Self::Err>)
        ensures
            r matches Ok(f) ==> parse_format_spec(s@) == Ok::<OutputFormat, Seq<char>>(f),
            r matches Err(m) ==> parse_format_spec(s@) == Err::<OutputFormat, Seq<char>>(m@),
    {
        OutputFormat::parse(s)
    }
}


/// Every format parses back from its name.
pub proof fn lemma_format_name_round_trip(f: OutputFormat)
    ensures
        parse_format_spec(format_name(f)) == Ok::<OutputFormat, Seq<char>>(f),
{
    reveal_strlit("human");
    reveal_strlit("json");
    assert(ascii_lower_seq("human"@) =~= "human"@);
    assert(ascii_lower_seq("json"@) =~= "json"@);
}

/// Parsing ignores ASCII case: a name and its lowercase form parse alike.
pub proof fn lemma_parse_ignores_ascii_case(s: Seq<char>)
    ensures
        parse_format_spec(s) == parse_format_spec(ascii_lower_seq(s)),
{
    assert(ascii_lower_seq(ascii_lower_seq(s)) =~= ascii_lower_seq(s));
}

} // verus!
