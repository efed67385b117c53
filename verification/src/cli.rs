//! The command line, as plain values: the options that a run takes, the
//! check on a CSV file-name prefix, and the check that the options agree.

use vstd::prelude::*;
use crate::text::chars_of;

verus! {

#[verifier::external_type_specification]
#[verifier::external_body]
pub struct ExPathBuf(std::path::PathBuf);

/// Options of one run.
pub struct Cli {
    /// TF2 installation root; discovered from Steam when absent.
    pub tf2_root: Option<std::path::PathBuf>,
    /// Seconds to wait for the Game Coordinator.
    pub timeout: u64,
    /// Whether a running TF2 client is tolerated.
    pub allow_tf2_running: bool,
    /// Single-line JSON in place of pretty JSON.
    pub compact: bool,
    /// What to print; the whole snapshot when absent.
    pub command: Option<Command>,
}

/// What a run prints.
pub enum Command {
    /// The per-map rows as JSON.
    Maps,
    /// The per-mode rows as JSON.
    Modes,
    /// The summary as JSON.
    Summary,
    /// The summary, map and mode tables as CSV files.
    Csv(CsvOptions),
}

/// Where and how the CSV files are written.
pub struct CsvOptions {
    /// Root output directory.
    pub out: std::path::PathBuf,
    /// Prefix of the three file names.
    pub prefix: String,
    /// Files directly in `out`, with the stamp in their names, in place of a
    /// stamped child directory.
    pub flat: bool,
}

/// Options that cannot be used together.
#[derive(Debug, Clone, Copy, PartialEq, Eq, Structural)]
pub enum CliError {
    /// `--compact` with the `csv` command.
    CompactWithCsv,
}

impl CliError {
    /// The message shown for the error.
    pub fn message(&self) -> (text: String)
        ensures
            text@ == "--compact applies only to JSON output and cannot be used with csv"@,
    {
        match self {
            CliError::CompactWithCsv => "--compact applies only to JSON output and cannot be used with csv".to_owned(),
        }
    }
}

/// An ASCII letter or digit.
pub open spec fn is_ascii_alphanumeric(c: char) -> bool {
    ('0' <= c <= '9') || ('a' <= c <= 'z') || ('A' <= c <= 'Z')
}

/// A character that a CSV file-name prefix may hold.
pub open spec fn prefix_char(c: char) -> bool {
    is_ascii_alphanumeric(c) || c == '-' || c == '_'
}

/// A non-empty text of ASCII letters, digits, `-` and `_`.
pub open spec fn is_valid_prefix(s: Seq<char>) -> bool {
    s.len() > 0 && forall|i: int| 0 <= i < s.len() ==> #[trigger] prefix_char(s[i])
}

/// Checks a CSV file-name prefix: the prefix itself when it is not empty and
/// holds only ASCII letters, digits, underscores and hyphens, else the message
/// that says so.
pub fn valid_prefix(value: &str) -> (r: Result<String, String>)
    ensures
        is_valid_prefix(value@) ==> (r matches Ok(p) && p@ == value@),
        !is_valid_prefix(value@) ==> (r matches Err(e)
            && e@ == "prefix may contain only letters, numbers, underscores, and hyphens"@),
{
    let chars = chars_of(value);
    let mut all = true;
    let mut k: usize = 0;
    while k < chars.len()
        invariant
            k <= chars.len(),
            chars@ == value@,
            all <==> forall|i: int| 0 <= i < k ==> #[trigger] prefix_char(chars@[i]),
        decreases chars.len() - k,
    {
        let c = chars[k];
        let fits = ('0' <= c && c <= '9') || ('a' <= c && c <= 'z') || ('A' <= c && c <= 'Z')
            || c == '-' || c == '_';
        assert(fits == prefix_char(chars@[k as int]));
        if !fits {
            all = false;
        }
        k += 1;
    }
    if chars.len() > 0 && all {
        Ok(value.to_owned())
    } else {
        Err("prefix may contain only letters, numbers, underscores, and hyphens".to_owned())
    }
}

/// Whether the command writes CSV files.
pub open spec fn writes_csv(command: Option<Command>) -> bool {
    command matches Some(Command::Csv(_))
}

/// Checks that the options agree: `--compact` shapes JSON only and is refused
/// together with the `csv` command.
pub fn validate_cli(cli: &Cli) -> (r: Result<(), CliError>)
    ensures
        r is Err <==> cli.compact && writes_csv(cli.command),
        r matches Err(e) ==> e == CliError::CompactWithCsv,
{
    let csv = match &cli.command {
        Some(Command::Csv(_)) => true,
        _ => false,
    };
    if cli.compact && csv {
        Err(CliError::CompactWithCsv)
    } else {
        Ok(())
    }
}

} // verus!
