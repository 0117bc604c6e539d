//! The snapshot database command line: argument record, schema and help
//! text, and the classification of a typed line into a special command or a
//! query for the database.
use crate::strings::{spec_trim, str_eq, trim_str};
use vstd::prelude::*;

verus! {

/// Logging verbosity, as the command lines accept it.
#[derive(Clone, Copy, Debug, PartialEq, Eq, Structural)]
pub enum LogLevel {
    Error,
    Info,
    Trace,
}

/// Parsed command-line arguments of the database command line.
pub struct CliArg {
    pub path: String,
    pub log_level: LogLevel,
}

/// The database command line's help message.
pub open spec fn db_help_text() -> Seq<char> {
    "\nExecute any SqLite commands.\nSpecial commands:\n      --help: display this help message\n      --schema: display database schema of the memory snapshot\n      --quit: exit SqLite REPL\n"@
}

/// Build the database command line's help message.
pub fn db_help_message() -> (r: String)
    ensures
        r@ == db_help_text(),
{
    String::from_str(
        "\nExecute any SqLite commands.\nSpecial commands:\n      --help: display this help message\n      --schema: display database schema of the memory snapshot\n      --quit: exit SqLite REPL\n",
    )
}

/// What one line typed at the database prompt means.
pub enum DbCommand {
    /// Nothing but whitespace.
    Empty,
    /// `--quit`.
    Quit,
    /// `--help`.
    Help,
    /// `--schema`.
    Schema,
    /// Another `--`-prefixed command.
    UnknownSpecial(String),
    /// Anything else: hand it to the database as a query.
    Sql(String),
}

/// Classify one line typed at the database prompt: trim it; a line equal to
/// a special command is handled locally, any other `--`-prefixed line is
/// reported as unknown, and everything else is a query.
pub fn classify_db_command(line: &str) -> (cmd: DbCommand)
    ensures
        ({
            let c = spec_trim(line@);
            match cmd {
                DbCommand::Empty => c.len() == 0,
                DbCommand::Quit => c == "--quit"@,
                DbCommand::Help => c == "--help"@,
                DbCommand::Schema => c == "--schema"@,
                DbCommand::UnknownSpecial(t) => {
                    &&& t@ == c
                    &&& c.len() >= 2 && c[0] == '-' && c[1] == '-'
                    &&& c != "--quit"@ && c != "--help"@ && c != "--schema"@
                },
                DbCommand::Sql(t) => {
                    &&& t@ == c
                    &&& c.len() > 0
                    &&& !(c.len() >= 2 && c[0] == '-' && c[1] == '-')
                },
            }
        }),
{
    let trimmed: String = trim_str(line);
    let n: usize = trimmed.as_str().unicode_len();
    if n == 0 {
        return DbCommand::Empty;
    }
    let dashed: bool = n >= 2 && trimmed.as_str().get_char(0) == '-' && trimmed.as_str().get_char(
        1,
    ) == '-';
    if dashed {
        if str_eq(trimmed.as_str(), "--quit") {
            return DbCommand::Quit;
        }
        if str_eq(trimmed.as_str(), "--help") {
            return DbCommand::Help;
        }
        if str_eq(trimmed.as_str(), "--schema") {
            return DbCommand::Schema;
        }
        return DbCommand::UnknownSpecial(trimmed);
    }
    DbCommand::Sql(trimmed)
}

} // verus!
