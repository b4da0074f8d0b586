//! The importer's command line and the report it prints at the end.

use vstd::prelude::*;

use crate::numbers::{decimal_digits, push_decimal_digits};
use crate::redmine::config::PUBLIC_TRACKER_ID;
use crate::schemas::AnswerPublication;
use crate::text::{append_str, chars_of, string_of, text_equal};

verus! {

/// What a run of the importer does.
#[derive(Debug, Clone, Copy, PartialEq, Eq, Structural)]
pub enum Mode {
    /// Check the settings and the portal forms, and report.
    Plan,
    /// Import the issues.
    Import,
    /// Compare the imported answers with Redmine.
    Verify,
}

/// Why the command line is refused.
#[derive(Debug, Clone, PartialEq, Eq)]
pub enum ArgumentError {
    MissingMode,
    UnknownMode,
    MissingConfigPath,
    UnknownArgument { argument: String },
}

pub open spec fn mode_named(value: Seq<char>) -> Result<Mode, ArgumentError> {
    if value == "plan"@ {
        Ok(Mode::Plan)
    } else if value == "import"@ {
        Ok(Mode::Import)
    } else if value == "verify"@ {
        Ok(Mode::Verify)
    } else {
        Err(ArgumentError::UnknownMode)
    }
}

impl Mode {
    pub fn parse(value: &str) -> (r: Result<Mode, ArgumentError>)
        ensures
            r == mode_named(value@),
    {
        if text_equal(value, "plan") {
            Ok(Mode::Plan)
        } else if text_equal(value, "import") {
            Ok(Mode::Import)
        } else if text_equal(value, "verify") {
            Ok(Mode::Verify)
        } else {
            Err(ArgumentError::UnknownMode)
        }
    }
}

/// The settings file used when neither the environment nor the command line
/// names one.
pub const DEFAULT_CONFIG_PATH: &'static str = "server/redmine-importer/config/redmine-import.json";

/// The settings path after the options from `i` on, starting from `path`.
pub open spec fn options_from(args: Seq<String>, i: int, path: Seq<char>) -> Result<
    Seq<char>,
    ArgumentError,
>
    decreases args.len() - i,
{
    if i < 0 || i >= args.len() {
        Ok(path)
    } else if args[i]@ == "--config"@ {
        if i + 1 < args.len() {
            options_from(args, i + 2, args[i + 1]@)
        } else {
            Err(ArgumentError::MissingConfigPath)
        }
    } else {
        Err(ArgumentError::UnknownArgument { argument: args[i] })
    }
}

/// The mode and the settings path of a command line (without the program
/// name): the mode first, then `--config <path>` any number of times, the
/// last one winning over the path from the environment, which wins over the
/// default.
pub open spec fn command_line(args: Seq<String>, config_from_env: Option<String>) -> Result<
    (Mode, Seq<char>),
    ArgumentError,
> {
    if args.len() == 0 {
        Err(ArgumentError::MissingMode)
    } else {
        match mode_named(args[0]@) {
            Err(e) => Err(e),
            Ok(mode) => {
                let start = match config_from_env {
                    Some(p) => p@,
                    None => DEFAULT_CONFIG_PATH@,
                };
                match options_from(args, 1, start) {
                    Err(e) => Err(e),
                    Ok(path) => Ok((mode, path)),
                }
            },
        }
    }
}

pub fn parse_arguments(args: &Vec<String>, config_from_env: Option<String>) -> (r: Result<
    (Mode, String),
    ArgumentError,
>)
    ensures
        match command_line(args@, config_from_env) {
            Ok((mode, path)) => r matches Ok((m, p)) && m == mode && p@ == path,
            Err(e) => r == Err::<(Mode, String), ArgumentError>(e),
        },
{
    if args.len() == 0 {
        return Err(ArgumentError::MissingMode);
    }
    let mode = Mode::parse(args[0].as_str())?;
    let mut path = match config_from_env {
        Some(p) => p,
        None => string_of(&chars_of(DEFAULT_CONFIG_PATH)),
    };
    let mut i: usize = 1;
    while i < args.len()
        invariant
            1 <= i,
            command_line(args@, config_from_env) == match options_from(args@, i as int, path@) {
                Err(e) => Err(e),
                Ok(p) => Ok((mode, p)),
            },
        decreases args@.len() - i,
    {
        if text_equal(args[i].as_str(), "--config") {
            if i + 1 < args.len() {
                path = args[i + 1].clone();
                i = i + 2;
            } else {
                return Err(ArgumentError::MissingConfigPath);
            }
        } else {
            return Err(ArgumentError::UnknownArgument { argument: args[i].clone() });
        }
    }
    Ok((mode, path))
}

/// What a run found: errors, which stop an import, and warnings.
#[derive(Debug, Default)]
pub struct Report {
    pub errors: Vec<String>,
    pub warnings: Vec<String>,
}

impl Report {
    pub fn error(&mut self, message: String)
        ensures
            final(self).errors@ == old(self).errors@.push(message),
            final(self).warnings@ == old(self).warnings@,
    {
        self.errors.push(message);
    }

    pub fn warning(&mut self, message: String)
        ensures
            final(self).warnings@ == old(self).warnings@.push(message),
            final(self).errors@ == old(self).errors@,
    {
        self.warnings.push(message);
    }

    /// The summary line that ends the printed report.
    pub open spec fn summary(&self) -> Seq<char> {
        "report: "@ + decimal_digits(self.errors@.len()) + " error(s), "@ + decimal_digits(
            self.warnings@.len(),
        ) + " warning(s)"@
    }

    /// The lines of the printed report: each warning, each error, and the
    /// summary.
    pub fn lines(&self) -> (r: Vec<String>)
        ensures
            r@.len() == self.warnings@.len() + self.errors@.len() + 1,
            forall|i: int|
                0 <= i < self.warnings@.len() ==> #[trigger] r@[i]@ == "WARNING: "@
                    + self.warnings@[i]@,
            forall|i: int|
                0 <= i < self.errors@.len() ==> #[trigger] r@[self.warnings@.len() + i]@
                    == "ERROR: "@ + self.errors@[i]@,
            r@[r@.len() - 1]@ == self.summary(),
    {
        let mut lines: Vec<String> = Vec::new();
        let mut i: usize = 0;
        while i < self.warnings.len()
            invariant
                i <= self.warnings@.len(),
                lines@.len() == i,
                forall|k: int|
                    0 <= k < i ==> #[trigger] lines@[k]@ == "WARNING: "@ + self.warnings@[k]@,
            decreases self.warnings@.len() - i,
        {
            let mut line = chars_of("WARNING: ");
            append_str(&mut line, self.warnings[i].as_str());
            lines.push(string_of(&line));
            i = i + 1;
        }
        let mut j: usize = 0;
        while j < self.errors.len()
            invariant
                j <= self.errors@.len(),
                lines@.len() == self.warnings@.len() + j,
                forall|k: int|
                    0 <= k < self.warnings@.len() ==> #[trigger] lines@[k]@ == "WARNING: "@
                        + self.warnings@[k]@,
                forall|k: int|
                    0 <= k < j ==> #[trigger] lines@[self.warnings@.len() + k]@ == "ERROR: "@
                        + self.errors@[k]@,
            decreases self.errors@.len() - j,
        {
            let mut line = chars_of("ERROR: ");
            append_str(&mut line, self.errors[j].as_str());
            let ghost before = lines@;
            lines.push(string_of(&line));
            assert forall|k: int| 0 <= k < self.warnings@.len() implies #[trigger] lines@[k]@
                == "WARNING: "@ + self.warnings@[k]@ by {
                assert(lines@[k] == before[k]);
            }
            assert forall|k: int| 0 <= k < j + 1 implies #[trigger] lines@[self.warnings@.len()
                + k]@ == "ERROR: "@ + self.errors@[k]@ by {
                if k < j {
                    assert(lines@[self.warnings@.len() + k] == before[self.warnings@.len() + k]);
                }
            }
            j = j + 1;
        }
        let mut summary = chars_of("report: ");
        push_decimal_digits(self.errors.len() as u64, &mut summary);
        append_str(&mut summary, " error(s), ");
        push_decimal_digits(self.warnings.len() as u64, &mut summary);
        append_str(&mut summary, " warning(s)");
        let ghost before = lines@;
        lines.push(string_of(&summary));
        assert forall|k: int| 0 <= k < self.warnings@.len() implies #[trigger] lines@[k]@
            == "WARNING: "@ + self.warnings@[k]@ by {
            assert(lines@[k] == before[k]);
        }
        assert forall|k: int| 0 <= k < self.errors@.len() implies #[trigger] lines@[
            self.warnings@.len() + k]@ == "ERROR: "@ + self.errors@[k]@ by {
            assert(lines@[self.warnings@.len() + k] == before[self.warnings@.len() + k]);
        }
        lines
    }
}

/// Whether the answers of a tracker are published: only those of the public
/// tracker are.
pub fn publication_for_tracker(tracker_id: i64) -> (r: AnswerPublication)
    ensures
        r == (if tracker_id == PUBLIC_TRACKER_ID {
            AnswerPublication::Public
        } else {
            AnswerPublication::Private
        }),
{
    if tracker_id == PUBLIC_TRACKER_ID {
        AnswerPublication::Public
    } else {
        AnswerPublication::Private
    }
}

} // verus!
