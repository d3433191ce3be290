//! The choices a command line makes, and how a run's outcome is reported
//! to the shell.

use vstd::prelude::*;

use crate::error::Error;
use crate::render::summary::Detail;
use crate::session::Scope;

verus! {

/// Measure the speed of an internet connection: the flags a user passes.
#[derive(Clone, Copy, Debug, Default, PartialEq, Eq, Structural)]
pub struct Cli {
    /// Skip the upload measurement.
    pub download_only: bool,
    /// Print the result as JSON, which always includes every field.
    pub json: bool,
    /// Also show which server answered and how long the run took.
    pub verbose: bool,
}

/// Where the result is written and in what shape.
#[derive(Clone, Copy, Debug, PartialEq, Eq, Structural)]
pub enum Output {
    /// Aligned text for a person, with a live display when attached to a terminal.
    Human,
    /// One JSON object for a script.
    Json,
}

impl Cli {
    /// Returns which phases to run.
    pub fn scope(&self) -> (scope: Scope)
        ensures
            scope == if self.download_only {
                Scope::DownloadOnly
            } else {
                Scope::Full
            },
    {
        if self.download_only {
            Scope::DownloadOnly
        } else {
            Scope::Full
        }
    }

    /// Returns how much of the result to show.
    pub fn detail(&self) -> (detail: Detail)
        ensures
            detail == if self.verbose {
                Detail::Verbose
            } else {
                Detail::Plain
            },
    {
        if self.verbose {
            Detail::Verbose
        } else {
            Detail::Plain
        }
    }

    /// Returns the shape of the output.
    pub fn output(&self) -> (output: Output)
        ensures
            output == if self.json {
                Output::Json
            } else {
                Output::Human
            },
    {
        if self.json {
            Output::Json
        } else {
            Output::Human
        }
    }
}

/// How the process reports its outcome to a shell.
#[derive(Clone, Copy, Debug, PartialEq, Eq, Structural)]
pub enum Exit {
    /// The measurement completed.
    Success,
    /// The measurement could not be taken.
    Failed,
    /// The user interrupted the run.
    Interrupted,
}

impl Exit {
    /// Returns how a run that failed with `error` ends: an interruption is
    /// told apart from every other failure.
    pub fn for_error(error: &Error) -> (exit: Self)
        ensures
            exit == if error is Cancelled {
                Exit::Interrupted
            } else {
                Exit::Failed
            },
    {
        match error {
            Error::Cancelled => Exit::Interrupted,
            _ => Exit::Failed,
        }
    }

    /// Returns the process exit status: 0 on success, 1 on failure and 130,
    /// the shell convention for a process stopped by signal 2 (ctrl-c), when
    /// interrupted.
    pub fn code(self) -> (code: u8)
        ensures
            code == match self {
                Exit::Success => 0u8,
                Exit::Failed => 1u8,
                Exit::Interrupted => 130u8,
            },
    {
        match self {
            Exit::Success => 0,
            Exit::Failed => 1,
            Exit::Interrupted => 128 + 2,
        }
    }
}

} // verus!
