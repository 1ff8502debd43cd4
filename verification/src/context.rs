//! Global flags of the command line.

use crate::text::copy_opt;
use vstd::prelude::*;

verus! {

/// Whose files are managed.
#[derive(Clone, Copy, PartialEq, Eq, Structural, Debug)]
pub enum InstallMode {
    /// Those of one user, under the home directory.
    User,
    /// Those of the system.
    System,
}

impl InstallMode {
    /// Lower-case name.
    pub open spec fn name(self) -> Seq<char> {
        match self {
            InstallMode::User => "user"@,
            InstallMode::System => "system"@,
        }
    }

    /// Lower-case name.
    pub fn as_str(&self) -> (r: &'static str)
        ensures
            r@ == self.name(),
    {
        match self {
            InstallMode::User => "user",
            InstallMode::System => "system",
        }
    }
}

/// Global flags as they were parsed.
#[derive(Debug)]
pub struct Cli {
    /// `--install-mode`.
    pub install_mode: InstallMode,
    /// `--prefix`.
    pub prefix: Option<String>,
    /// `--json`.
    pub json: bool,
    /// `--dry-run`.
    pub dry_run: bool,
    /// `--verbose`.
    pub verbose: bool,
    /// `--quiet`.
    pub quiet: bool,
    /// `--no-color`.
    pub no_color: bool,
}

/// Snapshot of the global flags, the same for every command.
#[derive(Debug)]
pub struct CliContext {
    /// Whose files are managed.
    pub install_mode: InstallMode,
    /// Root in place of the default one.
    pub prefix: Option<String>,
    /// Machine-readable output.
    pub json: bool,
    /// Only plan.
    pub dry_run: bool,
    /// More output.
    pub verbose: bool,
    /// Less output.
    pub quiet: bool,
    /// No colors.
    pub no_color: bool,
}

impl Clone for CliContext {
    fn clone(&self) -> (r: Self)
        ensures
            r == *self,
    {
        CliContext {
            install_mode: self.install_mode,
            prefix: copy_opt(&self.prefix),
            json: self.json,
            dry_run: self.dry_run,
            verbose: self.verbose,
            quiet: self.quiet,
            no_color: self.no_color,
        }
    }
}

impl CliContext {
    /// Takes the snapshot.
    pub fn from_cli(cli: &Cli) -> (r: Self)
        ensures
            r == (CliContext {
                install_mode: cli.install_mode,
                prefix: cli.prefix,
                json: cli.json,
                dry_run: cli.dry_run,
                verbose: cli.verbose,
                quiet: cli.quiet,
                no_color: cli.no_color,
            }),
    {
        CliContext {
            install_mode: cli.install_mode,
            prefix: copy_opt(&cli.prefix),
            json: cli.json,
            dry_run: cli.dry_run,
            verbose: cli.verbose,
            quiet: cli.quiet,
            no_color: cli.no_color,
        }
    }
}

/// How each mode is called.
pub proof fn law_names_of_modes(mode: InstallMode)
    ensures
        mode is User ==> mode.name() == "user"@,
        mode is System ==> mode.name() == "system"@,
{
}

} // verus!
