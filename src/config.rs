//! Turning the command line and the configuration's package table into
//! requests.
use vstd::prelude::*;
use vstd::string::*;
use crate::args::{Arguments, opt_view};
use crate::pipeline::PatchRequest;

verus! {

/// The one subcommand there is.
#[derive(Debug, Clone, Copy, PartialEq, Eq, Structural)]
pub enum Command {
    Apply,
}

/// A command line that names no known subcommand.
#[derive(Debug, Clone, Copy, PartialEq, Eq, Structural)]
pub enum UsageError {
    NoCommand,
    UnknownCommand,
}

/// The subcommand named on the command line: only `apply` is known.
pub fn select_command(args: &Arguments) -> (r: Result<Command, UsageError>)
    ensures
        match opt_view(args.command) {
            None => r == Err::<Command, UsageError>(UsageError::NoCommand),
            Some(c) => if c == "apply"@ {
                r == Ok::<Command, UsageError>(Command::Apply)
            } else {
                r == Err::<Command, UsageError>(UsageError::UnknownCommand)
            },
        },
{
    match &args.command {
        None => Err(UsageError::NoCommand),
        Some(c) => if *c == String::from_str("apply") {
            Ok(Command::Apply)
        } else {
            Err(UsageError::UnknownCommand)
        },
    }
}

pub open spec fn default_config_name() -> Seq<char> {
    "esodiff.toml"@
}

/// The configuration file, relative to the working directory: the one given
/// with `--diff`, else `esodiff.toml`.
pub fn config_file_name(args: &Arguments) -> (r: String)
    ensures
        r@ == match opt_view(args.diff_file) {
            Some(d) => d,
            None => default_config_name(),
        },
{
    match &args.diff_file {
        Some(d) => d.clone(),
        None => String::from_str("esodiff.toml"),
    }
}

/// One package of the configuration: its name and the fields found for it
/// (`version`, `patch`, `output`), `None` where a field is absent or not text.
#[derive(Debug, Clone)]
pub struct ConfigEntry {
    pub name: String,
    pub version: Option<String>,
    pub patch: Option<String>,
    pub output: Option<String>,
}

#[derive(Debug, Clone, Copy, PartialEq, Eq, Structural)]
pub enum ConfigField {
    Version,
    Patch,
    Output,
}

/// A package of the configuration lacks a field.
#[derive(Debug, Clone, Copy, PartialEq, Eq, Structural)]
pub struct ConfigError {
    pub index: usize,
    pub field: ConfigField,
}

/// The first field that the entry lacks, in the order version, patch, output.
pub open spec fn missing_field(e: ConfigEntry) -> Option<ConfigField> {
    if e.version is None {
        Some(ConfigField::Version)
    } else if e.patch is None {
        Some(ConfigField::Patch)
    } else if e.output is None {
        Some(ConfigField::Output)
    } else {
        None
    }
}

/// The request an entry that lacks no field stands for.
pub open spec fn entry_request(e: ConfigEntry) -> PatchRequest {
    PatchRequest {
        package_name: e.name,
        version: e.version->Some_0,
        diff_source: e.patch->Some_0,
        destination_root: e.output->Some_0,
    }
}

/// One request per package, in order; or the first package that lacks a
/// field, and which.
pub fn requests_from_config(entries: &Vec<ConfigEntry>) -> (r: Result<Vec<PatchRequest>, ConfigError>)
    ensures
        match r {
            Ok(v) => v@.len() == entries@.len() && (forall|i: int|
                0 <= i < entries@.len() ==> missing_field(#[trigger] entries@[i]) is None
                    && v@[i] == entry_request(entries@[i])),
            Err(e) => e.index < entries@.len() && missing_field(entries@[e.index as int])
                == Some(e.field) && (forall|i: int|
                0 <= i < e.index ==> missing_field(#[trigger] entries@[i]) is None),
        },
{
    let mut out: Vec<PatchRequest> = Vec::new();
    let mut i: usize = 0;
    while i < entries.len()
        invariant
            i <= entries@.len(),
            out@.len() == i,
            forall|j: int|
                0 <= j < i ==> missing_field(#[trigger] entries@[j]) is None && out@[j]
                    == entry_request(entries@[j]),
        decreases entries@.len() - i,
    {
        let e = &entries[i];
        let version = match &e.version {
            Some(v) => v.clone(),
            None => return Err(ConfigError { index: i, field: ConfigField::Version }),
        };
        let patch = match &e.patch {
            Some(p) => p.clone(),
            None => return Err(ConfigError { index: i, field: ConfigField::Patch }),
        };
        let output = match &e.output {
            Some(o) => o.clone(),
            None => return Err(ConfigError { index: i, field: ConfigField::Output }),
        };
        out.push(
            PatchRequest {
                package_name: e.name.clone(),
                version,
                diff_source: patch,
                destination_root: output,
            },
        );
        i = i + 1;
    }
    Ok(out)
}

} // verus!
