//! The command-line surface as plain data: what the shell's argument
//! parser hands the engine once flags are read.

use vstd::prelude::*;

verus! {

/// The parsed invocation.
#[derive(Debug, Clone)]
pub struct Cli {
    pub source: Vec<String>,
    pub output_dir: Option<String>,
    pub kind: String,
    pub pdf_mode: String,
    pub pages: Vec<String>,
    pub pdf_dpi: Option<u32>,
    pub model: Option<String>,
    pub format: Option<OutputFormatArg>,
    pub recursive: bool,
    pub no_recursive: bool,
    pub skip_existing: bool,
    pub export: Vec<String>,
    pub to: Option<ConversionTarget>,
    pub from: ConversionSource,
    pub file_pattern: String,
    pub preset: String,
    pub config: Option<String>,
    pub media_resolution: Option<String>,
    pub dry_run: bool,
    pub json: bool,
    pub quiet: bool,
    pub save_metadata: bool,
    pub cmd: Option<Command>,
}

/// The subcommands.
#[derive(Debug, Clone)]
pub enum Command {
    Report { command: ReportCommand },
    Cleanup { command: CleanupCommand },
}

/// What a conversion run produces.
#[derive(Debug, Clone, Copy, PartialEq, Eq, Structural)]
pub enum ConversionTarget {
    Markdown,
    Json,
}

/// What a conversion run reads.
#[derive(Debug, Clone, Copy, PartialEq, Eq, Structural)]
pub enum ConversionSource {
    Auto,
    Latex,
    Markdown,
}

/// The output format flag.
#[derive(Debug, Clone, Copy, PartialEq, Eq, Structural)]
pub enum OutputFormatArg {
    Markdown,
    Latex,
}

/// The reporting subcommands.
#[derive(Debug, Clone)]
pub enum ReportCommand {
    Cost { input: String, json: bool },
}

/// The cleanup subcommands.
#[derive(Debug, Clone)]
pub enum CleanupCommand {
    Cache { dry_run: bool, yes: bool },
    Downloads { path: String, dry_run: bool, yes: bool },
}

} // verus!
