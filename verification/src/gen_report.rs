//! The outcome of a `gen` run: files written, skipped, in conflict, left
//! out by a render condition, listed by a dry run, or rendered for preview.

use vstd::prelude::*;

verus! {

/// One resolved output in `--dry-run` mode.
pub struct DryRunLine {
    pub path: String,
    pub line_count: usize,
    pub conflict: bool,
}

/// One rendered file carried back under `--stdout` (preview mode).
pub struct RenderedFile {
    pub path: String,
    pub content: String,
}

/// Files written, skipped (dry run), or conflicting during `gen`.
pub struct GenReport {
    /// Paths written.
    pub written: Vec<String>,
    /// Paths that would be written but were not (dry run).
    pub skipped: Vec<String>,
    /// Paths the overwrite policy blocks (dry run).
    pub conflicts: Vec<String>,
    /// Outputs a `generateWhen` / `skipWhen` condition left out.
    pub skipped_by_condition: Vec<String>,
    /// Populated only in dry-run mode.
    pub dry_run_lines: Vec<DryRunLine>,
    /// Populated only in preview mode.
    pub rendered: Vec<RenderedFile>,
}

impl GenReport {
    /// A report with every list empty.
    pub fn empty() -> (r: GenReport)
        ensures
            r.written@.len() == 0,
            r.skipped@.len() == 0,
            r.conflicts@.len() == 0,
            r.skipped_by_condition@.len() == 0,
            r.dry_run_lines@.len() == 0,
            r.rendered@.len() == 0,
    {
        GenReport {
            written: Vec::new(),
            skipped: Vec::new(),
            conflicts: Vec::new(),
            skipped_by_condition: Vec::new(),
            dry_run_lines: Vec::new(),
            rendered: Vec::new(),
        }
    }
}

} // verus!
