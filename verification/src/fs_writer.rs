//! The write plan: every target is checked against the overwrite policy
//! before anything is written, and one denied conflict aborts the batch.

use vstd::prelude::*;

use crate::config::OverwritePolicy;
use crate::error::{ErrorEnvelope, Kind, detail_is_text};
use crate::text::concat2;

verus! {

/// One destination write.
pub struct WriteTarget {
    /// Final path on disk.
    pub path: String,
    /// Bytes to write.
    pub content: Vec<u8>,
}

/// The overwrite setting: policy from the user configuration and `--force`.
#[derive(Clone, Copy)]
pub struct OverwriteContext {
    pub policy: OverwritePolicy,
    pub force: bool,
}

/// A checked batch of writes.
pub struct WritePlan {
    pub targets: Vec<WriteTarget>,
}

/// An existing file may be replaced: never, only with `--force`, or always.
pub open spec fn policy_allows(policy: OverwritePolicy, force: bool) -> bool {
    match policy {
        OverwritePolicy::Never => false,
        OverwritePolicy::ForceOnly => force,
        OverwritePolicy::Always => true,
    }
}

/// Whether the setting lets an existing file be replaced.
pub fn allows_overwrite(ctx: OverwriteContext) -> (b: bool)
    ensures
        b == policy_allows(ctx.policy, ctx.force),
{
    match ctx.policy {
        OverwritePolicy::Never => false,
        OverwritePolicy::ForceOnly => ctx.force,
        OverwritePolicy::Always => true,
    }
}

/// `e` reports that the file at `path` exists and may not be replaced.
pub open spec fn is_conflict_error(e: ErrorEnvelope, path: Seq<char>) -> bool {
    &&& e.is_kind(Kind::FileConflict)
    &&& e.msg@ == "file exists: "@ + path
    &&& e.hint@ == "error.file.conflict"@
    &&& e.details@.contains_key("path"@)
    &&& detail_is_text(e.details@["path"@], path)
}

/// The conflict error for `path`.
pub fn conflict_error(path: &str) -> (e: ErrorEnvelope)
    ensures
        is_conflict_error(e, path@),
{
    ErrorEnvelope::file_conflict(concat2("file exists: ", path), path)
}

/// Checks every target (with whether its file exists, in the same order)
/// against the setting; the first existing file it refuses aborts the
/// whole batch.
pub fn plan(targets: Vec<WriteTarget>, existing: &Vec<bool>, overwrite: OverwriteContext) -> (r:
    Result<WritePlan, ErrorEnvelope>)
    requires
        existing@.len() == targets@.len(),
    ensures
        policy_allows(overwrite.policy, overwrite.force) || (forall|i: int|
            0 <= i < existing@.len() ==> !existing@[i]) ==> (r matches Ok(p) && p.targets@
            == targets@),
        r matches Err(e) ==> exists|i: int|
            0 <= i < targets@.len() && existing@[i] && !policy_allows(
                overwrite.policy,
                overwrite.force,
            ) && is_conflict_error(e, targets@[i].path@) && forall|j: int|
                0 <= j < i ==> !existing@[j],
        r is Ok ==> (policy_allows(overwrite.policy, overwrite.force) || forall|i: int|
            0 <= i < existing@.len() ==> !existing@[i]),
{
    let allowed = allows_overwrite(overwrite);
    let mut i: usize = 0;
    while i < targets.len()
        invariant
            existing@.len() == targets@.len(),
            allowed == policy_allows(overwrite.policy, overwrite.force),
            i <= targets@.len(),
            !allowed ==> forall|j: int| 0 <= j < i ==> !existing@[j],
        decreases targets@.len() - i,
    {
        if existing[i] && !allowed {
            return Err(conflict_error(targets[i].path.as_str()));
        }
        i = i + 1;
    }
    Ok(WritePlan { targets })
}

/// A filesystem failure while writing `path`.
pub fn write_error(path: &str, msg: String) -> (e: ErrorEnvelope)
    ensures
        e.is_kind(Kind::ConfigError),
        e.msg@ == msg@,
        e.hint@.len() == 0,
        e.details@.dom() == set!["path"@],
        detail_is_text(e.details@["path"@], path@),
{
    let mut details: crate::strmap::StrMap<crate::error::Detail> = crate::strmap::StrMap::new();
    details.insert(crate::text::owned("path"), crate::error::Detail::Text(crate::text::owned(path)));
    assert(details@.dom() =~= set!["path"@]);
    ErrorEnvelope {
        kind: Kind::ConfigError,
        msg,
        exit_code: Kind::ConfigError.exit_code(),
        hint: String::new(),
        hint_args: Vec::new(),
        details,
    }
}

} // verus!
