//! Per-bundle type maps and the global fallback for unmapped types.

use vstd::prelude::*;

use crate::error::{Detail, ErrorEnvelope, Kind, detail_is_text};
use crate::strmap::StrMap;
use crate::text::{concat2, owned};

verus! {

/// Sentinel filename for a per-bundle map; filtered from template walks.
pub const TYPE_MAP_FILE_NAME: &'static str = "type_map.toml";

/// Global fallback policy when a type lookup misses.
#[derive(Debug, Clone)]
pub enum Fallback {
    /// Output the source type unchanged (the default).
    Passthrough,
    /// Treat an unknown type as a user error and abort rendering.
    Error,
    /// Replace an unknown type with a fixed literal (e.g. `any`).
    Literal(String),
}

impl Fallback {
    /// The default policy: passthrough.
    pub fn default_policy() -> (f: Fallback)
        ensures
            f is Passthrough,
    {
        Fallback::Passthrough
    }
}

/// `e` is the failure for the unmapped type `ty` (in `bundle`, when given).
pub open spec fn is_unmapped_error(e: ErrorEnvelope, bundle: Option<Seq<char>>, ty: Seq<char>) -> bool {
    &&& e.is_kind(Kind::UserError)
    &&& e.has_reason("type_map_unmapped"@)
    &&& e.msg@ == "unmapped type: "@ + ty
    &&& e.details@.contains_key("type"@)
    &&& detail_is_text(e.details@["type"@], ty)
    &&& match bundle {
        Some(b) => e.details@.dom() == set!["type"@, "bundle"@, "reason"@] && detail_is_text(
            e.details@["bundle"@],
            b,
        ) && e.hint@ == "error.type_map.unmapped_bundle"@,
        None => e.details@.dom() == set!["type"@, "reason"@] && e.hint@
            == "error.type_map.unmapped_global"@,
    }
}

/// Resolves `ty` through the optional bundle map, then the fallback policy.
///
/// Returns `Err` only when the fallback is `Error` and the type is unmapped.
pub fn resolve(
    bundle: Option<&str>,
    map: Option<&StrMap<String>>,
    ty: &str,
    fallback: &Fallback,
) -> (r: Result<String, ErrorEnvelope>)
    ensures
        match map {
            Some(m) if m@.contains_key(ty@) => r matches Ok(s) && s@ == m@[ty@]@,
            _ => match fallback {
                Fallback::Passthrough => r matches Ok(s) && s@ == ty@,
                Fallback::Literal(l) => r matches Ok(s) && s@ == l@,
                Fallback::Error => r matches Err(e) && is_unmapped_error(
                    e,
                    match bundle {
                        Some(b) => Some(b@),
                        None => None,
                    },
                    ty@,
                ),
            },
        },
{
    match map {
        Some(m) => match m.get(ty) {
            Some(v) => {
                return Ok(v.clone());
            },
            None => {},
        },
        None => {},
    }
    match fallback {
        Fallback::Passthrough => Ok(owned(ty)),
        Fallback::Literal(s) => Ok(s.clone()),
        Fallback::Error => Err(unmapped_type_error(bundle, ty)),
    }
}

fn unmapped_type_error(bundle: Option<&str>, ty: &str) -> (e: ErrorEnvelope)
    ensures
        is_unmapped_error(
            e,
            match bundle {
                Some(b) => Some(b@),
                None => None,
            },
            ty@,
        ),
{
    proof {
        reveal_strlit("type");
        reveal_strlit("bundle");
        reveal_strlit("reason");
        assert("type"@[0] != "reason"@[0]);
        assert("bundle"@[0] != "reason"@[0]);
        assert("bundle"@[0] != "type"@[0]);
    }
    let mut details: StrMap<Detail> = StrMap::new();
    details.insert(owned("type"), Detail::Text(owned(ty)));
    let mut args: Vec<(String, String)> = Vec::new();
    args.push((owned("type"), owned(ty)));
    let hint = match bundle {
        Some(b) => {
            details.insert(owned("bundle"), Detail::Text(owned(b)));
            args.push((owned("bundle"), owned(b)));
            owned("error.type_map.unmapped_bundle")
        },
        None => owned("error.type_map.unmapped_global"),
    };
    let e = ErrorEnvelope::user_error_with_reason(
        concat2("unmapped type: ", ty),
        "type_map_unmapped",
        details,
        hint,
    );
    let e = e.with_hint_args(args);
    proof {
        match bundle {
            Some(b) => { assert(e.details@.dom() =~= set!["type"@, "bundle"@, "reason"@]); },
            None => { assert(e.details@.dom() =~= set!["type"@, "reason"@]); },
        }
    }
    e
}

} // verus!
