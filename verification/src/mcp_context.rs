//! Project location for the MCP server: workspace-root URIs and the
//! project/template roots a request works in.

use vstd::prelude::*;

use crate::text::{owned, strip_prefix, to_chars, concat2, append_str};
use crate::error::{Detail, ErrorEnvelope, Kind, detail_is_text};
use crate::strmap::StrMap;

verus! {

/// A loaded project: its root and its resolved template bundle root.
pub struct ProjectContext {
    pub cwd: String,
    pub templates_root: String,
}

/// Most parent-directory hops the search for `.crud/setup.toml` takes.
pub const MAX_ASCENT_DEPTH: usize = 64;

/// One directory on the way up from where a project search starts: its
/// path, whether it holds `.crud/setup.toml`, and whether it lies within
/// the home directory.
pub struct AscentStep {
    pub dir: String,
    pub has_setup: bool,
    pub within_home: bool,
}

/// The search may look at the `i`-th directory up: at most
/// `MAX_ASCENT_DEPTH` hops, and, when it starts within the home directory,
/// never above it.
pub open spec fn ascent_reaches(steps: Seq<AscentStep>, i: int) -> bool {
    &&& 0 <= i < steps.len()
    &&& i <= MAX_ASCENT_DEPTH
    &&& steps[0].within_home ==> forall|j: int| 0 <= j <= i ==> #[trigger] steps[j].within_home
}

/// The nearest project root above a search start. `steps` are the start
/// directory and then each parent in turn up to the filesystem root; the
/// first one the search reaches that holds `.crud/setup.toml` is the root.
pub fn find_nearest_crud_root(steps: &Vec<AscentStep>) -> (r: Option<String>)
    ensures
        r matches Some(d) ==> exists|k: int|
            ascent_reaches(steps@, k) && (#[trigger] steps@[k]).has_setup && steps@[k].dir@ == d@
                && forall|j: int| 0 <= j < k ==> !(#[trigger] steps@[j]).has_setup,
        r is None ==> forall|k: int| ascent_reaches(steps@, k) ==> !(#[trigger] steps@[k]).has_setup,
{
    if steps.len() == 0 {
        return None;
    }
    let home_ceiling = steps[0].within_home;
    let mut i: usize = 0;
    while i < steps.len()
        invariant
            0 < steps@.len(),
            home_ceiling == steps@[0].within_home,
            i <= steps@.len(),
            i <= MAX_ASCENT_DEPTH + 1,
            i > 0 ==> ascent_reaches(steps@, i - 1),
            forall|j: int| 0 <= j < i ==> !(#[trigger] steps@[j]).has_setup,
        decreases steps@.len() - i,
    {
        if i > MAX_ASCENT_DEPTH || (home_ceiling && !steps[i].within_home) {
            proof {
                assert forall|k: int| ascent_reaches(steps@, k) implies !(#[trigger] steps@[k]).has_setup by {
                    if k >= i {
                        if i <= MAX_ASCENT_DEPTH {
                            assert(steps@[i as int].within_home);
                        }
                    }
                }
            }
            return None;
        }
        assert(ascent_reaches(steps@, i as int));
        if steps[i].has_setup {
            return Some(steps[i].dir.clone());
        }
        i = i + 1;
    }
    None
}

/// The value of an ASCII hex digit.
pub open spec fn hex_value(b: u8) -> Option<u8> {
    if 48 <= b <= 57 {
        Some((b - 48) as u8)
    } else if 97 <= b <= 102 {
        Some((b - 97 + 10) as u8)
    } else if 65 <= b <= 70 {
        Some((b - 65 + 10) as u8)
    } else {
        None
    }
}

/// `%XY` escapes decoded, every other byte taken as the character with
/// that code (Latin-1).
pub open spec fn percent_decoded(b: Seq<u8>) -> Seq<char>
    decreases b.len(),
{
    if b.len() == 0 {
        Seq::<char>::empty()
    } else if b[0] == 37 && b.len() > 2 && hex_value(b[1]) is Some && hex_value(b[2]) is Some {
        seq![((hex_value(b[1]).unwrap() * 16 + hex_value(b[2]).unwrap()) as u8) as char]
            + percent_decoded(b.skip(3))
    } else {
        seq![b[0] as char] + percent_decoded(b.drop_first())
    }
}

/// The value of an ASCII hex digit, if it is one.
pub fn hex_digit(b: u8) -> (r: Option<u8>)
    ensures
        r == hex_value(b),
{
    if 48 <= b && b <= 57 {
        Some(b - 48)
    } else if 97 <= b && b <= 102 {
        Some(b - 97 + 10)
    } else if 65 <= b && b <= 70 {
        Some(b - 65 + 10)
    } else {
        None
    }
}

/// Decodes `%XY` escapes in a byte string.
pub fn percent_decode_path(input: &[u8]) -> (r: String)
    ensures
        r@ == percent_decoded(input@),
{
    let mut out = String::new();
    let mut i: usize = 0;
    assert(input@.skip(0) =~= input@);
    while i < input.len()
        invariant
            i <= input@.len(),
            out@ + percent_decoded(input@.skip(i as int)) == percent_decoded(input@),
        decreases input@.len() - i,
    {
        let ghost rest = input@.skip(i as int);
        assert(rest[0] == input@[i as int]);
        if input[i] == 37 && input.len() - i > 2 {
            assert(rest[1] == input@[i + 1]);
            assert(rest[2] == input@[i + 2]);
            match (hex_digit(input[i + 1]), hex_digit(input[i + 2])) {
                (Some(hi), Some(lo)) => {
                    let v: u8 = hi * 16 + lo;
                    out.push(v as char);
                    assert(rest.skip(3) =~= input@.skip(i + 3));
                    i = i + 3;
                    continue;
                },
                _ => {},
            }
        }
        out.push(input[i] as char);
        assert(rest.drop_first() =~= input@.skip(i + 1));
        i = i + 1;
    }
    assert(input@.skip(i as int) =~= Seq::<u8>::empty());
    out
}

/// A workspace-root URI without its `file://` (or `file:`) scheme.
pub open spec fn uri_path_part(uri: Seq<char>) -> Seq<char> {
    match strip_prefix(uri, "file://"@) {
        Some(t) => t,
        None => match strip_prefix(uri, "file:"@) {
            Some(t) => t,
            None => uri,
        },
    }
}

/// Converts a `file://` workspace-root URI to a local path: the scheme is
/// removed and `%XY` escapes decoded (a relative result is made absolute by
/// the caller).
pub fn file_uri_to_path(uri: &str) -> (r: String)
    ensures
        r@ == percent_decoded(vstd::utf8::encode_utf8(uri_path_part(uri@))),
{
    let v = to_chars(uri);
    assert(v@.subrange(0, v@.len() as int) =~= uri@);
    let start = match crate::text::strip_prefix_range(&v, 0, v.len(), "file://") {
        Some(k) => k,
        None => match crate::text::strip_prefix_range(&v, 0, v.len(), "file:") {
            Some(k) => k,
            None => 0,
        },
    };
    let rest = crate::text::string_of_range(&v, start, v.len());
    assert(rest@ == uri_path_part(uri@));
    let bytes = rest.as_str().as_bytes();
    percent_decode_path(bytes)
}


/// The note added when the search stopped at the user's home directory.
pub open spec fn home_note(home: Option<Seq<char>>) -> Seq<char> {
    match home {
        Some(h) => " Search stopped at user home ("@ + h + ")."@,
        None => Seq::<char>::empty(),
    }
}

/// The hint when no project is found walking up from the start path.
pub open spec fn not_found_hint(home: Option<Seq<char>>) -> Seq<char> {
    "Working-directory detection issue: the MCP server could not find `.crud/setup.toml` by walking up from the start path."@
        + home_note(home)
        + " Fix: (1) run `crud-cli setup --project` in your repo root; (2) set MCP config `cwd` to that root, or add `args: [\"mcp\", \"--path\", \"/absolute/path/to/project\"]` (Cursor: use \"${workspaceFolder}\"); (3) pass `project_root` to `crud_describe_templates` to probe another path."@
}

/// The failure when walking up from `searched_from` (normalized to
/// `normalized`) finds no `.crud/setup.toml`; `home` is the user's home when
/// the start lies within it (the search stopped there).
pub fn project_not_found_error(searched_from: &str, normalized: &str, home: Option<&str>) -> (e:
    ErrorEnvelope)
    ensures
        e.is_kind(Kind::ConfigError),
        e.msg@ == "no crud-cli project found starting from "@ + searched_from@,
        e.has_reason("mcp_project_not_found"@),
        e.hint@ == not_found_hint(match home {
            Some(h) => Some(h@),
            None => None,
        }),
        e.details@.dom() == set!["searched_from"@, "normalized_start"@, "expected_marker"@, "reason"@],
        detail_is_text(e.details@["searched_from"@], searched_from@),
        detail_is_text(e.details@["normalized_start"@], normalized@),
        detail_is_text(e.details@["expected_marker"@], ".crud/setup.toml"@),
{
    proof {
        reveal_strlit("searched_from");
        reveal_strlit("normalized_start");
        reveal_strlit("expected_marker");
        reveal_strlit("reason");
        assert("searched_from"@[0] != "normalized_start"@[0]);
        assert("searched_from"@[0] != "expected_marker"@[0]);
        assert("searched_from"@[0] != "reason"@[0]);
        assert("normalized_start"@[0] != "expected_marker"@[0]);
        assert("normalized_start"@[0] != "reason"@[0]);
        assert("expected_marker"@[0] != "reason"@[0]);
    }
    let mut details: StrMap<Detail> = StrMap::new();
    details.insert(owned("searched_from"), Detail::Text(owned(searched_from)));
    details.insert(owned("normalized_start"), Detail::Text(owned(normalized)));
    details.insert(owned("expected_marker"), Detail::Text(owned(".crud/setup.toml")));
    let mut hint = owned(
        "Working-directory detection issue: the MCP server could not find `.crud/setup.toml` by walking up from the start path.",
    );
    match home {
        Some(h) => {
            append_str(&mut hint, " Search stopped at user home (");
            append_str(&mut hint, h);
            append_str(&mut hint, ").");
        },
        None => {},
    }
    append_str(
        &mut hint,
        " Fix: (1) run `crud-cli setup --project` in your repo root; (2) set MCP config `cwd` to that root, or add `args: [\"mcp\", \"--path\", \"/absolute/path/to/project\"]` (Cursor: use \"${workspaceFolder}\"); (3) pass `project_root` to `crud_describe_templates` to probe another path.",
    );
    let e = ErrorEnvelope::config_error_with_reason(
        concat2("no crud-cli project found starting from ", searched_from),
        "mcp_project_not_found",
        details,
        hint,
    );
    assert(e.details@.dom() =~= set!["searched_from"@, "normalized_start"@, "expected_marker"@, "reason"@]);
    e
}

/// The failure when the project's setup exists but does not load: the
/// inner failure's kind, exit code and details, with the search start,
/// project root and setup path added (`inner_hint`: the inner failure's
/// rendered hint).
pub fn setup_load_error(
    searched_from: &str,
    project_root: &str,
    setup_path: &str,
    inner: ErrorEnvelope,
    inner_hint: &str,
) -> (e: ErrorEnvelope)
    ensures
        e.kind == inner.kind,
        e.exit_code == inner.exit_code,
        e.msg@ == "found project at "@ + project_root@ + " but failed to load "@ + setup_path@ + ": "@
            + inner.msg@,
        e.hint@ == "A `.crud/setup.toml` exists at "@ + project_root@
            + " but could not be read or parsed. Run `crud-cli setup --project --force` to regenerate, or fix the TOML. Original hint: "@
            + inner_hint@,
        e.hint_args@.len() == 0,
        e.details@.dom() == inner.details@.dom().insert("searched_from"@).insert("project_root"@).insert(
            "setup_path"@,
        ),
        forall|k: Seq<char>| #[trigger]
            inner.details@.contains_key(k) && k != "searched_from"@ && k != "project_root"@ && k
                != "setup_path"@ ==> e.details@[k] == inner.details@[k],
        detail_is_text(e.details@["searched_from"@], searched_from@),
        detail_is_text(e.details@["project_root"@], project_root@),
        detail_is_text(e.details@["setup_path"@], setup_path@),
{
    proof {
        reveal_strlit("searched_from");
        reveal_strlit("project_root");
        reveal_strlit("setup_path");
        assert("searched_from"@[1] != "project_root"@[1]);
        assert("searched_from"@[2] != "setup_path"@[2]);
        assert("project_root"@[0] != "setup_path"@[0]);
    }
    let mut details = inner.details;
    details.insert(owned("searched_from"), Detail::Text(owned(searched_from)));
    details.insert(owned("project_root"), Detail::Text(owned(project_root)));
    details.insert(owned("setup_path"), Detail::Text(owned(setup_path)));
    let mut msg = concat2("found project at ", project_root);
    append_str(&mut msg, " but failed to load ");
    append_str(&mut msg, setup_path);
    append_str(&mut msg, ": ");
    append_str(&mut msg, inner.msg.as_str());
    let mut hint = concat2("A `.crud/setup.toml` exists at ", project_root);
    append_str(
        &mut hint,
        " but could not be read or parsed. Run `crud-cli setup --project --force` to regenerate, or fix the TOML. Original hint: ",
    );
    append_str(&mut hint, inner_hint);
    let e = ErrorEnvelope {
        kind: inner.kind,
        msg,
        exit_code: inner.exit_code,
        hint,
        hint_args: Vec::new(),
        details,
    };
    assert(e.details@.dom() =~= inner.details@.dom().insert("searched_from"@).insert("project_root"@).insert(
        "setup_path"@,
    ));
    e
}

/// The failure when the project loads but its template bundle cannot be
/// resolved (`inner_hint`: the inner failure's rendered hint).
pub fn templates_root_error(project_root: &str, inner: ErrorEnvelope, inner_hint: &str) -> (e:
    ErrorEnvelope)
    ensures
        e.kind == inner.kind,
        e.exit_code == inner.exit_code,
        e.msg@ == "project at "@ + project_root@ + " loaded, but template bundle resolution failed: "@
            + inner.msg@,
        e.hint@ == "Ensure `.crud/templates/` exists or run `crud-cli template use <name>`. "@
            + inner_hint@,
        e.hint_args@.len() == 0,
        e.details@ == inner.details@.insert("project_root"@, e.details@["project_root"@]),
        detail_is_text(e.details@["project_root"@], project_root@),
{
    let mut details = inner.details;
    details.insert(owned("project_root"), Detail::Text(owned(project_root)));
    let mut msg = concat2("project at ", project_root);
    append_str(&mut msg, " loaded, but template bundle resolution failed: ");
    append_str(&mut msg, inner.msg.as_str());
    let hint = concat2(
        "Ensure `.crud/templates/` exists or run `crud-cli template use <name>`. ",
        inner_hint,
    );
    ErrorEnvelope {
        kind: inner.kind,
        msg,
        exit_code: inner.exit_code,
        hint,
        hint_args: Vec::new(),
        details,
    }
}

} // verus!
