//! Output policy: human failures as `key: value` lines, agent mode without
//! ANSI colour, panics as an exit-99 envelope.

use vstd::prelude::*;

use crate::error::{ErrorEnvelope, Kind};
use crate::text::{concat2, contains_seq, contains_str, to_chars, decimal, decimal_text};

verus! {

/// The escape sequence that starts an ANSI colour code.
pub const ANSI_ESCAPE: &'static str = "\x1b[";

/// Whether `s` holds an ANSI escape sequence.
pub fn contains_ansi(s: &str) -> (b: bool)
    ensures
        b == contains_seq(s@, ANSI_ESCAPE@),
{
    let v = to_chars(s);
    contains_str(&v, ANSI_ESCAPE)
}

/// Agent-mode output never carries ANSI escapes: suppression is on exactly
/// in agent mode.
pub fn agent_output_suppresses_ansi(agent: bool) -> (b: bool)
    ensures
        b == agent,
{
    agent
}

/// The envelope of a panic with its message, location and thread name.
pub fn envelope_from_panic_payload(msg: &str, location: Option<&str>, thread: Option<&str>) -> (e:
    ErrorEnvelope)
    ensures
        e.is_kind(Kind::InternalPanic),
        e.msg@ == msg@,
{
    ErrorEnvelope::internal_panic(crate::text::owned(msg), location, thread)
}

/// The `Debug` name of a kind.
pub open spec fn kind_name(k: Kind) -> Seq<char> {
    match k {
        Kind::UserError => "UserError"@,
        Kind::TemplateError => "TemplateError"@,
        Kind::FileConflict => "FileConflict"@,
        Kind::NetworkError => "NetworkError"@,
        Kind::ConfigError => "ConfigError"@,
        Kind::InternalPanic => "InternalPanic"@,
    }
}

fn kind_name_exec(k: Kind) -> (s: &'static str)
    ensures
        s@ == kind_name(k),
{
    match k {
        Kind::UserError => "UserError",
        Kind::TemplateError => "TemplateError",
        Kind::FileConflict => "FileConflict",
        Kind::NetworkError => "NetworkError",
        Kind::ConfigError => "ConfigError",
        Kind::InternalPanic => "InternalPanic",
    }
}

/// The decimal text of an integer, with `-` for a negative one.
pub open spec fn signed_decimal(n: int) -> Seq<char> {
    if n < 0 {
        "-"@ + decimal((-n) as nat)
    } else {
        decimal(n as nat)
    }
}

fn signed_decimal_exec(n: i32) -> (s: String)
    ensures
        s@ == signed_decimal(n as int),
{
    if n < 0 {
        let m: i64 = -(n as i64);
        concat2("-", decimal_text(m as u64).as_str())
    } else {
        decimal_text(n as u64)
    }
}

/// The lines of a human-readable failure report (`hint`: the rendered
/// hint): the kind, the message, the hint when there is one, the exit code.
pub open spec fn human_failure(e: ErrorEnvelope, hint: Seq<char>) -> Seq<Seq<char>> {
    let head = seq!["error: "@ + kind_name(e.kind), "msg: "@ + e.msg@];
    let tail = seq!["exit_code: "@ + signed_decimal(e.exit_code as int)];
    if hint.len() == 0 {
        head + tail
    } else {
        head + seq!["hint: "@ + hint] + tail
    }
}

/// The stderr lines of a failure outside agent mode.
pub fn human_failure_lines(e: &ErrorEnvelope, hint: &str) -> (r: Vec<String>)
    ensures
        r@.map_values(|l: String| l@) == human_failure(*e, hint@),
{
    let mut r: Vec<String> = Vec::new();
    r.push(concat2("error: ", kind_name_exec(e.kind)));
    r.push(concat2("msg: ", e.msg.as_str()));
    let has_hint = hint.unicode_len() > 0;
    if has_hint {
        r.push(concat2("hint: ", hint));
    }
    r.push(concat2("exit_code: ", signed_decimal_exec(e.exit_code).as_str()));
    assert(r@.map_values(|l: String| l@) =~= human_failure(*e, hint@));
    r
}

} // verus!
