//! Agent mode: the `--agent` flag, else `CRUD_AGENT=1`, switches the CLI to
//! machine output (JSON failures on stderr, nothing on stdout).

use vstd::prelude::*;

use crate::text::str_eq;

verus! {

/// `CRUD_AGENT` turns agent mode on only when set to exactly `1`.
pub open spec fn env_enables_agent(env_value: Option<Seq<char>>) -> bool {
    env_value == Some("1"@)
}

/// Whether the `CRUD_AGENT` value (when set) enables agent mode.
pub fn is_agent_from_env(env_value: Option<&str>) -> (b: bool)
    ensures
        b == env_enables_agent(match env_value {
            Some(v) => Some(v@),
            None => None,
        }),
{
    match env_value {
        Some(v) => str_eq(v, "1"),
        None => false,
    }
}

/// Agent mode for a parsed `--agent` flag: the flag, when given, wins over
/// the environment.
pub fn resolve_agent_mode(cli_flag: Option<bool>, env_agent: bool) -> (b: bool)
    ensures
        b == (match cli_flag {
            Some(v) => v,
            None => env_agent,
        }),
{
    match cli_flag {
        Some(v) => v,
        None => env_agent,
    }
}

/// Agent mode of the running process: `recorded` is the flag recorded at
/// start-up (`None` before it was recorded or when no flag was given).
pub fn is_agent_active(recorded: Option<bool>, env_agent: bool) -> (b: bool)
    ensures
        b == (match recorded {
            Some(v) => v,
            None => env_agent,
        }),
{
    resolve_agent_mode(recorded, env_agent)
}

} // verus!
