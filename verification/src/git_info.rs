//! Git user identity for the template context.

use vstd::prelude::*;

use crate::text::{to_chars, trim, trim_range, string_of_range};

verus! {

/// `git config user.name` / `user.email` (empty when unavailable).
pub struct GitInfo {
    pub user_name: String,
    pub user_email: String,
}

impl GitInfo {
    /// Both values empty.
    pub fn empty() -> (g: GitInfo)
        ensures
            g.user_name@.len() == 0,
            g.user_email@.len() == 0,
    {
        GitInfo { user_name: String::new(), user_email: String::new() }
    }
}

/// The value `git config --get` reported: its trimmed output when the
/// command ran and succeeded, else empty.
pub open spec fn config_value(output: Option<Seq<char>>) -> Seq<char> {
    match output {
        Some(o) => trim(o),
        None => Seq::<char>::empty(),
    }
}

/// The value from the output of `git config --get` (`None` when git could
/// not run or the key is unset).
pub fn git_config_value(output: Option<&str>) -> (r: String)
    ensures
        r@ == config_value(
            match output {
                Some(o) => Some(o@),
                None => None,
            },
        ),
{
    match output {
        Some(o) => {
            let v = to_chars(o);
            let (lo, hi) = trim_range(&v, 0, v.len());
            assert(v@.subrange(0, v@.len() as int) =~= o@);
            string_of_range(&v, lo, hi)
        },
        None => String::new(),
    }
}

/// The identity from the outputs of `git config --get user.name` and
/// `git config --get user.email`. Never fails: missing values are empty.
pub fn read(name_output: Option<&str>, email_output: Option<&str>) -> (g: GitInfo)
    ensures
        g.user_name@ == config_value(
            match name_output {
                Some(o) => Some(o@),
                None => None,
            },
        ),
        g.user_email@ == config_value(
            match email_output {
                Some(o) => Some(o@),
                None => None,
            },
        ),
{
    GitInfo { user_name: git_config_value(name_output), user_email: git_config_value(email_output) }
}

} // verus!
