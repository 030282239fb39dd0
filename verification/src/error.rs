//! Structured error kinds, exit codes and the failure envelope.

use vstd::prelude::*;

use crate::strmap::StrMap;
use crate::text::owned;

verus! {

/// Process exit code contract: each failure kind maps to one exit code.
#[derive(Debug, Clone, Copy, PartialEq, Eq, Structural)]
pub enum Kind {
    UserError,
    TemplateError,
    FileConflict,
    NetworkError,
    ConfigError,
    InternalPanic,
}

/// The exit code of each kind.
pub open spec fn spec_exit_code(k: Kind) -> i32 {
    match k {
        Kind::UserError => 1,
        Kind::TemplateError => 2,
        Kind::FileConflict => 3,
        Kind::NetworkError => 4,
        Kind::ConfigError => 5,
        Kind::InternalPanic => 99,
    }
}

impl Kind {
    /// Maps each variant 1:1 to its exit code.
    pub fn exit_code(self) -> (c: i32)
        ensures
            c == spec_exit_code(self),
    {
        match self {
            Kind::UserError => 1,
            Kind::TemplateError => 2,
            Kind::FileConflict => 3,
            Kind::NetworkError => 4,
            Kind::ConfigError => 5,
            Kind::InternalPanic => 99,
        }
    }
}

/// One value under a key of the envelope's `details`.
#[derive(Debug)]
pub enum Detail {
    Text(String),
    List(Vec<String>),
}

/// Failure payload: kind, message, exit code, hint and structured details.
///
/// `hint` names a message-catalog key (or holds literal text, which the
/// catalog lookup returns unchanged); `hint_args` fills its `{name}`
/// placeholders.
#[derive(Debug)]
pub struct ErrorEnvelope {
    pub kind: Kind,
    pub msg: String,
    pub exit_code: i32,
    pub hint: String,
    pub hint_args: Vec<(String, String)>,
    pub details: StrMap<Detail>,
}

/// `d` holds the text `t`.
pub open spec fn detail_is_text(d: Detail, t: Seq<char>) -> bool {
    d matches Detail::Text(s) && s@ == t
}

impl ErrorEnvelope {
    /// The envelope's `reason` detail is `r`.
    pub open spec fn has_reason(&self, r: Seq<char>) -> bool {
        self.details@.contains_key("reason"@) && detail_is_text(self.details@["reason"@], r)
    }

    /// The kind and its exit code agree.
    pub open spec fn is_kind(&self, k: Kind) -> bool {
        self.kind == k && self.exit_code == spec_exit_code(k)
    }

    /// User input / CLI validation failure with optional `flag` / `value` details.
    pub fn user_error(msg: String, flag: Option<&str>, value: Option<&str>, hint: String) -> (e:
        Self)
        ensures
            e.is_kind(Kind::UserError),
            e.msg@ == msg@,
            e.hint@ == hint@,
            e.hint_args@.len() == 0,
            flag matches Some(f) ==> e.details@.contains_key("flag"@) && detail_is_text(
                e.details@["flag"@],
                f@,
            ),
            value matches Some(v) ==> e.details@.contains_key("value"@) && detail_is_text(
                e.details@["value"@],
                v@,
            ),
            forall|k: Seq<char>| #[trigger]
                e.details@.contains_key(k) ==> (k == "flag"@ && flag is Some) || (k == "value"@
                    && value is Some),
    {
        proof {
            reveal_strlit("flag");
            reveal_strlit("value");
            assert("flag"@[0] != "value"@[0]);
        }
        let mut details: StrMap<Detail> = StrMap::new();
        match flag {
            Some(f) => details.insert(owned("flag"), Detail::Text(owned(f))),
            None => {},
        }
        match value {
            Some(v) => details.insert(owned("value"), Detail::Text(owned(v))),
            None => {},
        }
        ErrorEnvelope {
            kind: Kind::UserError,
            msg,
            exit_code: Kind::UserError.exit_code(),
            hint,
            hint_args: Vec::new(),
            details,
        }
    }

    /// User error carrying a machine-readable `reason` in its details.
    pub fn user_error_with_reason(
        msg: String,
        reason: &str,
        details: StrMap<Detail>,
        hint: String,
    ) -> (e: Self)
        ensures
            e.is_kind(Kind::UserError),
            e.msg@ == msg@,
            e.hint@ == hint@,
            e.hint_args@.len() == 0,
            e.has_reason(reason@),
            e.details@ == details@.insert("reason"@, e.details@["reason"@]),
    {
        let mut details = details;
        details.insert(owned("reason"), Detail::Text(owned(reason)));
        ErrorEnvelope {
            kind: Kind::UserError,
            msg,
            exit_code: Kind::UserError.exit_code(),
            hint,
            hint_args: Vec::new(),
            details,
        }
    }

    /// Template render / schema failure.
    pub fn template_error(msg: String) -> (e: Self)
        ensures
            e.is_kind(Kind::TemplateError),
            e.msg@ == msg@,
            e.hint@.len() == 0,
            e.details@ == Map::<Seq<char>, Detail>::empty(),
    {
        ErrorEnvelope {
            kind: Kind::TemplateError,
            msg,
            exit_code: Kind::TemplateError.exit_code(),
            hint: String::new(),
            hint_args: Vec::new(),
            details: StrMap::new(),
        }
    }

    /// Template failure with caller-supplied details.
    pub fn template_error_with_reason(msg: String, details: StrMap<Detail>, hint: String) -> (e:
        Self)
        ensures
            e.is_kind(Kind::TemplateError),
            e.msg@ == msg@,
            e.hint@ == hint@,
            e.hint_args@.len() == 0,
            e.details@ == details@,
    {
        ErrorEnvelope {
            kind: Kind::TemplateError,
            msg,
            exit_code: Kind::TemplateError.exit_code(),
            hint,
            hint_args: Vec::new(),
            details,
        }
    }

    /// Configuration failure carrying a `reason` detail.
    pub fn config_error_with_reason(
        msg: String,
        reason: &str,
        details: StrMap<Detail>,
        hint: String,
    ) -> (e: Self)
        ensures
            e.is_kind(Kind::ConfigError),
            e.msg@ == msg@,
            e.hint@ == hint@,
            e.hint_args@.len() == 0,
            e.has_reason(reason@),
            e.details@ == details@.insert("reason"@, e.details@["reason"@]),
    {
        let mut details = details;
        details.insert(owned("reason"), Detail::Text(owned(reason)));
        ErrorEnvelope {
            kind: Kind::ConfigError,
            msg,
            exit_code: Kind::ConfigError.exit_code(),
            hint,
            hint_args: Vec::new(),
            details,
        }
    }

    /// Existing file blocked by the overwrite policy.
    pub fn file_conflict(msg: String, path: &str) -> (e: Self)
        ensures
            e.is_kind(Kind::FileConflict),
            e.msg@ == msg@,
            e.hint@ == "error.file.conflict"@,
            e.details@.contains_key("path"@),
            detail_is_text(e.details@["path"@], path@),
    {
        let mut details: StrMap<Detail> = StrMap::new();
        details.insert(owned("path"), Detail::Text(owned(path)));
        ErrorEnvelope {
            kind: Kind::FileConflict,
            msg,
            exit_code: Kind::FileConflict.exit_code(),
            hint: owned("error.file.conflict"),
            hint_args: Vec::new(),
            details,
        }
    }

    /// Normalized panic: exit code 99 with optional location / thread details.
    pub fn internal_panic(msg: String, location: Option<&str>, thread: Option<&str>) -> (e: Self)
        ensures
            e.is_kind(Kind::InternalPanic),
            e.msg@ == msg@,
            e.hint@.len() == 0,
            location matches Some(l) ==> e.details@.contains_key("location"@) && detail_is_text(
                e.details@["location"@],
                l@,
            ),
            thread matches Some(t) ==> e.details@.contains_key("thread"@) && detail_is_text(
                e.details@["thread"@],
                t@,
            ),
    {
        proof {
            reveal_strlit("location");
            reveal_strlit("thread");
            assert("location"@[0] != "thread"@[0]);
        }
        let mut details: StrMap<Detail> = StrMap::new();
        match location {
            Some(l) => details.insert(owned("location"), Detail::Text(owned(l))),
            None => {},
        }
        match thread {
            Some(t) => details.insert(owned("thread"), Detail::Text(owned(t))),
            None => {},
        }
        ErrorEnvelope {
            kind: Kind::InternalPanic,
            msg,
            exit_code: Kind::InternalPanic.exit_code(),
            hint: String::new(),
            hint_args: Vec::new(),
            details,
        }
    }

    /// The same envelope with `{name}` hint arguments attached.
    pub fn with_hint_args(self, args: Vec<(String, String)>) -> (e: Self)
        ensures
            e.kind == self.kind,
            e.exit_code == self.exit_code,
            e.msg == self.msg,
            e.hint == self.hint,
            e.hint_args == args,
            e.details@ == self.details@,
    {
        ErrorEnvelope { hint_args: args, ..self }
    }
}

} // verus!
