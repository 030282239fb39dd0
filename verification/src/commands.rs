//! What the `gen` and `setup` commands report and decide around their
//! pipelines: the success lines, the exit codes, and whether an existing
//! setup file may be replaced.

use vstd::prelude::*;

use crate::error::{Detail, ErrorEnvelope, Kind, detail_is_text};
use crate::gen_report::GenReport;
use crate::i18n::{CatalogMessage, arg_views};
use crate::strmap::StrMap;
use crate::text::{concat2, decimal, decimal_text, owned, is_ws, is_ws_char, contains_seq, contains_str, to_chars, string_of_range};

verus! {

/// The file the user setup writes, kept out of version control.
pub const SETUP_USER_FILE: &'static str = "setup.user.toml";

/// How a `gen` run reports success.
#[derive(Debug, Clone, Copy, PartialEq, Eq, Structural)]
pub enum GenOutput {
    /// Preview: only the rendered content goes to stdout.
    Preview,
    /// Dry run: the skips by condition, the listing and the dry-run line.
    DryRun,
    /// Normal run: the skips by condition and the written line.
    Written,
}

/// Preview wins over dry run; otherwise a normal run.
pub fn gen_output(to_stdout: bool, dry_run: bool) -> (o: GenOutput)
    ensures
        to_stdout ==> o == GenOutput::Preview,
        !to_stdout && dry_run ==> o == GenOutput::DryRun,
        !to_stdout && !dry_run ==> o == GenOutput::Written,
{
    if to_stdout {
        GenOutput::Preview
    } else if dry_run {
        GenOutput::DryRun
    } else {
        GenOutput::Written
    }
}

/// The success line of a `gen` run: the number of files a dry run would
/// write and of conflicts, else the number written.
pub fn gen_success_message(report: &GenReport, dry_run: bool) -> (m: CatalogMessage)
    ensures
        dry_run ==> m@ == (
            "gen.success.dry_run"@,
            seq![
                ("count"@, decimal(report.skipped@.len())),
                ("conflicts"@, decimal(report.conflicts@.len())),
            ],
        ),
        !dry_run ==> m@ == (
            "gen.success.written"@,
            seq![("count"@, decimal(report.written@.len()))],
        ),
{
    if dry_run {
        let args = vec![
            (owned("count"), decimal_text(report.skipped.len() as u64)),
            (owned("conflicts"), decimal_text(report.conflicts.len() as u64)),
        ];
        let m = CatalogMessage { key: owned("gen.success.dry_run"), args };
        assert(arg_views(m.args@) =~= seq![
            ("count"@, decimal(report.skipped@.len())),
            ("conflicts"@, decimal(report.conflicts@.len())),
        ]);
        m
    } else {
        let args = vec![(owned("count"), decimal_text(report.written.len() as u64))];
        let m = CatalogMessage { key: owned("gen.success.written"), args };
        assert(arg_views(m.args@) =~= seq![("count"@, decimal(report.written@.len()))]);
        m
    }
}

/// The exit code of a command: 0 on success, else the failure's code.
pub fn exit_code_of<T>(r: &Result<T, ErrorEnvelope>) -> (c: i32)
    ensures
        match r {
            Ok(_) => c == 0,
            Err(e) => c == e.exit_code,
        },
{
    match r {
        Ok(_) => 0,
        Err(e) => e.exit_code,
    }
}

/// What `setup` does about an existing target file.
#[derive(Debug, Clone, Copy, PartialEq, Eq, Structural)]
pub enum OverwriteStep {
    /// Write the file.
    Proceed,
    /// Ask first; write only on a yes.
    Ask,
    /// Refuse: the file exists and nobody can confirm.
    Block,
}

/// A missing file or `--force` proceeds; an existing file is confirmed by a
/// person when one can answer, else refused.
pub fn overwrite_step(present: bool, force: bool, can_prompt: bool) -> (s: OverwriteStep)
    ensures
        !present || force ==> s == OverwriteStep::Proceed,
        present && !force && can_prompt ==> s == OverwriteStep::Ask,
        present && !force && !can_prompt ==> s == OverwriteStep::Block,
{
    if !present || force {
        OverwriteStep::Proceed
    } else if can_prompt {
        OverwriteStep::Ask
    } else {
        OverwriteStep::Block
    }
}

/// Whether the answer to the overwrite question allows writing: only an
/// explicit yes does (a failed prompt counts as no).
pub fn confirm_allows(answer: Option<bool>) -> (b: bool)
    ensures
        b == (answer == Some(true)),
{
    match answer {
        Some(true) => true,
        _ => false,
    }
}

/// The refusal to replace an existing setup file without a person to
/// confirm it.
pub fn setup_exists_error(target: &str) -> (e: ErrorEnvelope)
    ensures
        e.is_kind(Kind::UserError),
        e.msg@ == "file exists: "@ + target@,
        e.hint@ == "error.setup.exists_non_interactive"@,
        e.has_reason("setup_exists_non_interactive"@),
        e.details@.dom() == set!["path"@, "reason"@],
        detail_is_text(e.details@["path"@], target@),
{
    proof {
        reveal_strlit("path");
        reveal_strlit("reason");
        assert("path"@[0] != "reason"@[0]);
    }
    let mut details: StrMap<Detail> = StrMap::new();
    details.insert(owned("path"), Detail::Text(owned(target)));
    let e = ErrorEnvelope::user_error_with_reason(
        concat2("file exists: ", target),
        "setup_exists_non_interactive",
        details,
        owned("error.setup.exists_non_interactive"),
    );
    assert(e.details@.dom() =~= set!["path"@, "reason"@]);
    e
}

/// The question asked before replacing `target`.
pub fn overwrite_question(target: &str) -> (m: CatalogMessage)
    ensures
        m@ == ("setup.overwrite_confirm"@, seq![("path"@, target@)]),
{
    let m = CatalogMessage { key: owned("setup.overwrite_confirm"), args: vec![(owned("path"), owned(target))] };
    assert(arg_views(m.args@) =~= seq![("path"@, target@)]);
    m
}

/// The report after writing a setup file; after the user file, a note
/// follows when the project has no `setup.toml` yet.
pub fn setup_created_messages(target: &str, user_file: bool, project_exists: bool) -> (r: Vec<
    CatalogMessage,
>)
    ensures
        r@.len() == (if user_file && !project_exists { 2int } else { 1int }),
        r@[0]@ == ("setup.created"@, seq![("path"@, target@)]),
        user_file && !project_exists ==> r@[1]@ == (
            "setup.created_no_project_hint"@,
            Seq::<(Seq<char>, Seq<char>)>::empty(),
        ),
{
    let first = CatalogMessage { key: owned("setup.created"), args: vec![(owned("path"), owned(target))] };
    assert(arg_views(first.args@) =~= seq![("path"@, target@)]);
    let mut r = vec![first];
    if user_file && !project_exists {
        let note = CatalogMessage { key: owned("setup.created_no_project_hint"), args: Vec::new() };
        assert(arg_views(note.args@) =~= Seq::<(Seq<char>, Seq<char>)>::empty());
        r.push(note);
    }
    r
}

/// The failure when the working directory cannot be resolved.
pub fn resolve_root_error(error: &str) -> (e: ErrorEnvelope)
    ensures
        e.is_kind(Kind::ConfigError),
        e.msg@ == "resolve project root: "@ + error@,
        e.hint@.len() == 0,
        e.details@.dom().len() == 0,
{
    let e = ErrorEnvelope {
        kind: Kind::ConfigError,
        msg: concat2("resolve project root: ", error),
        exit_code: Kind::ConfigError.exit_code(),
        hint: String::new(),
        hint_args: Vec::new(),
        details: StrMap::new(),
    };
    assert(e.details@.dom() =~= Set::<Seq<char>>::empty());
    e
}

// ---------------------------------------------------------------------------
// Command-line parse failures
// ---------------------------------------------------------------------------

/// Where the word starting at `i` ends: the next whitespace or the end.
pub open spec fn word_end(s: Seq<char>, i: int) -> int
    decreases s.len() - i,
{
    if i < 0 || i >= s.len() || is_ws(s[i]) {
        i
    } else {
        word_end(s, i + 1)
    }
}

pub proof fn lemma_word_end(s: Seq<char>, i: int)
    requires
        0 <= i <= s.len(),
    ensures
        i <= word_end(s, i) <= s.len(),
        forall|k: int| i <= k < word_end(s, i) ==> !is_ws(#[trigger] s[k]),
        word_end(s, i) < s.len() ==> is_ws(s[word_end(s, i)]),
    decreases s.len() - i,
{
    if i < s.len() && !is_ws(s[i]) {
        lemma_word_end(s, i + 1);
    }
}

/// The whitespace-separated words of `s` from position `i` on
/// (`str::split_whitespace`).
pub open spec fn words_from(s: Seq<char>, i: int) -> Seq<Seq<char>>
    decreases s.len() - i,
{
    if i < 0 || i >= s.len() {
        Seq::<Seq<char>>::empty()
    } else if is_ws(s[i]) {
        words_from(s, i + 1)
    } else {
        proof {
            lemma_word_end(s, i + 1);
        }
        seq![s.subrange(i, word_end(s, i + 1))] + words_from(s, word_end(s, i + 1))
    }
}

/// The flags a parse failure may name, in the order they are looked for.
pub open spec fn reported_flags() -> Seq<Seq<char>> {
    seq![
        "backend"@, "frontend"@, "template"@, "lang"@, "aux"@, "overwrite-policy"@,
        "enabled-types"@, "user-name"@, "user-email"@, "type-map-fallback"@, "fields"@, "file"@,
        "package"@, "table"@, "type"@,
    ]
}

/// The first word that is neither an option (`-...`) nor the flag itself.
pub open spec fn value_word(ws: Seq<Seq<char>>, flag: Seq<char>) -> Option<Seq<char>>
    decreases ws.len(),
{
    if ws.len() == 0 {
        None
    } else if !(ws[0].len() > 0 && ws[0][0] == '-') && ws[0] != flag {
        Some(ws[0])
    } else {
        value_word(ws.drop_first(), flag)
    }
}

/// The first of the flags the message mentions, from index `k` on.
pub open spec fn first_flag_from(msg: Seq<char>, k: int) -> Option<int>
    decreases reported_flags().len() - k,
{
    if k < 0 || k >= reported_flags().len() {
        None
    } else if contains_seq(msg, reported_flags()[k]) {
        Some(k)
    } else {
        first_flag_from(msg, k + 1)
    }
}

fn reported_flags_exec() -> (v: Vec<&'static str>)
    ensures
        v@.map_values(|f: &'static str| f@) == reported_flags(),
{
    let v = vec![
        "backend", "frontend", "template", "lang", "aux", "overwrite-policy", "enabled-types",
        "user-name", "user-email", "type-map-fallback", "fields", "file", "package", "table", "type",
    ];
    assert(v@.map_values(|f: &'static str| f@) =~= reported_flags());
    v
}

fn words_exec(v: &Vec<char>) -> (r: Vec<Vec<char>>)
    ensures
        r@.map_values(|w: Vec<char>| w@) == words_from(v@, 0),
{
    let mut out: Vec<Vec<char>> = Vec::new();
    let mut i: usize = 0;
    let n = v.len();
    while i < n
        invariant
            n == v@.len(),
            i <= n,
            out@.map_values(|w: Vec<char>| w@) + words_from(v@, i as int) == words_from(v@, 0),
        decreases n - i,
    {
        if is_ws_char(v[i]) {
            i = i + 1;
        } else {
            let mut j = i + 1;
            while j < n && !is_ws_char(v[j])
                invariant
                    n == v@.len(),
                    i < j <= n,
                    word_end(v@, i + 1) == word_end(v@, j as int),
                decreases n - j,
            {
                j = j + 1;
            }
            let mut w: Vec<char> = Vec::new();
            let mut k = i;
            while k < j
                invariant
                    i <= k <= j,
                    j <= v@.len(),
                    w@ == v@.subrange(i as int, k as int),
                decreases j - k,
            {
                w.push(v[k]);
                k = k + 1;
                assert(w@ =~= v@.subrange(i as int, k as int));
            }
            let ghost before = out@;
            out.push(w);
            proof {
                assert(word_end(v@, j as int) == j);
                assert(out@.map_values(|x: Vec<char>| x@) =~= before.map_values(|x: Vec<char>| x@).push(
                    v@.subrange(i as int, j as int),
                ));
                assert(words_from(v@, i as int) == seq![v@.subrange(i as int, j as int)] + words_from(
                    v@,
                    j as int,
                ));
                assert(before.map_values(|x: Vec<char>| x@).push(v@.subrange(i as int, j as int))
                    + words_from(v@, j as int) =~= before.map_values(|x: Vec<char>| x@)
                    + words_from(v@, i as int));
            }
            i = j;
        }
    }
    assert(out@.map_values(|w: Vec<char>| w@) + words_from(v@, i as int) =~= out@.map_values(
        |w: Vec<char>| w@,
    ));
    out
}

/// The flag a command-line parse failure names, and the first word of its
/// message that could be the offending value.
pub fn clap_flag_value(msg: &str) -> (r: (Option<&'static str>, Option<String>))
    ensures
        match first_flag_from(msg@, 0) {
            Some(k) => (r.0 matches Some(f) && f@ == reported_flags()[k]) && match value_word(
                words_from(msg@, 0),
                reported_flags()[k],
            ) {
                Some(w) => r.1 matches Some(x) && x@ == w,
                None => r.1 is None,
            },
            None => r.0 is None && r.1 is None,
        },
{
    let v = to_chars(msg);
    let flags = reported_flags_exec();
    let mut k: usize = 0;
    while k < flags.len()
        invariant
            v@ == msg@,
            flags@.map_values(|f: &'static str| f@) == reported_flags(),
            k <= flags@.len(),
            first_flag_from(msg@, 0) == first_flag_from(msg@, k as int),
        decreases flags@.len() - k,
    {
        let flag = flags[k];
        assert(flag@ == reported_flags()[k as int]);
        if contains_str(&v, flag) {
            assert(first_flag_from(msg@, k as int) == Some(k as int));
            let ws = words_exec(&v);
            let ghost wv = ws@.map_values(|w: Vec<char>| w@);
            let mut i: usize = 0;
            assert(wv.skip(0) =~= wv);
            while i < ws.len()
                invariant
                    wv == ws@.map_values(|w: Vec<char>| w@),
                    wv == words_from(msg@, 0),
                    flag@ == reported_flags()[k as int],
                    k < reported_flags().len(),
                    first_flag_from(msg@, 0) == Some(k as int),
                    i <= ws@.len(),
                    value_word(wv, flag@) == value_word(wv.skip(i as int), flag@),
                decreases ws@.len() - i,
            {
                let w = &ws[i];
                assert(wv.skip(i as int)[0] == w@);
                assert(wv.skip(i as int).drop_first() =~= wv.skip(i + 1));
                let dash = w.len() > 0 && w[0] == '-';
                if !dash && !chars_equal(w, flag) {
                    return (Some(flag), Some(string_of_range(w, 0, w.len())));
                }
                i = i + 1;
            }
            return (Some(flag), None);
        }
        k = k + 1;
    }
    (None, None)
}

fn chars_equal(w: &Vec<char>, s: &str) -> (b: bool)
    ensures
        b == (w@ == s@),
{
    let r = crate::text::range_eq(w, 0, w.len(), s);
    assert(w@.subrange(0, w@.len() as int) =~= w@);
    r
}

/// The failure of a command line that does not parse (`msg`: the parser's
/// message), naming the flag and value it mentions.
pub fn clap_to_user_error(msg: &str) -> (e: ErrorEnvelope)
    ensures
        e.is_kind(Kind::UserError),
        e.msg@ == msg@,
        e.hint@ == "error.cli.clap_retry"@,
        ({
            let (f, v) = clap_flag_value_spec(msg@);
            &&& (f matches Some(x) ==> e.details@.contains_key("flag"@) && detail_is_text(
                e.details@["flag"@],
                x,
            ))
            &&& (v matches Some(x) ==> e.details@.contains_key("value"@) && detail_is_text(
                e.details@["value"@],
                x,
            ))
        }),
{
    let (flag, value) = clap_flag_value(msg);
    let vref = match &value {
        Some(v) => Some(v.as_str()),
        None => None,
    };
    ErrorEnvelope::user_error(owned(msg), flag, vref, owned("error.cli.clap_retry"))
}

/// The flag and value [`clap_flag_value`] finds in a message.
pub open spec fn clap_flag_value_spec(msg: Seq<char>) -> (Option<Seq<char>>, Option<Seq<char>>) {
    match first_flag_from(msg, 0) {
        Some(k) => (Some(reported_flags()[k]), value_word(words_from(msg, 0), reported_flags()[k])),
        None => (None, None),
    }
}

} // verus!
