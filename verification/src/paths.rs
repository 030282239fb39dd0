//! Path composition for the project and per-user configuration files, and
//! the `.crud/.gitignore` append rule.

use vstd::prelude::*;

use crate::error::{Detail, ErrorEnvelope, Kind, detail_is_text};
use crate::strmap::StrMap;
use crate::text::{
    to_chars, trim, trim_range, split_char, split_ranges, owned, append_str, range_eq,
    lemma_split_char_single, lemma_split_char_concat,
};

verus! {

/// `base` joined with the relative path `name` (`Path::join`): no separator
/// is added after an empty base or one that already ends in `/`.
pub open spec fn join_path(base: Seq<char>, name: Seq<char>) -> Seq<char> {
    if base.len() == 0 {
        name
    } else if base.last() == '/' {
        base + name
    } else {
        base + "/"@ + name
    }
}

/// Joins the relative path `name` onto `base`.
pub fn path_join(base: &str, name: &str) -> (r: String)
    ensures
        r@ == join_path(base@, name@),
{
    let n = base.unicode_len();
    let mut r = owned(base);
    if n > 0 {
        if base.get_char(n - 1) != '/' {
            append_str(&mut r, "/");
        }
    }
    append_str(&mut r, name);
    r
}

/// `<root>/.crud/setup.toml`: the shared project setup file.
pub fn project_setup_toml(project_root: &str) -> (r: String)
    ensures
        r@ == join_path(join_path(project_root@, ".crud"@), "setup.toml"@),
{
    let dir = path_join(project_root, ".crud");
    path_join(dir.as_str(), "setup.toml")
}

/// `<root>/.crud/setup.user.toml`: the per-developer setup file.
pub fn project_setup_user_toml(project_root: &str) -> (r: String)
    ensures
        r@ == join_path(join_path(project_root@, ".crud"@), "setup.user.toml"@),
{
    let dir = path_join(project_root, ".crud");
    path_join(dir.as_str(), "setup.user.toml")
}

/// `<root>/.crud/.gitignore`, which keeps user-only files out of git.
pub fn project_crud_gitignore(project_root: &str) -> (r: String)
    ensures
        r@ == join_path(join_path(project_root@, ".crud"@), ".gitignore"@),
{
    let dir = path_join(project_root, ".crud");
    path_join(dir.as_str(), ".gitignore")
}

/// `<root>/.crud/templates`: the project's template directory.
pub fn project_templates_dir(project_root: &str) -> (r: String)
    ensures
        r@ == join_path(join_path(project_root@, ".crud"@), "templates"@),
{
    let dir = path_join(project_root, ".crud");
    path_join(dir.as_str(), "templates")
}

/// The user's home directory (`dirs::home_dir`), as text. It depends on the
/// environment and the platform; nothing is stated of it.
#[verifier::external_body]
fn home_dir() -> (r: Option<String>) {
    dirs::home_dir().map(|p| p.to_string_lossy().into_owned())
}

/// `e` reports that no home directory could be found.
pub open spec fn is_home_not_found(e: ErrorEnvelope) -> bool {
    &&& e.is_kind(Kind::ConfigError)
    &&& e.msg@ == "home directory not found"@
    &&& e.hint@ == "error.paths.home_not_found"@
    &&& e.hint_args@.len() == 0
    &&& e.details@.dom().len() == 0
}

/// `~/.crud` from an explicit `CRUD_HOME` override (when not empty) or the
/// home directory.
pub fn crud_dir_from(crud_home: Option<&str>, home: Option<&str>) -> (r: Result<
    String,
    ErrorEnvelope,
>)
    ensures
        match crud_home {
            Some(h) if h@.len() > 0 => r matches Ok(p) && p@ == join_path(h@, ".crud"@),
            _ => match home {
                Some(h) => r matches Ok(p) && p@ == join_path(h@, ".crud"@),
                None => r matches Err(e) && is_home_not_found(e),
            },
        },
{
    match crud_home {
        Some(h) => {
            if h.unicode_len() > 0 {
                return Ok(path_join(h, ".crud"));
            }
        },
        None => {},
    }
    match home {
        Some(h) => Ok(path_join(h, ".crud")),
        None => {
            let e = ErrorEnvelope {
                kind: Kind::ConfigError,
                msg: owned("home directory not found"),
                exit_code: Kind::ConfigError.exit_code(),
                hint: owned("error.paths.home_not_found"),
                hint_args: Vec::new(),
                details: StrMap::new(),
            };
            Err(e)
        },
    }
}

/// The global CRUD directory (`~/.crud`), honoring a non-empty `CRUD_HOME`
/// override (the value of that variable, read by the caller).
pub fn global_crud_dir(crud_home: Option<&str>) -> (r: Result<String, ErrorEnvelope>)
    ensures
        crud_home matches Some(h) ==> (h@.len() > 0 ==> (r matches Ok(p) && p@ == join_path(
            h@,
            ".crud"@,
        ))),
        r matches Err(e) ==> is_home_not_found(e),
        r matches Ok(p) ==> exists|h: Seq<char>| #[trigger] join_path(h, ".crud"@) == p@,
{
    match crud_home {
        Some(h) => {
            if h.unicode_len() > 0 {
                return crud_dir_from(crud_home, None);
            }
        },
        None => {},
    }
    let home = home_dir();
    match home {
        Some(h) => crud_dir_from(crud_home, Some(h.as_str())),
        None => crud_dir_from(crud_home, None),
    }
}

/// The per-user preferences file `~/.crud/config.toml`.
pub fn global_config_toml(crud_home: Option<&str>) -> (r: Result<String, ErrorEnvelope>)
    ensures
        crud_home matches Some(h) ==> (h@.len() > 0 ==> (r matches Ok(p) && p@ == join_path(
            join_path(h@, ".crud"@),
            "config.toml"@,
        ))),
        r matches Err(e) ==> is_home_not_found(e),
{
    match global_crud_dir(crud_home) {
        Ok(d) => Ok(path_join(d.as_str(), "config.toml")),
        Err(e) => Err(e),
    }
}

// ---------------------------------------------------------------------------
// .gitignore entries
// ---------------------------------------------------------------------------

/// The lines of a text (`BufRead::lines`): split at `\n`, without an empty
/// piece after a final newline; an empty text has no lines.
pub open spec fn lines_of(c: Seq<char>) -> Seq<Seq<char>> {
    if c.len() == 0 {
        Seq::<Seq<char>>::empty()
    } else if c.last() == '\n' {
        split_char(c.drop_last(), '\n')
    } else {
        split_char(c, '\n')
    }
}

/// Some line of `c`, trimmed, is `entry`.
pub open spec fn has_entry_line(c: Seq<char>, entry: Seq<char>) -> bool {
    exists|i: int| 0 <= i < lines_of(c).len() && #[trigger] trim(lines_of(c)[i]) == entry
}

/// What appending `entry` to a `.gitignore` holding `existing` writes:
/// nothing when a line already holds it; else the entry and a newline,
/// after a newline when the file is not empty and does not end in one.
pub open spec fn gitignore_addition(existing: Option<Seq<char>>, entry: Seq<char>) -> Option<
    Seq<char>,
> {
    match existing {
        Some(c) if has_entry_line(c, entry) => None,
        Some(c) if c.len() > 0 && c.last() != '\n' => Some("\n"@ + entry + "\n"@),
        _ => Some(entry + "\n"@),
    }
}

/// The text to append to a `.gitignore` (its current content, or `None`
/// when it does not exist) so that it lists `entry`; `None` when it already
/// does.
pub fn gitignore_append(existing: Option<&str>, entry: &str) -> (r: Option<String>)
    ensures
        match gitignore_addition(
            match existing {
                Some(c) => Some(c@),
                None => None,
            },
            entry@,
        ) {
            Some(t) => r matches Some(s) && s@ == t,
            None => r is None,
        },
{
    proof {
        reveal_strlit("\n");
    }
    match existing {
        None => {
            let mut s = owned(entry);
            append_str(&mut s, "\n");
            Some(s)
        },
        Some(c) => {
            let v = to_chars(c);
            let n = v.len();
            let ends_nl = n > 0 && v[n - 1] == '\n';
            let end = if ends_nl {
                n - 1
            } else {
                n
            };
            let ghost body = v@.subrange(0, end as int);
            assert(n > 0 ==> v@.last() == v@[n - 1]);
            assert(ends_nl ==> body =~= c@.drop_last());
            assert(!ends_nl ==> body =~= c@);
            if n > 0 {
                let pieces = split_ranges(&v, 0, end, '\n');
                let mut i: usize = 0;
                while i < pieces.len()
                    invariant
                        existing == Some(c),
                        n > 0,
                        v@ == c@,
                        end <= v@.len(),
                        body == v@.subrange(0, end as int),
                        lines_of(c@) == split_char(body, '\n'),
                        pieces@.len() == lines_of(c@).len(),
                        forall|k: int|
                            0 <= k < pieces@.len() ==> 0 <= (#[trigger] pieces@[k]).0
                                <= pieces@[k].1 <= end && v@.subrange(
                                pieces@[k].0 as int,
                                pieces@[k].1 as int,
                            ) == lines_of(c@)[k],
                        i <= pieces@.len(),
                        forall|k: int| 0 <= k < i ==> trim(#[trigger] lines_of(c@)[k]) != entry@,
                    decreases pieces@.len() - i,
                {
                    let (a, b) = pieces[i];
                    assert(pieces@[i as int] == (a, b));
                    assert(v@.subrange(a as int, b as int) == lines_of(c@)[i as int]);
                    let (tlo, thi) = trim_range(&v, a, b);
                    if range_eq(&v, tlo, thi, entry) {
                        assert(trim(lines_of(c@)[i as int]) == entry@);
                        assert(has_entry_line(c@, entry@));
                        return None;
                    }
                    i = i + 1;
                }
                assert(!has_entry_line(c@, entry@));
            } else {
                assert(lines_of(c@).len() == 0);
            }
            let mut s = String::new();
            if n > 0 && !ends_nl {
                s.push('\n');
            }
            append_str(&mut s, entry);
            append_str(&mut s, "\n");
            Some(s)
        },
    }
}

/// A `.gitignore` update failure at `path`.
pub fn gitignore_error(path: &str, msg: String) -> (e: ErrorEnvelope)
    ensures
        e.is_kind(Kind::ConfigError),
        e.msg@ == msg@,
        e.hint@ == "error.paths.gitignore_write"@,
        e.hint_args@.len() == 0,
        e.details@.dom() == set!["path"@],
        detail_is_text(e.details@["path"@], path@),
{
    let mut details: StrMap<Detail> = StrMap::new();
    details.insert(owned("path"), Detail::Text(owned(path)));
    assert(details@.dom() =~= set!["path"@]);
    ErrorEnvelope {
        kind: Kind::ConfigError,
        msg,
        exit_code: Kind::ConfigError.exit_code(),
        hint: owned("error.paths.gitignore_write"),
        hint_args: Vec::new(),
        details,
    }
}


proof fn lemma_entry_is_last_line(prefix: Seq<char>, entry: Seq<char>)
    requires
        !entry.contains('\n'),
        trim(entry) == entry,
        prefix.len() == 0 || prefix.last() == '\n',
    ensures
        has_entry_line(prefix + entry + "\n"@, entry),
{
    reveal_strlit("\n");
    let content = prefix + entry + "\n"@;
    assert(content.last() == '\n');
    assert(content.drop_last() =~= prefix + entry);
    lemma_split_char_single(entry, '\n');
    if prefix.len() == 0 {
        assert(prefix + entry =~= entry);
        assert(lines_of(content)[0] == entry);
    } else {
        let p = prefix.drop_last();
        assert(prefix + entry =~= p + seq!['\n'] + entry);
        lemma_split_char_concat(p, entry, '\n');
        let ls = lines_of(content);
        assert(ls[ls.len() - 1] == entry);
    }
}

/// Appending what `gitignore_append` returns makes the entry present, so a
/// second call appends nothing (for an entry that is one trimmed line).
pub proof fn lemma_gitignore_append_idempotent(existing: Option<Seq<char>>, entry: Seq<char>)
    requires
        !entry.contains('\n'),
        trim(entry) == entry,
    ensures
        match gitignore_addition(existing, entry) {
            Some(add) => gitignore_addition(
                Some(
                    match existing {
                        Some(c) => c,
                        None => Seq::<char>::empty(),
                    } + add,
                ),
                entry,
            ) is None,
            None => true,
        },
{
    reveal_strlit("\n");
    match gitignore_addition(existing, entry) {
        Some(add) => {
            let c = match existing {
                Some(c) => c,
                None => Seq::<char>::empty(),
            };
            if c.len() > 0 && c.last() != '\n' {
                assert(c + add =~= (c + "\n"@) + entry + "\n"@);
                assert((c + "\n"@).last() == '\n');
                lemma_entry_is_last_line(c + "\n"@, entry);
            } else {
                assert(c + add =~= c + entry + "\n"@);
                lemma_entry_is_last_line(c, entry);
            }
        },
        None => {},
    }
}

} // verus!
