//! Template front-matter: the `---` YAML block at the top of an `.hbs` file
//! that sets the output location, overwrite policy and render conditions.

use vstd::prelude::*;

use crate::config::OverwritePolicy;
use crate::error::{ErrorEnvelope, Kind};
use crate::strmap::{StrMap, text_view};
use crate::text::{
    to_chars, trim, trim_range, owned, concat2, range_eq, range_starts_with, contains_seq,
    contains_str, strip_prefix, trim_start, string_of_range,
};

verus! {

/// Parsed front-matter keys.
pub struct TemplateMeta {
    pub base_path: Option<String>,
    pub filename: Option<String>,
    pub overwrite: Option<OverwritePolicy>,
    /// Render only when this Handlebars condition is truthy.
    pub generate_when: Option<String>,
    /// Skip rendering when this Handlebars condition is truthy.
    pub skip_when: Option<String>,
}

impl TemplateMeta {
    /// No front-matter: every key absent.
    pub fn empty() -> (m: TemplateMeta)
        ensures
            m.base_path is None,
            m.filename is None,
            m.overwrite is None,
            m.generate_when is None,
            m.skip_when is None,
    {
        TemplateMeta {
            base_path: None,
            filename: None,
            overwrite: None,
            generate_when: None,
            skip_when: None,
        }
    }
}

/// The front-matter data a YAML parse of the template yields.
pub enum MatterData {
    /// No front-matter, or an empty one.
    Absent,
    /// A YAML value that is not a mapping.
    NotMapping,
    /// A mapping; the string-valued keys and their values.
    Mapping(StrMap<String>),
}

/// A front-matter parse: the data and the body after the block.
pub struct MatterParse {
    pub data: MatterData,
    pub content: String,
}

/// The first of `keys` that `m` holds a string under.
pub open spec fn first_string(m: Map<Seq<char>, Seq<char>>, keys: Seq<Seq<char>>) -> Option<Seq<char>>
    decreases keys.len(),
{
    if keys.len() == 0 {
        None
    } else if m.contains_key(keys[0]) {
        Some(m[keys[0]])
    } else {
        first_string(m, keys.drop_first())
    }
}

/// The policy a front-matter `overwrite` value names.
pub open spec fn overwrite_policy_named(raw: Seq<char>) -> Option<OverwritePolicy> {
    let t = trim(raw);
    if t == "never"@ {
        Some(OverwritePolicy::Never)
    } else if t == "force-only"@ {
        Some(OverwritePolicy::ForceOnly)
    } else if t == "always"@ {
        Some(OverwritePolicy::Always)
    } else {
        None
    }
}

/// `e` is a template error with message `msg` and nothing else.
pub open spec fn is_template_error(e: ErrorEnvelope, msg: Seq<char>) -> bool {
    &&& e.is_kind(Kind::TemplateError)
    &&& e.msg@ == msg
    &&& e.hint@.len() == 0
    &&& e.details@.dom().len() == 0
}

/// Parses a front-matter `overwrite` value (`never`, `force-only`,
/// `always`, surrounding whitespace ignored).
pub fn parse_overwrite_policy(raw: &str) -> (r: Result<OverwritePolicy, ErrorEnvelope>)
    ensures
        match overwrite_policy_named(raw@) {
            Some(p) => r matches Ok(q) && q == p,
            None => r matches Err(e) && is_template_error(
                e,
                "unknown overwrite policy in front-matter: "@ + trim(raw@),
            ),
        },
{
    let v = to_chars(raw);
    let (lo, hi) = trim_range(&v, 0, v.len());
    assert(v@.subrange(0, v@.len() as int) =~= raw@);
    if range_eq(&v, lo, hi, "never") {
        Ok(OverwritePolicy::Never)
    } else if range_eq(&v, lo, hi, "force-only") {
        Ok(OverwritePolicy::ForceOnly)
    } else if range_eq(&v, lo, hi, "always") {
        Ok(OverwritePolicy::Always)
    } else {
        let t = string_of_range(&v, lo, hi);
        let e = ErrorEnvelope::template_error(concat2("unknown overwrite policy in front-matter: ", t.as_str()));
        assert(e.details@.dom() =~= Set::<Seq<char>>::empty());
        Err(e)
    }
}

/// What follows the opening `---` (after leading whitespace), or the whole
/// text when it does not open with one.
pub open spec fn after_opener(src: Seq<char>) -> Seq<char> {
    match strip_prefix(trim_start(src), "---"@) {
        Some(r) => r,
        None => src,
    }
}

/// The block opens but never closes: a line break and no `\n---`.
pub open spec fn has_unclosed_front_matter(src: Seq<char>) -> bool {
    after_opener(src).contains('\n') && !contains_seq(after_opener(src), "\n---"@)
}

/// The block is closed by a `\n---`.
pub open spec fn has_closed_front_matter(src: Seq<char>) -> bool {
    contains_seq(after_opener(src), "\n---"@)
}

/// The meta keys of a front-matter mapping: `basePath`/`base_path`,
/// `filename`, `overwrite`, `generateWhen`/`generate_when`,
/// `skipWhen`/`skip_when` (string values only).
pub open spec fn meta_base_path(m: Map<Seq<char>, Seq<char>>) -> Option<Seq<char>> {
    first_string(m, seq!["basePath"@, "base_path"@])
}

pub open spec fn meta_generate_when(m: Map<Seq<char>, Seq<char>>) -> Option<Seq<char>> {
    first_string(m, seq!["generateWhen"@, "generate_when"@])
}

pub open spec fn meta_skip_when(m: Map<Seq<char>, Seq<char>>) -> Option<Seq<char>> {
    first_string(m, seq!["skipWhen"@, "skip_when"@])
}

pub open spec fn meta_filename(m: Map<Seq<char>, Seq<char>>) -> Option<Seq<char>> {
    first_string(m, seq!["filename"@])
}

pub open spec fn meta_overwrite_raw(m: Map<Seq<char>, Seq<char>>) -> Option<Seq<char>> {
    first_string(m, seq!["overwrite"@])
}

pub open spec fn opt_text(o: Option<String>) -> Option<Seq<char>> {
    match o {
        Some(s) => Some(s@),
        None => None,
    }
}

fn first_string_exec(m: &StrMap<String>, a: &str, b: &str) -> (r: Option<String>)
    ensures
        opt_text(r) == first_string(text_view(m@), seq![a@, b@]),
{
    let ghost ks = seq![a@, b@];
    assert(ks[0] == a@);
    assert(ks.drop_first() =~= seq![b@]);
    assert(seq![b@][0] == b@);
    assert(seq![b@].drop_first() =~= Seq::<Seq<char>>::empty());
    match m.get(a) {
        Some(s) => {
            let c = s.clone();
            assert(first_string(text_view(m@), ks) == Some(m@[a@]@));
            Some(c)
        },
        None => match m.get(b) {
            Some(s) => {
                let c = s.clone();
                assert(first_string(text_view(m@), seq![b@]) == Some(m@[b@]@));
                Some(c)
            },
            None => {
                assert(first_string(text_view(m@), seq![b@]) == first_string(text_view(m@), Seq::<Seq<char>>::empty()));
                None
            },
        },
    }
}

fn single_string_exec(m: &StrMap<String>, a: &str) -> (r: Option<String>)
    ensures
        opt_text(r) == first_string(text_view(m@), seq![a@]),
{
    assert(seq![a@][0] == a@);
    assert(seq![a@].drop_first() =~= Seq::<Seq<char>>::empty());
    match m.get(a) {
        Some(s) => {
            let c = s.clone();
            assert(first_string(text_view(m@), seq![a@]) == Some(m@[a@]@));
            Some(c)
        },
        None => {
            assert(first_string(text_view(m@), seq![a@]) == first_string(text_view(m@), Seq::<Seq<char>>::empty()));
            None
        },
    }
}

/// The front-matter data as plain values.
pub enum MatterDataView {
    Absent,
    NotMapping,
    Mapping(Map<Seq<char>, Seq<char>>),
}

/// The plain values of front-matter data.
pub open spec fn data_view(d: MatterData) -> MatterDataView {
    match d {
        MatterData::Absent => MatterDataView::Absent,
        MatterData::NotMapping => MatterDataView::NotMapping,
        MatterData::Mapping(m) => MatterDataView::Mapping(text_view(m@)),
    }
}

/// What splitting `src` gives, from the YAML parse's data and body: without
/// an opener the meta is empty and the body is the source; otherwise the
/// meta keys of the mapping, or the error the data calls for.
pub open spec fn split_outcome(
    src: Seq<char>,
    data: MatterDataView,
    content: Seq<char>,
    r: Result<(TemplateMeta, String), ErrorEnvelope>,
) -> bool {
    &&& (!"---"@.is_prefix_of(src) ==> (r matches Ok((m, body)) && body@ == src && m.base_path is None
            && m.filename is None && m.overwrite is None && m.generate_when is None
            && m.skip_when is None))
    &&& ("---"@.is_prefix_of(src) ==> match data {
            MatterDataView::Absent => if has_unclosed_front_matter(src) {
                r matches Err(e) && is_template_error(e, "malformed template front-matter YAML"@)
            } else if has_closed_front_matter(src) {
                r matches Err(e) && is_template_error(
                    e,
                    "invalid YAML in template front-matter (quote values containing {{)"@,
                )
            } else {
                r matches Ok((m, body)) && body@ == content && m.base_path is None
                    && m.filename is None && m.overwrite is None && m.generate_when is None
                    && m.skip_when is None
            },
            MatterDataView::NotMapping => r matches Err(e) && is_template_error(
                e,
                "front-matter must be a YAML mapping"@,
            ),
            MatterDataView::Mapping(map) => match meta_overwrite_raw(map) {
                Some(raw) if overwrite_policy_named(raw) is None => r matches Err(e)
                    && is_template_error(
                    e,
                    "unknown overwrite policy in front-matter: "@ + trim(raw),
                ),
                _ => if meta_generate_when(map) is Some && meta_skip_when(map) is Some {
                    r matches Err(e) && is_template_error(
                        e,
                        "front-matter sets both generateWhen and skipWhen; use only one"@,
                    )
                } else {
                    r matches Ok((m, body)) && body@ == content && opt_text(m.base_path)
                        == meta_base_path(map) && opt_text(m.filename) == meta_filename(map)
                        && m.overwrite == (match meta_overwrite_raw(map) {
                        Some(raw) => overwrite_policy_named(raw),
                        None => None,
                    }) && opt_text(m.generate_when) == meta_generate_when(map) && opt_text(
                        m.skip_when,
                    ) == meta_skip_when(map)
                },
            },
        })
}

/// Splits the front-matter from a template, given the YAML parse of the
/// whole source (`matter`, consulted only when the source opens with
/// `---`). Without an opener the meta is empty and the body is the source.
pub fn split_parsed_front_matter(src: &str, matter: MatterParse) -> (r: Result<
    (TemplateMeta, String),
    ErrorEnvelope,
>)
    ensures
        split_outcome(src@, data_view(matter.data), matter.content@, r),
{
    let v = to_chars(src);
    proof {
        reveal_strlit("---");
    }
    if !range_starts_with(&v, 0, v.len(), "---") {
        assert(!"---"@.is_prefix_of(src@)) by {
            if "---"@.is_prefix_of(src@) {
                assert(v@.subrange(0, 3) =~= "---"@);
            }
        }
        return Ok((TemplateMeta::empty(), owned(src)));
    }
    assert("---"@.is_prefix_of(src@));
    let MatterParse { data, content } = matter;
    match data {
        MatterData::Absent => {
            let rest_lo = after_opener_start(&v);
            let unclosed_nl = crate::text::find_first_in(&v, rest_lo, v.len(), '\n').is_some();
            let rest = sub_chars(&v, rest_lo, v.len());
            let closed = contains_str(&rest, "\n---");
            proof {
                assert(rest@ == after_opener(src@));
                if unclosed_nl {
                    let k = choose|k: int| rest_lo <= k < v@.len() && v@[k] == '\n';
                    assert(rest@[k - rest_lo] == '\n');
                }
                if !unclosed_nl {
                    assert forall|k: int| 0 <= k < rest@.len() implies rest@[k] != '\n' by {
                        crate::text::lemma_find_first(v@.subrange(rest_lo as int, v@.len() as int), '\n');
                        assert(rest@[k] == v@.subrange(rest_lo as int, v@.len() as int)[k]);
                    }
                }
            }
            if unclosed_nl && !closed {
                let e = ErrorEnvelope::template_error(owned("malformed template front-matter YAML"));
                assert(e.details@.dom() =~= Set::<Seq<char>>::empty());
                return Err(e);
            }
            if closed {
                let e = ErrorEnvelope::template_error(
                    owned("invalid YAML in template front-matter (quote values containing {{)"),
                );
                assert(e.details@.dom() =~= Set::<Seq<char>>::empty());
                return Err(e);
            }
            Ok((TemplateMeta::empty(), content))
        },
        MatterData::NotMapping => {
            let e = ErrorEnvelope::template_error(owned("front-matter must be a YAML mapping"));
            assert(e.details@.dom() =~= Set::<Seq<char>>::empty());
            Err(e)
        },
        MatterData::Mapping(map) => {
            let base_path = first_string_exec(&map, "basePath", "base_path");
            let filename = single_string_exec(&map, "filename");
            let overwrite = match single_string_exec(&map, "overwrite") {
                Some(raw) => match parse_overwrite_policy(raw.as_str()) {
                    Ok(p) => Some(p),
                    Err(e) => {
                        return Err(e);
                    },
                },
                None => None,
            };
            let generate_when = first_string_exec(&map, "generateWhen", "generate_when");
            let skip_when = first_string_exec(&map, "skipWhen", "skip_when");
            if generate_when.is_some() && skip_when.is_some() {
                let e = ErrorEnvelope::template_error(
                    owned("front-matter sets both generateWhen and skipWhen; use only one"),
                );
                assert(e.details@.dom() =~= Set::<Seq<char>>::empty());
                return Err(e);
            }
            Ok((TemplateMeta { base_path, filename, overwrite, generate_when, skip_when }, content))
        },
    }
}

/// `v[lo..hi]` as a new vector.
pub fn sub_chars(v: &Vec<char>, lo: usize, hi: usize) -> (r: Vec<char>)
    requires
        lo <= hi <= v@.len(),
    ensures
        r@ == v@.subrange(lo as int, hi as int),
{
    let mut r: Vec<char> = Vec::new();
    let mut i: usize = lo;
    while i < hi
        invariant
            lo <= i <= hi,
            hi <= v@.len(),
            r@ == v@.subrange(lo as int, i as int),
        decreases hi - i,
    {
        r.push(v[i]);
        i = i + 1;
        assert(r@ =~= v@.subrange(lo as int, i as int));
    }
    r
}

/// Where `after_opener` starts in `v`.
fn after_opener_start(v: &Vec<char>) -> (k: usize)
    ensures
        k <= v@.len(),
        v@.subrange(k as int, v@.len() as int) == after_opener(v@),
{
    let mut i: usize = 0;
    while i < v.len() && crate::text::is_ws_char(v[i])
        invariant
            i <= v@.len(),
            forall|j: int| 0 <= j < i ==> crate::text::is_ws(#[trigger] v@[j]),
        decreases v@.len() - i,
    {
        i = i + 1;
    }
    proof {
        crate::text::lemma_trim_start_skip(v@, i as int);
        assert(v@.skip(i as int) =~= v@.subrange(i as int, v@.len() as int));
        let t = v@.subrange(i as int, v@.len() as int);
        if t.len() > 0 {
            assert(!crate::text::is_ws(t[0]));
        }
        assert(trim_start(t) == t);
    }
    match crate::text::strip_prefix_range(v, i, v.len(), "---") {
        Some(k) => k,
        None => {
            assert(v@.subrange(0, v@.len() as int) =~= v@);
            0
        },
    }
}

// ---------------------------------------------------------------------------
// The YAML parse
// ---------------------------------------------------------------------------

/// The shape of a YAML front-matter parse: no data, data that is not a
/// mapping, or a mapping's entries (a string value's text, else `None`).
pub enum MatterShape {
    Absent,
    NotMapping,
    Mapping(Vec<(String, Option<String>)>),
}

/// The shape as plain values: the mapping as a map from key to text.
pub enum MatterShapeView {
    Absent,
    NotMapping,
    Mapping(Map<Seq<char>, Option<Seq<char>>>),
}

/// Mapping entries as a map, each inserted in turn.
pub open spec fn entries_map(es: Seq<(String, Option<String>)>) -> Map<Seq<char>, Option<Seq<char>>>
    decreases es.len(),
{
    if es.len() == 0 {
        Map::empty()
    } else {
        entries_map(es.drop_last()).insert(es.last().0@, opt_text(es.last().1))
    }
}

/// The plain values of a shape.
pub open spec fn shape_view(s: MatterShape) -> MatterShapeView {
    match s {
        MatterShape::Absent => MatterShapeView::Absent,
        MatterShape::NotMapping => MatterShapeView::NotMapping,
        MatterShape::Mapping(es) => MatterShapeView::Mapping(entries_map(es@)),
    }
}

/// What `gray_matter::Matter::<YAML>::parse::<Pod>` gives for a text: the
/// data's shape and the body after the block (`None` when it fails). The
/// mapping is stated as a map: its keys are unique, so the order
/// `gray_matter`'s `HashMap` hands them out in does not matter.
pub uninterp spec fn yaml_front_matter(src: Seq<char>) -> Option<(MatterShapeView, Seq<char>)>;

/// `gray_matter::Matter::<YAML>::new().parse::<Pod>(src)`: the front-matter
/// data (null or missing, a mapping whose string values are kept and other
/// values marked `None`, or anything else) and the body. Only that this is
/// the parse of `src` is stated.
#[verifier::external_body]
fn parse_front_matter(src: &str) -> (r: Option<(MatterShape, String)>)
    ensures
        match r {
            Some((s, c)) => yaml_front_matter(src@) == Some((shape_view(s), c@)),
            None => yaml_front_matter(src@) is None,
        },
{
    let parsed = gray_matter::Matter::<gray_matter::engine::YAML>::new().parse::<gray_matter::Pod>(src).ok()?;
    let shape = match parsed.data {
        None | Some(gray_matter::Pod::Null) => MatterShape::Absent,
        Some(gray_matter::Pod::Hash(map)) => MatterShape::Mapping(
            map.into_iter().map(|(k, v)| (k, v.as_string().ok())).collect(),
        ),
        Some(_) => MatterShape::NotMapping,
    };
    Some((shape, parsed.content))
}

/// The text values of a mapping.
pub open spec fn text_values(m: Map<Seq<char>, Option<Seq<char>>>) -> Map<Seq<char>, Seq<char>> {
    Map::new(|k: Seq<char>| m.contains_key(k) && m[k] is Some, |k: Seq<char>| m[k]->Some_0)
}

/// The front-matter data of a source's parse (a failed parse has none).
pub open spec fn yaml_data(src: Seq<char>) -> MatterDataView {
    match yaml_front_matter(src) {
        Some((MatterShapeView::Mapping(m), _)) => MatterDataView::Mapping(text_values(m)),
        Some((MatterShapeView::NotMapping, _)) => MatterDataView::NotMapping,
        _ => MatterDataView::Absent,
    }
}

/// The body of a source's parse (the whole source when it fails).
pub open spec fn yaml_body(src: Seq<char>) -> Seq<char> {
    match yaml_front_matter(src) {
        Some((_, c)) => c,
        None => src,
    }
}

fn text_map_of(es: Vec<(String, Option<String>)>) -> (m: StrMap<String>)
    ensures
        text_view(m@) == text_values(entries_map(es@)),
{
    broadcast use crate::strmap::lemma_text_view_insert;

    let ghost all = es@;
    let mut m: StrMap<String> = StrMap::new();
    let mut i: usize = 0;
    assert(text_view(m@) =~= text_values(entries_map(all.take(0))));
    while i < es.len()
        invariant
            all == es@,
            i <= all.len(),
            text_view(m@) == text_values(entries_map(all.take(i as int))),
        decreases all.len() - i,
    {
        let ghost before = entries_map(all.take(i as int));
        assert(all.take(i + 1).drop_last() =~= all.take(i as int));
        assert(all.take(i + 1).last() == all[i as int]);
        let k = owned(es[i].0.as_str());
        match &es[i].1 {
            Some(v) => {
                let ghost b = text_view(m@);
                m.insert(k, owned(v.as_str()));
                assert(text_view(m@) =~= b.insert(all[i as int].0@, v@));
                assert(text_view(m@) =~= text_values(before.insert(all[i as int].0@, Some(v@))));
            },
            None => {
                let ghost b = text_view(m@);
                m.remove(k.as_str());
                assert(text_view(m@) =~= b.remove(all[i as int].0@));
                assert(text_view(m@) =~= text_values(before.insert(all[i as int].0@, None)));
            },
        }
        i = i + 1;
    }
    assert(all.take(i as int) =~= all);
    m
}

/// Splits the front-matter from a template: parses it as YAML
/// (`gray_matter`), then reads the meta keys as [`split_parsed_front_matter`]
/// describes; a failed parse counts as no data, with the source as body.
pub fn split_front_matter(src: &str) -> (r: Result<(TemplateMeta, String), ErrorEnvelope>)
    ensures
        split_outcome(src@, yaml_data(src@), yaml_body(src@), r),
{
    let matter = match parse_front_matter(src) {
        None => MatterParse { data: MatterData::Absent, content: owned(src) },
        Some((MatterShape::Absent, c)) => MatterParse { data: MatterData::Absent, content: c },
        Some((MatterShape::NotMapping, c)) => MatterParse { data: MatterData::NotMapping, content: c },
        Some((MatterShape::Mapping(es), c)) => MatterParse {
            data: MatterData::Mapping(text_map_of(es)),
            content: c,
        },
    };
    split_parsed_front_matter(src, matter)
}

} // verus!
