//! `validate`: which names a template may use, the walk that finds the first
//! unknown one (with `each` blocks widening the allowed names), and how
//! render failures and leftover `{{` become issues.

use vstd::prelude::*;

use crate::strmap::{StrMap, strictly_sorted, lex_lt, lex_order, lemma_lex_asym, lemma_lex_irrefl, lemma_lex_total, lemma_lex_trans};
use crate::suggest::{closest_candidate, distances, is_closest, none_close};
use crate::text::{
    concat2, owned, str_eq, string_views, to_chars, trim_start_char, string_of_range, trim, is_ws,
    is_ws_char, strip_prefix, strip_prefix_range, trim_range, trim_start_char_range, occurs_at,
    find_first, find_first_in, range_eq, decimal, decimal_text,
};
use crate::value::DataValue;
use crate::error::{ErrorEnvelope, Detail, detail_is_text};
use crate::field_dsl::Field;
use crate::template_engine::{TypeMapBinding, binding_view, hbs_render, render_template};
use vstd::multiset::Multiset;
use handlebars::template::{HelperTemplate, Parameter, TemplateElement};

verus! {

// ---------------------------------------------------------------------------
// Issues and report
// ---------------------------------------------------------------------------

/// Category of a validate finding.
#[derive(Debug, Clone, Copy, PartialEq, Eq, Structural)]
pub enum IssueKind {
    SyntaxError,
    UnknownVariable,
    RenderError,
    MissingHelper,
}

/// One validate finding.
#[derive(Debug)]
pub struct ValidateIssue {
    pub template_path: String,
    pub line: Option<u32>,
    pub column: Option<u32>,
    pub kind: IssueKind,
    pub variable: Option<String>,
    pub suggestion: Option<String>,
}

/// Counts of a validate run.
#[derive(Debug, Clone, Copy)]
pub struct ValidateReport {
    pub templates_checked: u32,
    pub templates_with_issues: u32,
    pub issue_count: u32,
}

// ---------------------------------------------------------------------------
// Allowed names
// ---------------------------------------------------------------------------

/// Names every template may use.
pub open spec fn builtin_names() -> Seq<Seq<char>> {
    seq![
        "model"@, "table"@, "package"@, "package_path"@, "fields"@, "model_snake"@,
        "model_pascal"@, "model_camel"@, "model_kebab"@, "git_user_name"@, "git_user_email"@,
        "user_name"@, "user_email"@, "date"@, "datetime"@, "year"@, "this"@, "@root"@,
    ]
}

/// Loop variables of every `each` block.
pub open spec fn each_globals() -> Seq<Seq<char>> {
    seq!["@index"@, "@key"@, "@first"@, "@last"@]
}

/// Names of a field inside `{{#each fields}}`.
pub open spec fn field_each_extra() -> Seq<Seq<char>> {
    seq![
        "name"@, "name_snake"@, "name_pascal"@, "name_camel"@, "name_kebab"@, "type"@, "is_pk"@,
        "nullable"@,
    ]
}

fn builtin_names_exec() -> (v: Vec<String>)
    ensures
        string_views(v@) == builtin_names(),
{
    let v = vec![
        owned("model"), owned("table"), owned("package"), owned("package_path"), owned("fields"),
        owned("model_snake"), owned("model_pascal"), owned("model_camel"), owned("model_kebab"),
        owned("git_user_name"), owned("git_user_email"), owned("user_name"), owned("user_email"),
        owned("date"), owned("datetime"), owned("year"), owned("this"), owned("@root"),
    ];
    assert(string_views(v@) =~= builtin_names());
    v
}

fn each_globals_exec() -> (v: Vec<String>)
    ensures
        string_views(v@) == each_globals(),
{
    let v = vec![owned("@index"), owned("@key"), owned("@first"), owned("@last")];
    assert(string_views(v@) =~= each_globals());
    v
}

fn field_each_extra_exec() -> (v: Vec<String>)
    ensures
        string_views(v@) == field_each_extra(),
{
    let v = vec![
        owned("name"), owned("name_snake"), owned("name_pascal"), owned("name_camel"),
        owned("name_kebab"), owned("type"), owned("is_pk"), owned("nullable"),
    ];
    assert(string_views(v@) =~= field_each_extra());
    v
}

/// What an enclosing `each` block adds to the allowed names.
#[derive(Debug, Clone, Copy, PartialEq, Eq, Structural)]
pub enum Layer {
    /// `{{#each fields}}`: the field names and the loop variables.
    Fields,
    /// Any other `{{#each}}`: the loop variables.
    Each,
}

/// The names a layer adds.
pub open spec fn layer_allows(l: Layer, n: Seq<char>) -> bool {
    match l {
        Layer::Fields => field_each_extra().contains(n) || each_globals().contains(n) || n == "this"@,
        Layer::Each => each_globals().contains(n) || n == "this"@,
    }
}

/// `n` is allowed with project variables `vars` inside the `each` layers
/// `stack`.
pub open spec fn allows(vars: Set<Seq<char>>, stack: Seq<Layer>, n: Seq<char>) -> bool {
    ||| builtin_names().contains(n)
    ||| each_globals().contains(n)
    ||| vars.contains(n)
    ||| exists|i: int| 0 <= i < stack.len() && layer_allows(#[trigger] stack[i], n)
}

/// The segment starts with `@`.
pub open spec fn is_at_name(s: Seq<char>) -> bool {
    s.len() > 0 && s[0] == '@'
}

/// A path segment is allowed as written, or with its leading `@`s dropped,
/// or (without one) with `@` added.
pub open spec fn segment_allowed(vars: Set<Seq<char>>, stack: Seq<Layer>, seg: Seq<char>) -> bool {
    ||| allows(vars, stack, seg)
    ||| is_at_name(seg) && allows(vars, stack, trim_start_char(seg, '@'))
    ||| !is_at_name(seg) && allows(vars, stack, "@"@ + seg)
}

fn in_list(v: &Vec<String>, n: &str) -> (b: bool)
    ensures
        b == string_views(v@).contains(n@),
{
    let mut i: usize = 0;
    while i < v.len()
        invariant
            i <= v@.len(),
            forall|k: int| 0 <= k < i ==> string_views(v@)[k] != n@,
        decreases v@.len() - i,
    {
        if str_eq(v[i].as_str(), n) {
            assert(string_views(v@)[i as int] == n@);
            return true;
        }
        i = i + 1;
    }
    false
}

/// The allowed-name lists, built once per run.
pub struct AllowLists {
    pub builtins: Vec<String>,
    pub globals: Vec<String>,
    pub field_extra: Vec<String>,
}

impl AllowLists {
    pub open spec fn wf(&self) -> bool {
        &&& string_views(self.builtins@) == builtin_names()
        &&& string_views(self.globals@) == each_globals()
        &&& string_views(self.field_extra@) == field_each_extra()
    }

    pub fn new() -> (a: AllowLists)
        ensures
            a.wf(),
    {
        AllowLists {
            builtins: builtin_names_exec(),
            globals: each_globals_exec(),
            field_extra: field_each_extra_exec(),
        }
    }
}

fn layer_allows_exec(lists: &AllowLists, l: Layer, n: &str) -> (b: bool)
    requires
        lists.wf(),
    ensures
        b == layer_allows(l, n@),
{
    match l {
        Layer::Fields => in_list(&lists.field_extra, n) || in_list(&lists.globals, n) || str_eq(
            n,
            "this",
        ),
        Layer::Each => in_list(&lists.globals, n) || str_eq(n, "this"),
    }
}

fn allows_exec(lists: &AllowLists, vars: &StrMap<DataValue>, stack: &Vec<Layer>, n: &str) -> (b: bool)
    requires
        lists.wf(),
    ensures
        b == allows(vars@.dom(), stack@, n@),
{
    if in_list(&lists.builtins, n) || in_list(&lists.globals, n) || vars.contains_key(n) {
        return true;
    }
    let mut i: usize = 0;
    while i < stack.len()
        invariant
            lists.wf(),
            i <= stack@.len(),
            forall|k: int| 0 <= k < i ==> !layer_allows(#[trigger] stack@[k], n@),
        decreases stack@.len() - i,
    {
        if layer_allows_exec(lists, stack[i], n) {
            return true;
        }
        i = i + 1;
    }
    false
}

fn segment_allowed_exec(lists: &AllowLists, vars: &StrMap<DataValue>, stack: &Vec<Layer>, seg: &str) -> (b:
    bool)
    requires
        lists.wf(),
    ensures
        b == segment_allowed(vars@.dom(), stack@, seg@),
{
    if allows_exec(lists, vars, stack, seg) {
        return true;
    }
    let v = to_chars(seg);
    if v.len() > 0 && v[0] == '@' {
        let j = crate::text::trim_start_char_range(&v, 0, v.len(), '@');
        let bare = string_of_range(&v, j, v.len());
        assert(v@.subrange(0, v@.len() as int) =~= seg@);
        allows_exec(lists, vars, stack, bare.as_str())
    } else {
        let at = concat2("@", seg);
        allows_exec(lists, vars, stack, at.as_str())
    }
}

// ---------------------------------------------------------------------------
// Template structure
// ---------------------------------------------------------------------------

/// The first segment of a path as the template engine records it: a named
/// segment, or the name of a local path (`@index`, `../@first`, ...).
#[derive(Debug)]
pub enum Segment {
    Named(String),
    Local(String),
}

/// The name validation reads for a segment.
pub open spec fn segment_text(s: Segment) -> Seq<char> {
    match s {
        Segment::Named(n) => n@,
        Segment::Local(n) => local_segment(n@),
    }
}

/// The name validation reads for a segment.
pub fn segment_string(s: &Segment) -> (r: String)
    ensures
        r@ == segment_text(*s),
{
    match s {
        Segment::Named(n) => n.clone(),
        Segment::Local(n) => local_path_segment(n.as_str()),
    }
}

/// One segment of a relative path: a name, a rule of the path grammar
/// (`this`, `..`, ...), or a kind of segment the engine adds later.
#[derive(Debug)]
pub enum PathPart {
    Named(String),
    Ruled,
    Other,
}

/// A path as the template engine records it.
#[derive(Debug)]
pub enum TemplatePath {
    /// `a/b/c`: its segments, in order.
    Relative(Vec<PathPart>),
    /// A local variable (`@index`, `../@first`, ...): the name recorded for it.
    Local(String),
}

/// A parameter of a helper call as the template engine records it.
#[derive(Debug)]
pub enum Param {
    /// A plain name (a helper's own name).
    Name(String),
    Path(TemplatePath),
    /// A literal value.
    Literal,
    /// `(helper ...)`: the element it calls.
    Subexpression(Box<Element>),
    /// A kind of parameter the engine adds later.
    Other,
}

/// A helper call or expression of a compiled template.
#[derive(Debug)]
pub struct HelperCall {
    /// What is called (or, for a plain reference, the path read).
    pub name: Param,
    /// Written as a block (`{{#name ...}}`).
    pub block: bool,
    /// The positional parameters, in order.
    pub params: Vec<Param>,
    /// The hash values, in the order the template engine hands them out.
    pub hash: Vec<Param>,
    /// The block's body.
    pub template: Option<Vec<Element>>,
    /// The block's `{{else}}` part.
    pub inverse: Option<Vec<Element>>,
}

/// An element of a compiled template, one variant for each kind the engine
/// records.
#[derive(Debug)]
pub enum Element {
    RawString(String),
    /// `{{{...}}}`.
    HtmlExpression(HelperCall),
    /// `{{...}}`.
    Expression(HelperCall),
    /// `{{#...}} ... {{/...}}`.
    Block(HelperCall),
    DecoratorExpression,
    DecoratorBlock,
    PartialExpression,
    PartialBlock,
    Comment(String),
    /// A kind of element the engine adds later.
    Other,
}

/// A segment as plain values.
pub enum SegmentView {
    Named(Seq<char>),
    Local(Seq<char>),
}

pub open spec fn segment_view(s: Segment) -> SegmentView {
    match s {
        Segment::Named(n) => SegmentView::Named(n@),
        Segment::Local(n) => SegmentView::Local(n@),
    }
}

pub open spec fn opt_segment_view(o: Option<Segment>) -> Option<SegmentView> {
    match o {
        Some(s) => Some(segment_view(s)),
        None => None,
    }
}

/// The name validation reads for a segment view.
pub open spec fn segment_view_text(s: SegmentView) -> Seq<char> {
    match s {
        SegmentView::Named(n) => n,
        SegmentView::Local(n) => local_segment(n),
    }
}

pub enum PathPartView {
    Named(Seq<char>),
    Ruled,
    Other,
}

pub enum PathView {
    Relative(Seq<PathPartView>),
    Local(Seq<char>),
}

pub enum ParamView {
    Name(Seq<char>),
    Path(PathView),
    Literal,
    Subexpression(Box<ElementView>),
    Other,
}

/// A helper call as plain values: the hash values as a multiset, since the
/// template engine hands them out in no fixed order.
pub struct CallView {
    pub name: ParamView,
    pub block: bool,
    pub params: Seq<ParamView>,
    pub hash: Multiset<ParamView>,
    pub template: Option<Seq<ElementView>>,
    pub inverse: Option<Seq<ElementView>>,
}

/// An element as plain values.
pub enum ElementView {
    RawString(Seq<char>),
    HtmlExpression(CallView),
    Expression(CallView),
    Block(CallView),
    DecoratorExpression,
    DecoratorBlock,
    PartialExpression,
    PartialBlock,
    Comment(Seq<char>),
    Other,
}

pub open spec fn segment_views(s: Seq<Option<Segment>>) -> Seq<Option<SegmentView>> {
    s.map_values(|o: Option<Segment>| opt_segment_view(o))
}

/// The set of views of a list of segments.
pub open spec fn segment_set(s: Seq<Option<Segment>>) -> Set<Option<SegmentView>> {
    Set::new(|o: Option<SegmentView>| exists|j: int| 0 <= j < s.len() && o == opt_segment_view(#[trigger] s[j]))
}

pub open spec fn part_view(p: PathPart) -> PathPartView {
    match p {
        PathPart::Named(n) => PathPartView::Named(n@),
        PathPart::Ruled => PathPartView::Ruled,
        PathPart::Other => PathPartView::Other,
    }
}

pub open spec fn path_view(p: TemplatePath) -> PathView {
    match p {
        TemplatePath::Relative(v) => PathView::Relative(v@.map_values(|x: PathPart| part_view(x))),
        TemplatePath::Local(n) => PathView::Local(n@),
    }
}

pub open spec fn param_view(p: Param) -> ParamView
    decreases p,
{
    match p {
        Param::Name(n) => ParamView::Name(n@),
        Param::Path(q) => ParamView::Path(path_view(q)),
        Param::Literal => ParamView::Literal,
        Param::Subexpression(b) => ParamView::Subexpression(Box::new(element_view(*b))),
        Param::Other => ParamView::Other,
    }
}

pub open spec fn params_view(ps: Seq<Param>) -> Seq<ParamView>
    decreases ps,
{
    if ps.len() == 0 {
        Seq::empty()
    } else {
        seq![param_view(ps[0])] + params_view(ps.drop_first())
    }
}

pub open spec fn hash_view(ps: Seq<Param>) -> Multiset<ParamView>
    decreases ps,
{
    if ps.len() == 0 {
        Multiset::empty()
    } else {
        hash_view(ps.drop_first()).insert(param_view(ps[0]))
    }
}

pub open spec fn call_view(c: HelperCall) -> CallView
    decreases c,
{
    CallView {
        name: param_view(c.name),
        block: c.block,
        params: params_view(c.params@),
        hash: hash_view(c.hash@),
        template: match c.template {
            Some(t) => Some(elements_view(t@)),
            None => None,
        },
        inverse: match c.inverse {
            Some(t) => Some(elements_view(t@)),
            None => None,
        },
    }
}

pub open spec fn element_view(e: Element) -> ElementView
    decreases e,
{
    match e {
        Element::RawString(t) => ElementView::RawString(t@),
        Element::HtmlExpression(c) => ElementView::HtmlExpression(call_view(c)),
        Element::Expression(c) => ElementView::Expression(call_view(c)),
        Element::Block(c) => ElementView::Block(call_view(c)),
        Element::DecoratorExpression => ElementView::DecoratorExpression,
        Element::DecoratorBlock => ElementView::DecoratorBlock,
        Element::PartialExpression => ElementView::PartialExpression,
        Element::PartialBlock => ElementView::PartialBlock,
        Element::Comment(t) => ElementView::Comment(t@),
        Element::Other => ElementView::Other,
    }
}

pub open spec fn elements_view(es: Seq<Element>) -> Seq<ElementView>
    decreases es,
{
    if es.len() == 0 {
        Seq::empty()
    } else {
        seq![element_view(es[0])] + elements_view(es.drop_first())
    }
}

/// The variable a path reads: its first segment when that is a name, or
/// the local name.
pub open spec fn path_first_segment(p: PathView) -> Option<SegmentView> {
    match p {
        PathView::Relative(parts) => if parts.len() > 0 {
            match parts[0] {
                PathPartView::Named(n) => Some(SegmentView::Named(n)),
                _ => None,
            }
        } else {
            None
        },
        PathView::Local(n) => Some(SegmentView::Local(n)),
    }
}

/// The variable a parameter reads: that of a path, or of the name a
/// subexpression calls; none for a plain name or a literal.
pub open spec fn param_first_segment(p: ParamView) -> Option<SegmentView>
    decreases p,
{
    match p {
        ParamView::Path(q) => path_first_segment(q),
        ParamView::Subexpression(b) => match *b {
            ElementView::Expression(c) => param_first_segment(c.name),
            _ => None,
        },
        _ => None,
    }
}

/// The helper a call names: a plain name, or the first segment of a path.
pub open spec fn helper_name(c: CallView) -> Option<SegmentView> {
    match c.name {
        ParamView::Name(n) => Some(SegmentView::Named(n)),
        ParamView::Path(q) => path_first_segment(q),
        _ => None,
    }
}

/// The variables the positional parameters read, in order.
pub open spec fn param_segments(ps: Seq<ParamView>) -> Seq<Option<SegmentView>> {
    ps.map_values(|p: ParamView| param_first_segment(p))
}

/// The variables the hash values read.
pub open spec fn hash_segments(c: CallView) -> Set<Option<SegmentView>> {
    Set::new(|o: Option<SegmentView>| exists|v: ParamView| #[trigger] c.hash.count(v) > 0 && o == param_first_segment(v))
}

/// A call with no block, parameter or hash: a plain variable reference.
pub open spec fn is_simple(c: CallView) -> bool {
    !c.block && c.params.len() == 0 && c.hash.len() == 0
}

/// The segments checked in order: the name (for a plain reference), then
/// the parameters.
pub open spec fn head_segments(c: CallView) -> Seq<Option<SegmentView>> {
    (if is_simple(c) {
        seq![param_first_segment(c.name)]
    } else {
        Seq::<Option<SegmentView>>::empty()
    }) + param_segments(c.params)
}

/// The segment is present and not allowed.
pub open spec fn unknown_segment(vars: Set<Seq<char>>, stack: Seq<Layer>, o: Option<SegmentView>) -> bool {
    o matches Some(s) && !segment_allowed(vars, stack, segment_view_text(s))
}

/// The first of `segs` that is not allowed.
pub open spec fn first_unknown(vars: Set<Seq<char>>, stack: Seq<Layer>, segs: Seq<Option<SegmentView>>) -> Option<
    Seq<char>,
>
    decreases segs.len(),
{
    if segs.len() == 0 {
        None
    } else if unknown_segment(vars, stack, segs[0]) {
        Some(segment_view_text(segs[0]->0))
    } else {
        first_unknown(vars, stack, segs.drop_first())
    }
}

/// `t` is the name of an unknown segment of `h`.
pub open spec fn unknown_text_in(vars: Set<Seq<char>>, stack: Seq<Layer>, h: Set<Option<SegmentView>>, t: Seq<char>) -> bool {
    exists|o: Option<SegmentView>| #[trigger] h.contains(o) && unknown_segment(vars, stack, o) && segment_view_text(o->0) == t
}

/// `t` is the least (in `String` order) name of an unknown segment of `h`.
pub open spec fn least_unknown_text(vars: Set<Seq<char>>, stack: Seq<Layer>, h: Set<Option<SegmentView>>, t: Seq<char>) -> bool {
    &&& unknown_text_in(vars, stack, h, t)
    &&& forall|u: Seq<char>| #[trigger] unknown_text_in(vars, stack, h, u) ==> !lex_lt(u, t)
}

/// The least name of an unknown hash value, if any.
pub open spec fn least_unknown(vars: Set<Seq<char>>, stack: Seq<Layer>, h: Set<Option<SegmentView>>) -> Option<Seq<char>> {
    if exists|t: Seq<char>| least_unknown_text(vars, stack, h, t) {
        Some(choose|t: Seq<char>| least_unknown_text(vars, stack, h, t))
    } else {
        None
    }
}

/// The unknown name a call reports: the first among its name and
/// parameters, else the least among its hash values.
pub open spec fn call_unknown(vars: Set<Seq<char>>, stack: Seq<Layer>, c: CallView) -> Option<Seq<char>> {
    match first_unknown(vars, stack, head_segments(c)) {
        Some(x) => Some(x),
        None => least_unknown(vars, stack, hash_segments(c)),
    }
}

/// The layer a block opens: `each` over `fields`, any other `each`, or none.
pub open spec fn block_layer(c: CallView) -> Option<Layer> {
    match helper_name(c) {
        Some(n) => if segment_view_text(n) == "each"@ {
            if c.params.len() > 0 && (param_first_segment(c.params[0]) matches Some(p) && segment_view_text(p) == "fields"@) {
                Some(Layer::Fields)
            } else {
                Some(Layer::Each)
            }
        } else {
            None
        },
        None => None,
    }
}

/// The layers inside a block.
pub open spec fn inner_stack(c: CallView, stack: Seq<Layer>) -> Seq<Layer> {
    match block_layer(c) {
        Some(l) => stack.push(l),
        None => stack,
    }
}

/// The first unknown name in a list of elements, in order.
pub open spec fn walk_views(es: Seq<ElementView>, vars: Set<Seq<char>>, stack: Seq<Layer>) -> Option<
    Seq<char>,
>
    decreases es,
{
    if es.len() == 0 {
        None
    } else {
        match walk_view(es[0], vars, stack) {
            Some(x) => Some(x),
            None => walk_views(es.drop_first(), vars, stack),
        }
    }
}

/// The first unknown name of an element: in the call itself, then in the
/// block's body, then in its `{{else}}` part.
pub open spec fn walk_view(e: ElementView, vars: Set<Seq<char>>, stack: Seq<Layer>) -> Option<Seq<char>>
    decreases e,
{
    match e {
        ElementView::Expression(c) => call_unknown(vars, stack, c),
        ElementView::HtmlExpression(c) => call_unknown(vars, stack, c),
        ElementView::Block(c) => match call_unknown(vars, stack, c) {
            Some(x) => Some(x),
            None => {
                let inner = inner_stack(c, stack);
                let found = match c.template {
                    Some(t) => walk_views(t, vars, inner),
                    None => None,
                };
                match found {
                    Some(x) => Some(x),
                    None => match c.inverse {
                        Some(t) => walk_views(t, vars, inner),
                        None => None,
                    },
                }
            },
        },
        _ => None,
    }
}

/// The first unknown name of compiled elements.
pub open spec fn walk_elements(es: Seq<Element>, vars: Set<Seq<char>>, stack: Seq<Layer>) -> Option<Seq<char>> {
    walk_views(elements_view(es), vars, stack)
}

/// The view of an optional string.
pub open spec fn opt_text(o: Option<String>) -> Option<Seq<char>> {
    match o {
        Some(s) => Some(s@),
        None => None,
    }
}

fn first_unknown_in(
    lists: &AllowLists,
    vars: &StrMap<DataValue>,
    stack: &Vec<Layer>,
    segs: &Vec<Option<Segment>>,
) -> (r: Option<String>)
    requires
        lists.wf(),
    ensures
        opt_text(r) == first_unknown(vars@.dom(), stack@, segment_views(segs@)),
{
    let ghost sv = segment_views(segs@);
    let mut i: usize = 0;
    assert(sv.skip(0) =~= sv);
    while i < segs.len()
        invariant
            lists.wf(),
            i <= segs@.len(),
            sv == segment_views(segs@),
            first_unknown(vars@.dom(), stack@, sv) == first_unknown(vars@.dom(), stack@, sv.skip(i as int)),
        decreases segs@.len() - i,
    {
        assert(sv.skip(i as int)[0] == opt_segment_view(segs@[i as int]));
        assert(sv.skip(i as int).drop_first() =~= sv.skip(i + 1));
        match &segs[i] {
            Some(seg) => {
                let text = segment_string(seg);
                if !segment_allowed_exec(lists, vars, stack, text.as_str()) {
                    return Some(text);
                }
            },
            None => {},
        }
        i = i + 1;
    }
    None
}

fn least_unknown_in(
    lists: &AllowLists,
    vars: &StrMap<DataValue>,
    stack: &Vec<Layer>,
    hash: &Vec<Option<Segment>>,
) -> (r: Option<String>)
    requires
        lists.wf(),
    ensures
        opt_text(r) == least_unknown(vars@.dom(), stack@, segment_set(hash@)),
{
    let ghost vs = vars@.dom();
    let ghost h = segment_set(hash@);
    let mut best: Option<String> = None;
    let mut i: usize = 0;
    while i < hash.len()
        invariant
            lists.wf(),
            i <= hash@.len(),
            vs == vars@.dom(),
            h == segment_set(hash@),
            match best {
                Some(t) => (exists|j: int| 0 <= j < i && unknown_segment(vs, stack@, opt_segment_view(#[trigger] hash@[j]))
                    && segment_view_text(opt_segment_view(hash@[j])->0) == t@) && (forall|j: int|
                    0 <= j < i && unknown_segment(vs, stack@, opt_segment_view(#[trigger] hash@[j])) ==> !lex_lt(
                        segment_view_text(opt_segment_view(hash@[j])->0),
                        t@,
                    )),
                None => forall|j: int| 0 <= j < i ==> !unknown_segment(vs, stack@, opt_segment_view(#[trigger] hash@[j])),
            },
        decreases hash@.len() - i,
    {
        match &hash[i] {
            Some(seg) => {
                let text = segment_string(seg);
                if !segment_allowed_exec(lists, vars, stack, text.as_str()) {
                    assert(unknown_segment(vs, stack@, opt_segment_view(hash@[i as int])));
                    let better = match &best {
                        Some(t) => lex_order(text.as_str(), t.as_str()) < 0,
                        None => true,
                    };
                    if better {
                        proof {
                            if best is Some {
                                let t = best->0;
                                assert forall|j: int|
                                    0 <= j < i + 1 && unknown_segment(vs, stack@, opt_segment_view(#[trigger] hash@[j])) implies !lex_lt(
                                        segment_view_text(opt_segment_view(hash@[j])->0),
                                        text@,
                                    ) by {
                                    if j < i {
                                        let u = segment_view_text(opt_segment_view(hash@[j])->0);
                                        lemma_lex_asym(text@, t@);
                                        lemma_lex_total(u, t@);
                                        lemma_lex_trans(u, text@, t@);
                                        lemma_lex_asym(u, t@);
                                    } else {
                                        lemma_lex_irrefl(text@);
                                    }
                                }
                            } else {
                                lemma_lex_irrefl(text@);
                            }
                        }
                        best = Some(text);
                    } else {
                        proof {
                            if best is Some {
                                let t = best->0;
                                lemma_lex_total(text@, t@);
                                if text@ != t@ {
                                    lemma_lex_asym(t@, text@);
                                } else {
                                    lemma_lex_irrefl(t@);
                                }
                            }
                        }
                    }
                }
            },
            None => {},
        }
        i = i + 1;
    }
    proof {
        if best is Some {
            let t = best->0;
            {
                let j0 = choose|j: int| 0 <= j < i && unknown_segment(vs, stack@, opt_segment_view(#[trigger] hash@[j]))
                    && segment_view_text(opt_segment_view(hash@[j])->0) == t@;
                assert(h.contains(opt_segment_view(hash@[j0])));
                assert(unknown_text_in(vs, stack@, h, t@));
                assert forall|u: Seq<char>| #[trigger] unknown_text_in(vs, stack@, h, u) implies !lex_lt(u, t@) by {
                    let o = choose|o: Option<SegmentView>| #[trigger] h.contains(o) && unknown_segment(vs, stack@, o)
                        && segment_view_text(o->0) == u;
                    let j = choose|j: int| 0 <= j < hash@.len() && o == opt_segment_view(#[trigger] hash@[j]);
                    assert(unknown_segment(vs, stack@, opt_segment_view(hash@[j])));
                }
                assert(least_unknown_text(vs, stack@, h, t@));
                let c = choose|c: Seq<char>| least_unknown_text(vs, stack@, h, c);
                assert(least_unknown_text(vs, stack@, h, c));
                lemma_lex_total(c, t@);
            }
        } else {
            {
                if exists|t: Seq<char>| least_unknown_text(vs, stack@, h, t) {
                    let t = choose|t: Seq<char>| least_unknown_text(vs, stack@, h, t);
                    let o = choose|o: Option<SegmentView>| #[trigger] h.contains(o) && unknown_segment(vs, stack@, o)
                        && segment_view_text(o->0) == t;
                    let j = choose|j: int| 0 <= j < hash@.len() && o == opt_segment_view(#[trigger] hash@[j]);
                    assert(!unknown_segment(vs, stack@, opt_segment_view(hash@[j])));
                }
            }
        }
    }
    best
}

/// The variable a path reads: its first segment when that is a name, or
/// the local name.
pub fn first_segment_of_path(p: &TemplatePath) -> (r: Option<Segment>)
    ensures
        opt_segment_view(r) == path_first_segment(path_view(*p)),
{
    match p {
        TemplatePath::Relative(parts) => {
            if parts.len() > 0 {
                match &parts[0] {
                    PathPart::Named(n) => Some(Segment::Named(n.clone())),
                    _ => None,
                }
            } else {
                None
            }
        },
        TemplatePath::Local(n) => Some(Segment::Local(n.clone())),
    }
}

/// The variable a parameter reads: that of a path, or of the name a
/// subexpression calls; none for a plain name or a literal.
pub fn first_segment_of_param(p: &Param) -> (r: Option<Segment>)
    ensures
        opt_segment_view(r) == param_first_segment(param_view(*p)),
    decreases *p,
{
    match p {
        Param::Path(q) => first_segment_of_path(q),
        Param::Subexpression(b) => match &**b {
            Element::Expression(c) => first_segment_of_param(&c.name),
            _ => None,
        },
        _ => None,
    }
}

/// The helper a call names: a plain name, or the first segment of a path.
pub fn called_helper(c: &HelperCall) -> (r: Option<Segment>)
    ensures
        opt_segment_view(r) == helper_name(call_view(*c)),
{
    match &c.name {
        Param::Name(n) => Some(Segment::Named(n.clone())),
        Param::Path(q) => first_segment_of_path(q),
        _ => None,
    }
}

proof fn lemma_params_view(s: Seq<Param>)
    ensures
        params_view(s).len() == s.len(),
        forall|i: int| 0 <= i < s.len() ==> #[trigger] params_view(s)[i] == param_view(s[i]),
    decreases s.len(),
{
    if s.len() > 0 {
        lemma_params_view(s.drop_first());
        assert forall|i: int| 0 <= i < s.len() implies #[trigger] params_view(s)[i] == param_view(s[i]) by {
            if i > 0 {
                assert(s.drop_first()[i - 1] == s[i]);
            }
        }
    }
}

proof fn lemma_hash_view(s: Seq<Param>)
    ensures
        hash_view(s).len() == s.len(),
        forall|v: ParamView| #[trigger] hash_view(s).count(v) > 0 <==> exists|i: int| 0 <= i < s.len() && param_view(s[i]) == v,
    decreases s.len(),
{
    broadcast use vstd::multiset::group_multiset_axioms;
    if s.len() == 0 {
    } else {
        lemma_hash_view(s.drop_first());
        assert forall|v: ParamView| #[trigger] hash_view(s).count(v) > 0 <==> exists|i: int| 0 <= i < s.len() && param_view(s[i]) == v by {
            if hash_view(s).count(v) > 0 {
                if param_view(s[0]) != v {
                    assert(hash_view(s.drop_first()).count(v) > 0);
                    let i = choose|i: int| 0 <= i < s.len() - 1 && param_view(s.drop_first()[i]) == v;
                    assert(param_view(s[i + 1]) == v);
                }
            }
            if exists|i: int| 0 <= i < s.len() && param_view(s[i]) == v {
                let i = choose|i: int| 0 <= i < s.len() && param_view(s[i]) == v;
                if i > 0 {
                    assert(param_view(s.drop_first()[i - 1]) == v);
                }
            }
        }
    }
}

fn head_segments_exec(c: &HelperCall) -> (r: Vec<Option<Segment>>)
    ensures
        segment_views(r@) == head_segments(call_view(*c)),
{
    let ghost cv = call_view(*c);
    proof {
        lemma_params_view(c.params@);
        lemma_hash_view(c.hash@);
    }
    let mut r: Vec<Option<Segment>> = Vec::new();
    if !c.block && c.params.len() == 0 && c.hash.len() == 0 {
        r.push(first_segment_of_param(&c.name));
    }
    let ghost head = segment_views(r@);
    assert(head =~= (if is_simple(cv) {
        seq![param_first_segment(cv.name)]
    } else {
        Seq::<Option<SegmentView>>::empty()
    }));
    let mut i: usize = 0;
    while i < c.params.len()
        invariant
            i <= c.params@.len(),
            cv == call_view(*c),
            params_view(c.params@).len() == c.params@.len(),
            forall|k: int| 0 <= k < c.params@.len() ==> #[trigger] params_view(c.params@)[k] == param_view(c.params@[k]),
            segment_views(r@) == head + param_segments(cv.params).take(i as int),
        decreases c.params@.len() - i,
    {
        let ghost before = r@;
        r.push(first_segment_of_param(&c.params[i]));
        proof {
            assert(segment_views(r@) =~= segment_views(before).push(param_first_segment(param_view(c.params@[i as int]))));
            assert(param_segments(cv.params)[i as int] == param_first_segment(param_view(c.params@[i as int])));
            assert(head + param_segments(cv.params).take(i + 1) =~= (head + param_segments(cv.params).take(
                i as int,
            )).push(param_first_segment(param_view(c.params@[i as int]))));
        }
        i = i + 1;
    }
    assert(param_segments(cv.params).take(i as int) =~= param_segments(cv.params));
    r
}

fn hash_segments_exec(c: &HelperCall) -> (r: Vec<Option<Segment>>)
    ensures
        segment_set(r@) == hash_segments(call_view(*c)),
{
    let mut r: Vec<Option<Segment>> = Vec::new();
    let mut j: usize = 0;
    while j < c.hash.len()
        invariant
            j <= c.hash@.len(),
            r@.len() == j,
            forall|k: int| 0 <= k < j ==> opt_segment_view(#[trigger] r@[k]) == param_first_segment(param_view(c.hash@[k])),
        decreases c.hash@.len() - j,
    {
        r.push(first_segment_of_param(&c.hash[j]));
        j = j + 1;
    }
    proof {
        lemma_hash_view(c.hash@);
        let h = call_view(*c).hash;
        assert(h == hash_view(c.hash@));
        assert forall|o: Option<SegmentView>| segment_set(r@).contains(o) <==> hash_segments(call_view(*c)).contains(o) by {
            if segment_set(r@).contains(o) {
                let k = choose|k: int| 0 <= k < r@.len() && o == opt_segment_view(#[trigger] r@[k]);
                let v = param_view(c.hash@[k]);
                assert(h.count(v) > 0);
            }
            if hash_segments(call_view(*c)).contains(o) {
                let v = choose|v: ParamView| #[trigger] h.count(v) > 0 && o == param_first_segment(v);
                let k = choose|k: int| 0 <= k < c.hash@.len() && param_view(c.hash@[k]) == v;
                assert(o == opt_segment_view(r@[k]));
            }
        }
        assert(segment_set(r@) =~= hash_segments(call_view(*c)));
    }
    r
}

fn call_unknown_exec(lists: &AllowLists, vars: &StrMap<DataValue>, stack: &Vec<Layer>, c: &HelperCall) -> (r:
    Option<String>)
    requires
        lists.wf(),
    ensures
        opt_text(r) == call_unknown(vars@.dom(), stack@, call_view(*c)),
{
    let segs = head_segments_exec(c);
    match first_unknown_in(lists, vars, stack, &segs) {
        Some(x) => Some(x),
        None => {
            let hs = hash_segments_exec(c);
            least_unknown_in(lists, vars, stack, &hs)
        },
    }
}

fn block_layer_exec(c: &HelperCall) -> (r: Option<Layer>)
    ensures
        r == block_layer(call_view(*c)),
{
    proof {
        lemma_params_view(c.params@);
    }
    match called_helper(c) {
        Some(n) => {
            let name = segment_string(&n);
            if str_eq(name.as_str(), "each") {
                if c.params.len() > 0 {
                    assert(call_view(*c).params[0] == param_view(c.params@[0]));
                    match first_segment_of_param(&c.params[0]) {
                        Some(p) => {
                            let first = segment_string(&p);
                            if str_eq(first.as_str(), "fields") {
                                return Some(Layer::Fields);
                            }
                        },
                        None => {},
                    }
                }
                Some(Layer::Each)
            } else {
                None
            }
        },
        None => None,
    }
}

fn walk_elements_exec(
    lists: &AllowLists,
    vars: &StrMap<DataValue>,
    stack: &Vec<Layer>,
    es: &Vec<Element>,
) -> (r: Option<String>)
    requires
        lists.wf(),
    ensures
        opt_text(r) == walk_views(elements_view(es@), vars@.dom(), stack@),
    decreases es@,
{
    let mut i: usize = 0;
    assert(es@.skip(0) =~= es@);
    while i < es.len()
        invariant
            lists.wf(),
            i <= es@.len(),
            walk_views(elements_view(es@), vars@.dom(), stack@) == walk_views(elements_view(es@.skip(i as int)), vars@.dom(), stack@),
        decreases es@.len() - i,
    {
        assert(es@.skip(i as int)[0] == es@[i as int]);
        assert(es@.skip(i as int).drop_first() =~= es@.skip(i + 1));
        proof {
            let sk = es@.skip(i as int);
            let v = elements_view(sk);
            assert(v == seq![element_view(sk[0])] + elements_view(sk.drop_first()));
            assert(v[0] == element_view(es@[i as int]));
            assert(v.drop_first() =~= elements_view(es@.skip(i + 1)));
        }
        let found = walk_element_exec(lists, vars, stack, &es[i]);
        match found {
            Some(x) => {
                return Some(x);
            },
            None => {},
        }
        i = i + 1;
    }
    None
}

fn walk_element_exec(lists: &AllowLists, vars: &StrMap<DataValue>, stack: &Vec<Layer>, e: &Element) -> (r:
    Option<String>)
    requires
        lists.wf(),
    ensures
        opt_text(r) == walk_view(element_view(*e), vars@.dom(), stack@),
    decreases *e,
{
    match e {
        Element::Expression(c) => call_unknown_exec(lists, vars, stack, c),
        Element::HtmlExpression(c) => call_unknown_exec(lists, vars, stack, c),
        Element::Block(c) => {
            match call_unknown_exec(lists, vars, stack, c) {
                Some(x) => {
                    return Some(x);
                },
                None => {},
            }
            let mut inner = stack.clone();
            match block_layer_exec(c) {
                Some(l) => inner.push(l),
                None => {},
            }
            assert(inner@ == inner_stack(call_view(*c), stack@));
            assert(call_view(*c).template == match c.template {
                Some(t) => Some(elements_view(t@)),
                None => None::<Seq<ElementView>>,
            });
            let body = match &c.template {
                Some(t) => walk_elements_exec(lists, vars, &inner, t),
                None => None,
            };
            match body {
                Some(x) => Some(x),
                None => match &c.inverse {
                    Some(t) => walk_elements_exec(lists, vars, &inner, t),
                    None => None,
                },
            }
        },
        _ => None,
    }
}

// ---------------------------------------------------------------------------
// Text of render failures
// ---------------------------------------------------------------------------

/// The first position at or after `i` where `p` occurs in `s`.
pub open spec fn find_from(s: Seq<char>, p: Seq<char>, i: int) -> Option<int>
    decreases s.len() + 1 - i,
{
    if i < 0 || i + p.len() > s.len() {
        None
    } else if occurs_at(s, p, i) {
        Some(i)
    } else {
        find_from(s, p, i + 1)
    }
}

proof fn lemma_find_from_occurs(s: Seq<char>, p: Seq<char>, j: int)
    ensures
        find_from(s, p, j) matches Some(i) ==> occurs_at(s, p, i) && j <= i,
    decreases s.len() + 1 - j,
{
    if !(j < 0 || j + p.len() > s.len()) && !occurs_at(s, p, j) {
        lemma_find_from_occurs(s, p, j + 1);
    }
}

/// The first position of `p` in `v` (`str::find`).
fn find_str(v: &Vec<char>, p: &str) -> (r: Option<usize>)
    ensures
        match find_from(v@, p@, 0) {
            Some(i) => r matches Some(k) && k as int == i,
            None => r is None,
        },
        r matches Some(i) ==> occurs_at(v@, p@, i as int),
{
    proof {
        lemma_find_from_occurs(v@, p@, 0);
    }
    let n = p.unicode_len();
    if n == 0 {
        assert(v@.subrange(0, 0) =~= p@);
        assert(occurs_at(v@, p@, 0));
        return Some(0);
    }
    if n > v.len() {
        return None;
    }
    let mut i: usize = 0;
    while i <= v.len() - n
        invariant
            n == p@.len(),
            1 <= n <= v@.len(),
            i <= v@.len() - n + 1,
            find_from(v@, p@, 0) == find_from(v@, p@, i as int),
        decreases v@.len() - n + 1 - i,
    {
        if range_eq(v, i, i + n, p) {
            assert(occurs_at(v@, p@, i as int));
            return Some(i);
        }
        i = i + 1;
    }
    None
}

/// A character that ends a handle in leftover `{{...`.
pub open spec fn is_stop(c: char) -> bool {
    is_ws(c) || c == '}' || c == '('
}

/// How many characters of `t` come before the first stop character.
pub open spec fn stop_index(t: Seq<char>) -> int
    decreases t.len(),
{
    if t.len() == 0 {
        0
    } else if is_stop(t[0]) {
        0
    } else {
        1 + stop_index(t.drop_first())
    }
}

proof fn lemma_stop_index(t: Seq<char>, n: int)
    requires
        0 <= n <= t.len(),
        forall|k: int| 0 <= k < n ==> !is_stop(#[trigger] t[k]),
        n == t.len() || is_stop(t[n]),
    ensures
        stop_index(t) == n,
    decreases n,
{
    if n > 0 {
        assert forall|k: int| 0 <= k < n - 1 implies !is_stop(#[trigger] t.drop_first()[k]) by {
            assert(t.drop_first()[k] == t[k + 1]);
        }
        if n < t.len() {
            assert(t.drop_first()[n - 1] == t[n]);
        }
        lemma_stop_index(t.drop_first(), n - 1);
    }
}

/// The handle named by leftover `{{...` at the start of `f`: after `{{`,
/// leading `#` then `/` dropped and whitespace trimmed, up to the first
/// whitespace, `}` or `(`.
pub open spec fn residue_handle(f: Seq<char>) -> Option<Seq<char>> {
    match strip_prefix(f, "{{"@) {
        None => None,
        Some(rest) => {
            let t = trim(trim_start_char(trim_start_char(rest, '#'), '/'));
            let name = trim(t.take(stop_index(t)));
            if name.len() == 0 {
                None
            } else {
                Some(name)
            }
        },
    }
}

/// The handle named by leftover `{{...` at the start of `fragment`.
pub fn extract_residue_handle(fragment: &str) -> (r: Option<String>)
    ensures
        opt_text(r) == residue_handle(fragment@),
{
    let v = to_chars(fragment);
    let n = v.len();
    assert(v@.subrange(0, n as int) =~= fragment@);
    let k = match strip_prefix_range(&v, 0, n, "{{") {
        Some(k) => k,
        None => {
            return None;
        },
    };
    let j1 = trim_start_char_range(&v, k, n, '#');
    let j2 = trim_start_char_range(&v, j1, n, '/');
    let (a, b) = trim_range(&v, j2, n);
    let ghost t = v@.subrange(a as int, b as int);
    let mut e = a;
    while e < b && !(is_ws_char(v[e]) || v[e] == '}' || v[e] == '(')
        invariant
            a <= e <= b,
            b <= v@.len(),
            t == v@.subrange(a as int, b as int),
            forall|q: int| a <= q < e ==> !is_stop(#[trigger] v@[q]),
        decreases b - e,
    {
        e = e + 1;
    }
    proof {
        assert forall|q: int| 0 <= q < e - a implies !is_stop(#[trigger] t[q]) by {
            assert(t[q] == v@[a + q]);
        }
        if e < b {
            assert(t[e - a] == v@[e as int]);
        }
        lemma_stop_index(t, e - a);
        assert(t.take(e - a) =~= v@.subrange(a as int, e as int));
    }
    let (c, d) = trim_range(&v, a, e);
    if c == d {
        return None;
    }
    Some(string_of_range(&v, c, d))
}

/// A character of a helper name after a "not found" marker.
pub open spec fn is_name_char(c: char) -> bool {
    ('a' <= c <= 'z') || ('A' <= c <= 'Z') || ('0' <= c <= '9') || c == '_' || c == '-'
}

/// How many leading characters of `t` are name characters.
pub open spec fn name_prefix_len(t: Seq<char>) -> int
    decreases t.len(),
{
    if t.len() == 0 {
        0
    } else if !is_name_char(t[0]) {
        0
    } else {
        1 + name_prefix_len(t.drop_first())
    }
}

proof fn lemma_name_prefix_len(t: Seq<char>, n: int)
    requires
        0 <= n <= t.len(),
        forall|k: int| 0 <= k < n ==> is_name_char(#[trigger] t[k]),
        n == t.len() || !is_name_char(t[n]),
    ensures
        name_prefix_len(t) == n,
    decreases n,
{
    if n > 0 {
        assert forall|k: int| 0 <= k < n - 1 implies is_name_char(#[trigger] t.drop_first()[k]) by {
            assert(t.drop_first()[k] == t[k + 1]);
        }
        if n < t.len() {
            assert(t.drop_first()[n - 1] == t[n]);
        }
        lemma_name_prefix_len(t.drop_first(), n - 1);
    }
}

/// The non-empty trimmed text between the first two `'` of `msg`.
pub open spec fn quoted_name(msg: Seq<char>) -> Option<Seq<char>> {
    match find_first(msg, '\'') {
        Some(a) => {
            let rest = msg.skip(a + 1);
            match find_first(rest, '\'') {
                Some(b) => {
                    let name = trim(rest.take(b));
                    if name.len() > 0 {
                        Some(name)
                    } else {
                        None
                    }
                },
                None => None,
            }
        },
        None => None,
    }
}

/// The name after the first `marker` in `msg`: the leading name characters
/// of the trimmed rest, when there are any.
pub open spec fn marker_name(msg: Seq<char>, marker: Seq<char>) -> Option<Seq<char>> {
    match find_from(msg, marker, 0) {
        Some(i) => {
            let tail = trim(msg.skip(i + marker.len()));
            let name = tail.take(name_prefix_len(tail));
            if name.len() > 0 {
                Some(name)
            } else {
                None
            }
        },
        None => None,
    }
}

/// The helper a render failure names: quoted, else after one of the "not
/// found" markers.
pub open spec fn helper_name_of(msg: Seq<char>) -> Option<Seq<char>> {
    match quoted_name(msg) {
        Some(n) => Some(n),
        None => match marker_name(msg, "Helper not found "@) {
            Some(n) => Some(n),
            None => match marker_name(msg, "helper not found "@) {
                Some(n) => Some(n),
                None => marker_name(msg, "Decorator not found "@),
            },
        },
    }
}

fn quoted_name_exec(v: &Vec<char>) -> (r: Option<String>)
    ensures
        opt_text(r) == quoted_name(v@),
{
    let n = v.len();
    assert(v@.subrange(0, n as int) =~= v@);
    match find_first_in(v, 0, n, '\'') {
        Some(a) => {
            let ghost rest = v@.skip(a + 1);
            assert(v@.subrange(a + 1, n as int) =~= rest);
            match find_first_in(v, a + 1, n, '\'') {
                Some(b) => {
                    assert(rest.take(b - (a + 1)) =~= v@.subrange(a + 1, b as int));
                    let (c, d) = trim_range(v, a + 1, b);
                    if c < d {
                        Some(string_of_range(v, c, d))
                    } else {
                        None
                    }
                },
                None => None,
            }
        },
        None => None,
    }
}

fn marker_name_exec(v: &Vec<char>, marker: &str) -> (r: Option<String>)
    ensures
        opt_text(r) == marker_name(v@, marker@),
{
    let n = v.len();
    match find_str(v, marker) {
        Some(i) => {
            let m = marker.unicode_len();
            let ghost tail_src = v@.skip(i + m);
            assert(v@.subrange((i + m) as int, n as int) =~= tail_src);
            let (a, b) = trim_range(v, i + m, n);
            let ghost tail = v@.subrange(a as int, b as int);
            let mut e = a;
            while e < b && is_name_char_exec(v[e])
                invariant
                    a <= e <= b,
                    b <= v@.len(),
                    tail == v@.subrange(a as int, b as int),
                    forall|q: int| a <= q < e ==> is_name_char(#[trigger] v@[q]),
                decreases b - e,
            {
                e = e + 1;
            }
            proof {
                assert forall|q: int| 0 <= q < e - a implies is_name_char(#[trigger] tail[q]) by {
                    assert(tail[q] == v@[a + q]);
                }
                if e < b {
                    assert(tail[e - a] == v@[e as int]);
                }
                lemma_name_prefix_len(tail, e - a);
                assert(tail.take(e - a) =~= v@.subrange(a as int, e as int));
                assert(tail == trim(v@.skip(i + m)));
                assert(marker_name(v@, marker@) == (if e > a {
                    Some(v@.subrange(a as int, e as int))
                } else {
                    None::<Seq<char>>
                }));
            }
            if e > a {
                Some(string_of_range(v, a, e))
            } else {
                None
            }
        },
        None => None,
    }
}

fn is_name_char_exec(c: char) -> (b: bool)
    ensures
        b == is_name_char(c),
{
    ('a' <= c && c <= 'z') || ('A' <= c && c <= 'Z') || ('0' <= c && c <= '9') || c == '_' || c == '-'
}

/// The helper a render failure message names, if it names one.
pub fn extract_helper_name(msg: &str) -> (r: Option<String>)
    ensures
        opt_text(r) == helper_name_of(msg@),
{
    let v = to_chars(msg);
    match quoted_name_exec(&v) {
        Some(n) => {
            return Some(n);
        },
        None => {},
    }
    match marker_name_exec(&v, "Helper not found ") {
        Some(n) => {
            return Some(n);
        },
        None => {},
    }
    match marker_name_exec(&v, "helper not found ") {
        Some(n) => {
            return Some(n);
        },
        None => {},
    }
    marker_name_exec(&v, "Decorator not found ")
}

// ---------------------------------------------------------------------------
// Issues
// ---------------------------------------------------------------------------

/// The names suggestions are drawn from: the built-in names, the loop
/// variables and the project variables.
pub open spec fn base_names(vars: Set<Seq<char>>) -> Set<Seq<char>> {
    builtin_names().to_set() + each_globals().to_set() + vars
}

/// The suggestion pool: the base names, sorted, each once.
pub fn suggestion_pool(vars: &StrMap<DataValue>) -> (r: Vec<String>)
    ensures
        strictly_sorted(string_views(r@)),
        string_views(r@).to_set() == base_names(vars@.dom()),
{
    let lists = AllowLists::new();
    let mut m: StrMap<bool> = StrMap::new();
    let mut i: usize = 0;
    while i < lists.builtins.len()
        invariant
            lists.wf(),
            i <= lists.builtins@.len(),
            m@.dom() == builtin_names().take(i as int).to_set(),
        decreases lists.builtins@.len() - i,
    {
        let ghost before = m@.dom();
        m.insert(lists.builtins[i].clone(), true);
        proof {
            assert(string_views(lists.builtins@)[i as int] == builtin_names()[i as int]);
            assert(builtin_names().take(i + 1) =~= builtin_names().take(i as int).push(builtin_names()[i as int]));
            builtin_names().take(i as int).lemma_push_to_set_commute(builtin_names()[i as int]);
            assert(m@.dom() =~= builtin_names().take(i + 1).to_set());
        }
        i = i + 1;
    }
    assert(builtin_names().take(i as int) =~= builtin_names());
    let mut j: usize = 0;
    while j < lists.globals.len()
        invariant
            lists.wf(),
            j <= lists.globals@.len(),
            m@.dom() == builtin_names().to_set() + each_globals().take(j as int).to_set(),
        decreases lists.globals@.len() - j,
    {
        m.insert(lists.globals[j].clone(), true);
        proof {
            assert(string_views(lists.globals@)[j as int] == each_globals()[j as int]);
            assert(each_globals().take(j + 1) =~= each_globals().take(j as int).push(each_globals()[j as int]));
            each_globals().take(j as int).lemma_push_to_set_commute(each_globals()[j as int]);
            assert(m@.dom() =~= builtin_names().to_set() + each_globals().take(j + 1).to_set());
        }
        j = j + 1;
    }
    assert(each_globals().take(j as int) =~= each_globals());
    let keys = vars.keys();
    vars.wf_facts();
    let mut k: usize = 0;
    while k < keys.len()
        invariant
            k <= keys@.len(),
            keys@.map_values(|s: String| s@) == vars.key_seq(),
            vars@.dom() == vars.key_seq().to_set(),
            m@.dom() == builtin_names().to_set() + each_globals().to_set() + vars.key_seq().take(k as int).to_set(),
        decreases keys@.len() - k,
    {
        m.insert(keys[k].clone(), true);
        proof {
            let ks = vars.key_seq();
            assert(ks[k as int] == keys@[k as int]@);
            assert(ks.take(k + 1) =~= ks.take(k as int).push(ks[k as int]));
            ks.take(k as int).lemma_push_to_set_commute(ks[k as int]);
            assert(m@.dom() =~= builtin_names().to_set() + each_globals().to_set() + ks.take(k + 1).to_set());
        }
        k = k + 1;
    }
    assert(vars.key_seq().take(k as int) =~= vars.key_seq());
    m.wf_facts();
    let r = m.keys();
    assert(string_views(r@) =~= r@.map_values(|x: String| x@));
    r
}

/// "did you mean 'name'?"
pub open spec fn did_you_mean_text(name: Seq<char>) -> Seq<char> {
    "did you mean '"@ + name + "'?"@
}

/// The suggestion for an unknown name: the first pool entry closest to it
/// within edit distance 2.
pub open spec fn suggests(r: Option<String>, seg: Seq<char>, pool: Seq<Seq<char>>) -> bool {
    let ds = distances(seg, pool);
    match r {
        Some(t) => exists|k: int| #[trigger] is_closest(ds, k) && t@ == did_you_mean_text(pool[k]),
        None => none_close(ds),
    }
}

/// "did you mean '...'?" for the pool entry closest to `seg`, if any is
/// within edit distance 2.
pub fn did_you_mean(seg: &str, pool: &Vec<String>) -> (r: Option<String>)
    ensures
        suggests(r, seg@, string_views(pool@)),
{
    match closest_candidate(seg, pool) {
        Some(k) => {
            let a = concat2("did you mean '", pool[k].as_str());
            let t = concat2(a.as_str(), "'?");
            assert(string_views(pool@)[k as int] == pool@[k as int]@);
            Some(t)
        },
        None => None,
    }
}

/// `i` reports an unknown variable `seg` in the template at `rel`.
pub open spec fn is_unknown_variable_issue(i: ValidateIssue, rel: Seq<char>, seg: Seq<char>, pool: Seq<Seq<char>>) -> bool {
    &&& i.template_path@ == rel
    &&& i.line is None
    &&& i.column is None
    &&& i.kind == IssueKind::UnknownVariable
    &&& opt_text(i.variable) == Some(seg)
    &&& suggests(i.suggestion, seg, pool)
}

/// The first name of a compiled template that is neither built in, a loop
/// variable in scope, nor a project variable.
pub fn first_unknown_variable_issue(
    elements: &Vec<Element>,
    vars: &StrMap<DataValue>,
    pool: &Vec<String>,
    rel: &str,
) -> (r: Option<ValidateIssue>)
    ensures
        match walk_elements(elements@, vars@.dom(), Seq::<Layer>::empty()) {
            Some(seg) => r matches Some(i) && is_unknown_variable_issue(i, rel@, seg, string_views(pool@)),
            None => r is None,
        },
{
    let lists = AllowLists::new();
    let stack: Vec<Layer> = Vec::new();
    assert(stack@ =~= Seq::<Layer>::empty());
    match walk_elements_exec(&lists, vars, &stack, elements) {
        Some(seg) => {
            let suggestion = did_you_mean(seg.as_str(), pool);
            Some(ValidateIssue {
                template_path: owned(rel),
                line: None,
                column: None,
                kind: IssueKind::UnknownVariable,
                variable: Some(seg),
                suggestion,
            })
        },
        None => None,
    }
}

/// The name a local path (`@index`, `../@first`, ...) stands for, from the
/// name the template engine records for it: a name starting with `@` as is,
/// `index`, `key`, `first`, `last` and `root` with `@` in front, any other
/// name as is.
pub open spec fn local_segment(name: Seq<char>) -> Seq<char> {
    if name.len() > 0 && name[0] == '@' {
        name
    } else if name == "index"@ || name == "key"@ || name == "first"@ || name == "last"@ || name
        == "root"@ {
        "@"@ + name
    } else {
        name
    }
}

/// The segment validation reads for a local path named `name`.
pub fn local_path_segment(name: &str) -> (r: String)
    ensures
        r@ == local_segment(name@),
{
    let starts_at = name.unicode_len() > 0 && name.get_char(0) == '@';
    if starts_at {
        return owned(name);
    }
    if str_eq(name, "index") || str_eq(name, "key") || str_eq(name, "first") || str_eq(name, "last")
        || str_eq(name, "root") {
        concat2("@", name)
    } else {
        owned(name)
    }
}

// ---------------------------------------------------------------------------
// Compiling a template
// ---------------------------------------------------------------------------

#[verifier::external_type_specification]
#[verifier::external_body]
pub struct ExHbTemplateElement(TemplateElement);

#[verifier::external_type_specification]
#[verifier::external_body]
pub struct ExHbHelperTemplate(HelperTemplate);

#[verifier::external_type_specification]
#[verifier::external_body]
pub struct ExHbParameter(Parameter);

#[verifier::external_type_specification]
#[verifier::external_body]
pub struct ExHbPath(handlebars::Path);

/// What `Template::compile` makes of a source: its elements, as plain
/// values, when it compiles; else the line and column of the error when
/// known, and the text of its reason.
pub uninterp spec fn hbs_compile(src: Seq<char>) -> Result<Seq<ElementView>, (Option<(usize, usize)>, Seq<char>)>;

/// A handlebars path as a `TemplatePath`: a relative path with each of its
/// segments, or a local path's name.
#[verifier::external_body]
fn hb_path(path: &handlebars::Path) -> TemplatePath {
    match path {
        handlebars::Path::Relative((segs, _)) => TemplatePath::Relative(segs.iter().map(|seg| match seg {
            handlebars::PathSeg::Named(n) => PathPart::Named(n.clone()),
            handlebars::PathSeg::Ruled(_) => PathPart::Ruled,
            _ => PathPart::Other,
        }).collect()),
        handlebars::Path::Local((_, name, _)) => TemplatePath::Local(name.clone()),
    }
}

/// A handlebars parameter as a `Param`, variant for variant.
#[verifier::external_body]
fn hb_param(p: &Parameter) -> Param {
    match p {
        Parameter::Name(n) => Param::Name(n.clone()),
        Parameter::Path(path) => Param::Path(hb_path(path)),
        Parameter::Literal(_) => Param::Literal,
        Parameter::Subexpression(sub) => Param::Subexpression(Box::new(hb_element(sub.as_element()))),
        _ => Param::Other,
    }
}

/// A handlebars helper template as a `HelperCall`, field by field (the
/// hash's values, in the order its `HashMap` hands them out).
#[verifier::external_body]
fn hb_call(ht: &HelperTemplate) -> HelperCall {
    HelperCall {
        name: hb_param(&ht.name),
        block: ht.block,
        params: ht.params.iter().map(hb_param).collect(),
        hash: ht.hash.values().map(hb_param).collect(),
        template: ht.template.as_ref().map(|t| t.elements.iter().map(hb_element).collect()),
        inverse: ht.inverse.as_ref().map(|t| t.elements.iter().map(hb_element).collect()),
    }
}

/// A handlebars template element as an `Element`, variant for variant.
#[verifier::external_body]
fn hb_element(e: &TemplateElement) -> Element {
    match e {
        TemplateElement::RawString(t) => Element::RawString(t.clone()),
        TemplateElement::HtmlExpression(ht) => Element::HtmlExpression(hb_call(ht)),
        TemplateElement::Expression(ht) => Element::Expression(hb_call(ht)),
        TemplateElement::HelperBlock(ht) => Element::Block(hb_call(ht)),
        TemplateElement::DecoratorExpression(_) => Element::DecoratorExpression,
        TemplateElement::DecoratorBlock(_) => Element::DecoratorBlock,
        TemplateElement::PartialExpression(_) => Element::PartialExpression,
        TemplateElement::PartialBlock(_) => Element::PartialBlock,
        TemplateElement::Comment(t) => Element::Comment(t.clone()),
        _ => Element::Other,
    }
}

/// `Template::compile` of a template source, its elements converted one
/// for one. Claims: the outcome, with the elements taken as plain values, is
/// `hbs_compile` of the source. The hash values of a call come in the order
/// a `HashMap` hands them out; their view is a set, which that order leaves
/// unchanged.
#[verifier::external_body]
fn compile_template(src: &str) -> (r: Result<Vec<Element>, (Option<(usize, usize)>, String)>)
    ensures
        match r {
            Ok(es) => hbs_compile(src@) == Ok::<Seq<ElementView>, (Option<(usize, usize)>, Seq<char>)>(
                elements_view(es@),
            ),
            Err((pos, reason)) => hbs_compile(src@) == Err::<Seq<ElementView>, (Option<(usize, usize)>, Seq<char>)>(
                (pos, reason@),
            ),
        },
{
    match handlebars::Template::compile(src) {
        Ok(t) => Ok(t.elements.iter().map(hb_element).collect()),
        Err(e) => Err((e.pos(), e.reason().to_string())),
    }
}

/// `i` reports that the template at `rel` does not compile, at `pos` when
/// known, for `reason`.
pub open spec fn is_syntax_issue(
    i: ValidateIssue,
    rel: Seq<char>,
    pos: Option<(usize, usize)>,
    reason: Seq<char>,
) -> bool {
    &&& i.template_path@ == rel
    &&& i.kind == IssueKind::SyntaxError
    &&& i.variable is None
    &&& opt_text(i.suggestion) == Some(reason)
    &&& match pos {
        Some(p) => i.line == Some(p.0 as u32) && i.column == Some(p.1 as u32),
        None => i.line is None && i.column is None,
    }
}

/// `r` is what the walk of `es` reports: the first unknown variable, if any.
pub open spec fn walk_outcome(
    es: Seq<ElementView>,
    vars: Set<Seq<char>>,
    pool: Seq<Seq<char>>,
    rel: Seq<char>,
    r: Option<ValidateIssue>,
) -> bool {
    match walk_views(es, vars, Seq::<Layer>::empty()) {
        Some(seg) => r matches Some(i) && is_unknown_variable_issue(i, rel, seg, pool),
        None => r is None,
    }
}

/// The validation issue of a template from its compile: the syntax issue
/// when it does not compile (`Err`: position and reason), else the first
/// unknown variable of its elements, if any.
pub fn compiled_issue(
    compiled: &Result<Vec<Element>, (Option<(usize, usize)>, String)>,
    vars: &StrMap<DataValue>,
    pool: &Vec<String>,
    rel: &str,
) -> (r: Option<ValidateIssue>)
    ensures
        match compiled {
            Err((pos, reason)) => r matches Some(i) && is_syntax_issue(i, rel@, *pos, reason@),
            Ok(es) => walk_outcome(elements_view(es@), vars@.dom(), string_views(pool@), rel@, r),
        },
{
    match compiled {
        Err((pos, reason)) => Some(syntax_issue(rel, *pos, reason.as_str())),
        Ok(es) => first_unknown_variable_issue(es, vars, pool, rel),
    }
}

/// The validation issue of a template source: the syntax issue when it does
/// not compile, else the first unknown variable of the compiled template's
/// elements, if any.
pub fn template_issue(
    src: &str,
    vars: &StrMap<DataValue>,
    pool: &Vec<String>,
    rel: &str,
) -> (r: Option<ValidateIssue>)
    ensures
        match hbs_compile(src@) {
            Err((pos, reason)) => r matches Some(i) && is_syntax_issue(i, rel@, pos, reason),
            Ok(es) => walk_outcome(es, vars@.dom(), string_views(pool@), rel@, r),
        },
{
    let compiled = compile_template(src);
    compiled_issue(&compiled, vars, pool, rel)
}

/// The issue of a template that does not compile (`pos`: line and column
/// of the error, when known; `reason`: its text).
pub fn syntax_issue(rel: &str, pos: Option<(usize, usize)>, reason: &str) -> (i: ValidateIssue)
    ensures
        i.template_path@ == rel@,
        i.kind == IssueKind::SyntaxError,
        match pos {
            Some(p) => i.line == Some(p.0 as u32) && i.column == Some(p.1 as u32),
            None => i.line is None && i.column is None,
        },
        i.variable is None,
        opt_text(i.suggestion) == Some(reason@),
{
    let (line, column) = match pos {
        Some(p) => (Some(p.0 as u32), Some(p.1 as u32)),
        None => (None, None),
    };
    ValidateIssue {
        template_path: owned(rel),
        line,
        column,
        kind: IssueKind::SyntaxError,
        variable: None,
        suggestion: Some(owned(reason)),
    }
}

/// `str::to_lowercase` of a text.
pub uninterp spec fn lowercase(s: Seq<char>) -> Seq<char>;

/// `str::to_lowercase`: the Unicode lowercase of `s`, a function of its
/// characters only.
#[verifier::external_body]
fn to_lowercase(s: &str) -> (r: String)
    ensures
        r@ == lowercase(s@),
{
    s.to_lowercase()
}

/// A render failure message that says a helper is missing.
pub open spec fn says_missing_helper(msg: Seq<char>) -> bool {
    let l = lowercase(msg);
    ||| crate::text::contains_seq(l, "helper not found"@)
    ||| crate::text::contains_seq(l, "helper not defined"@)
    ||| crate::text::contains_seq(l, "unknown helper"@)
    ||| crate::text::contains_seq(l, "not registered"@)
}

/// `r` is the issue of a template at `rel` whose fixture render gave
/// `rendered` (the text, or the failure's message): leftover `{{` in the
/// text, or the failure (a missing helper when the message says so).
pub open spec fn render_issue_result(rendered: Result<Seq<char>, Seq<char>>, rel: Seq<char>, r: Option<ValidateIssue>) -> bool {
    match rendered {
        Ok(out) => match find_from(out, "{{"@, 0) {
            Some(k) => r matches Some(i) && i.template_path@ == rel && i.line is None && i.column is None
                && i.kind == IssueKind::RenderError && opt_text(i.variable) == residue_handle(out.skip(k))
                && opt_text(i.suggestion) == Some("unrendered handlebars residue in output"@),
            None => r is None,
        },
        Err(msg) => r matches Some(i) && i.template_path@ == rel && i.line is None && i.column is None
            && i.kind == (if says_missing_helper(msg) {
            IssueKind::MissingHelper
        } else {
            IssueKind::RenderError
        }) && opt_text(i.variable) == helper_name_of(msg) && opt_text(i.suggestion) == Some(msg),
    }
}

/// The issue of a template whose render with the fixture context failed
/// (`Err`: the renderer's message) or left `{{` in the output; `None` for a
/// clean render.
pub fn render_issue(rendered: &Result<String, String>, rel: &str) -> (r: Option<ValidateIssue>)
    ensures
        render_issue_result(
            match rendered {
                Ok(o) => Ok::<Seq<char>, Seq<char>>(o@),
                Err(m) => Err::<Seq<char>, Seq<char>>(m@),
            },
            rel@,
            r,
        ),
{
    match rendered {
        Ok(out) => {
            let v = to_chars(out.as_str());
            match find_str(&v, "{{") {
                Some(k) => {
                    let tail = string_of_range(&v, k, v.len());
                    assert(v@.subrange(k as int, v@.len() as int) =~= out@.skip(k as int));
                    Some(ValidateIssue {
                        template_path: owned(rel),
                        line: None,
                        column: None,
                        kind: IssueKind::RenderError,
                        variable: extract_residue_handle(tail.as_str()),
                        suggestion: Some(owned("unrendered handlebars residue in output")),
                    })
                },
                None => None,
            }
        },
        Err(msg) => {
            let lower = to_lowercase(msg.as_str());
            let lv = to_chars(lower.as_str());
            let missing = crate::text::contains_str(&lv, "helper not found") || crate::text::contains_str(
                &lv,
                "helper not defined",
            ) || crate::text::contains_str(&lv, "unknown helper") || crate::text::contains_str(
                &lv,
                "not registered",
            );
            let kind = if missing {
                IssueKind::MissingHelper
            } else {
                IssueKind::RenderError
            };
            Some(ValidateIssue {
                template_path: owned(rel),
                line: None,
                column: None,
                kind,
                variable: extract_helper_name(msg.as_str()),
                suggestion: Some(msg.clone()),
            })
        },
    }
}

// ---------------------------------------------------------------------------
// Outcome
// ---------------------------------------------------------------------------

/// A failed validate run: its counts and its issues.
#[derive(Debug)]
pub struct ValidateFailure {
    pub summary: ValidateReport,
    pub issues: Vec<ValidateIssue>,
}

/// The template paths of a list of issues.
pub open spec fn issue_paths(s: Seq<ValidateIssue>) -> Seq<Seq<char>> {
    s.map_values(|i: ValidateIssue| i.template_path@)
}

/// The number of distinct template paths among the issues.
fn distinct_paths(issues: &Vec<ValidateIssue>) -> (n: usize)
    ensures
        n == issue_paths(issues@).to_set().len(),
{
    let mut m: StrMap<bool> = StrMap::new();
    let mut i: usize = 0;
    while i < issues.len()
        invariant
            i <= issues@.len(),
            m@.dom() == issue_paths(issues@).take(i as int).to_set(),
        decreases issues@.len() - i,
    {
        m.insert(issues[i].template_path.clone(), true);
        proof {
            let ps = issue_paths(issues@);
            assert(ps[i as int] == issues@[i as int].template_path@);
            assert(ps.take(i + 1) =~= ps.take(i as int).push(ps[i as int]));
            ps.take(i as int).lemma_push_to_set_commute(ps[i as int]);
        }
        i = i + 1;
    }
    assert(issue_paths(issues@).take(i as int) =~= issue_paths(issues@));
    m.wf_facts();
    proof {
        m.key_seq().unique_seq_to_set();
    }
    m.len()
}

/// The result of a validate run that checked `templates_checked` templates:
/// its counts when there is no issue, else the counts (distinct templates
/// with issues, number of issues) and the issues themselves.
pub fn validate_outcome(templates_checked: usize, issues: Vec<ValidateIssue>) -> (r: Result<
    ValidateReport,
    ValidateFailure,
>)
    ensures
        issues@.len() == 0 ==> (r matches Ok(rep) && rep.templates_checked == templates_checked as u32
            && rep.templates_with_issues == 0 && rep.issue_count == 0),
        issues@.len() > 0 ==> (r matches Err(f) && f.issues@ == issues@ && f.summary.templates_checked
            == templates_checked as u32 && f.summary.templates_with_issues == issue_paths(
            issues@,
        ).to_set().len() as u32 && f.summary.issue_count == issues@.len() as u32),
{
    if issues.len() == 0 {
        return Ok(
            ValidateReport {
                templates_checked: templates_checked as u32,
                templates_with_issues: 0,
                issue_count: 0,
            },
        );
    }
    let with_issues = distinct_paths(&issues);
    let count = issues.len();
    Err(
        ValidateFailure {
            summary: ValidateReport {
                templates_checked: templates_checked as u32,
                templates_with_issues: with_issues as u32,
                issue_count: count as u32,
            },
            issues,
        },
    )
}

/// The failure a validate run reports: a template error whose message gives
/// the number of issues and of templates with issues, with the issues and
/// the summary (as JSON text, `issues_json` and `summary_json`) as details.
pub fn validation_failure_envelope(summary: &ValidateReport, issues_json: String, summary_json: String) -> (e:
    ErrorEnvelope)
    ensures
        e.is_kind(crate::error::Kind::TemplateError),
        e.msg@ == "template validation failed: "@ + decimal(summary.issue_count as nat) + " issue(s) in "@
            + decimal(summary.templates_with_issues as nat) + " template(s)"@,
        e.hint@.len() == 0,
        e.hint_args@.len() == 0,
        e.details@.dom() == set!["issues"@, "summary"@],
        detail_is_text(e.details@["issues"@], issues_json@),
        detail_is_text(e.details@["summary"@], summary_json@),
{
    let a = concat2("template validation failed: ", decimal_text(summary.issue_count as u64).as_str());
    let b = concat2(a.as_str(), " issue(s) in ");
    let c = concat2(b.as_str(), decimal_text(summary.templates_with_issues as u64).as_str());
    let msg = concat2(c.as_str(), " template(s)");
    let mut details: StrMap<Detail> = StrMap::new();
    details.insert(owned("issues"), Detail::Text(issues_json));
    details.insert(owned("summary"), Detail::Text(summary_json));
    proof {
        reveal_strlit("issues");
        reveal_strlit("summary");
        assert("issues"@[0] != "summary"@[0]);
        assert(details@.dom() =~= set!["issues"@, "summary"@]);
    }
    ErrorEnvelope::template_error_with_reason(msg, details, String::new())
}

/// The fields of the fixture entity templates are rendered with: a `Long`
/// primary key `id`, a `String` `email`, a nullable `LocalDateTime`
/// `created_at`.
pub fn validate_fixture_fields() -> (r: Vec<Field>)
    ensures
        r@.len() == 3,
        r@[0]@ == ("id"@, "Long"@, true, false),
        r@[1]@ == ("email"@, "String"@, false, false),
        r@[2]@ == ("created_at"@, "LocalDateTime"@, false, true),
{
    vec![
        Field { name: owned("id"), ty: owned("Long"), is_pk: true, nullable: false },
        Field { name: owned("email"), ty: owned("String"), is_pk: false, nullable: false },
        Field { name: owned("created_at"), ty: owned("LocalDateTime"), is_pk: false, nullable: true },
    ]
}

/// The exit code and success line of `validate`: 0 and "validate ok: N
/// templates" on success, else the failure's exit code (the failure itself
/// is reported on stderr).
pub fn run_validate(outcome: &Result<ValidateReport, ErrorEnvelope>) -> (r: (i32, Option<String>))
    ensures
        match outcome {
            Ok(rep) => r.0 == 0 && (r.1 matches Some(line) && line@ == "validate ok: "@
                + crate::text::decimal(rep.templates_checked as nat) + " templates"@),
            Err(e) => r.0 == e.exit_code && r.1 is None,
        },
{
    match outcome {
        Ok(rep) => {
            let n = crate::text::decimal_text(rep.templates_checked as u64);
            let a = concat2("validate ok: ", n.as_str());
            (0, Some(concat2(a.as_str(), " templates")))
        },
        Err(e) => (e.exit_code, None),
    }
}

/// Entering an `each` block never takes a name away: whatever is allowed
/// outside it stays allowed inside.
pub proof fn lemma_block_keeps_allowed(vars: Set<Seq<char>>, stack: Seq<Layer>, l: Layer, seg: Seq<char>)
    requires
        segment_allowed(vars, stack, seg),
    ensures
        segment_allowed(vars, stack.push(l), seg),
{
    assert forall|n: Seq<char>| allows(vars, stack, n) implies allows(vars, stack.push(l), n) by {
        if exists|i: int| 0 <= i < stack.len() && layer_allows(#[trigger] stack[i], n) {
            let i = choose|i: int| 0 <= i < stack.len() && layer_allows(#[trigger] stack[i], n);
            assert(stack.push(l)[i] == stack[i]);
        }
    }
}


/// The fixture render's outcome as validation reads it: the text, or the
/// message of the render failure.
pub open spec fn fixture_render(src: Seq<char>, data: Seq<char>) -> Result<Seq<char>, Seq<char>> {
    match hbs_render(src, data, binding_view(TypeMapBinding::passthrough_spec())) {
        Ok(s) => Ok(s),
        Err(m) => Err("template render failed: "@ + m),
    }
}

/// The validation issue of one template source: the compile's issue (a
/// syntax error, or the first unknown variable), else the issue of its
/// render with the fixture data `data_json`, if any.
pub fn validate_template(
    src: &str,
    vars: &StrMap<DataValue>,
    pool: &Vec<String>,
    rel: &str,
    data_json: &str,
) -> (r: Option<ValidateIssue>)
    ensures
        match hbs_compile(src@) {
            Err((pos, reason)) => r matches Some(i) && is_syntax_issue(i, rel@, pos, reason),
            Ok(es) => match walk_views(es, vars@.dom(), Seq::<Layer>::empty()) {
                Some(seg) => r matches Some(i) && is_unknown_variable_issue(i, rel@, seg, string_views(pool@)),
                None => render_issue_result(fixture_render(src@, data_json@), rel@, r),
            },
        },
{
    match template_issue(src, vars, pool, rel) {
        Some(i) => {
            return Some(i);
        },
        None => {},
    }
    let rendered = match render_template(src, data_json) {
        Ok(s) => Ok(s),
        Err(e) => Err(e.msg),
    };
    render_issue(&rendered, rel)
}


/// Every block's body is checked, whatever the block (`each`, `if`,
/// `unless`, `with`, ...): when the block's own call names nothing unknown,
/// it reports the first unknown name of its body, else of its `{{else}}`
/// part, under the layers the block opens.
pub proof fn lemma_block_body_checked(c: CallView, vars: Set<Seq<char>>, stack: Seq<Layer>)
    requires
        call_unknown(vars, stack, c) is None,
    ensures
        c.template is Some && walk_views(c.template->0, vars, inner_stack(c, stack)) is Some ==> walk_view(
            ElementView::Block(c),
            vars,
            stack,
        ) == walk_views(c.template->0, vars, inner_stack(c, stack)),
        (c.template is Some ==> walk_views(c.template->0, vars, inner_stack(c, stack)) is None) && c.inverse
            is Some ==> walk_view(ElementView::Block(c), vars, stack) == walk_views(
            c.inverse->0,
            vars,
            inner_stack(c, stack),
        ),
{
}

} // verus!
