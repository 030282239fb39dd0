//! What the render helpers compute: `ty_map` through the bound type map and
//! fallback, and the MyBatis / Vue parameter wrappers.

use vstd::prelude::*;

use crate::casing::{camel_case, kebab_case, pascal_case, snake_case, to_camel, to_kebab, to_pascal, to_snake};
use crate::error::{ErrorEnvelope, Kind};
use crate::strmap::{StrMap, text_view};
use crate::text::{concat2, owned};
use crate::type_map::{Fallback, resolve};
use handlebars::{Context, Handlebars, Helper, HelperResult, Output, RenderContext, RenderErrorReason};

verus! {

/// The type map a render's `ty_map` helper is bound to.
#[derive(Debug)]
pub struct TypeMapBinding {
    pub bundle: Option<String>,
    pub map: Option<StrMap<String>>,
    pub fallback: Fallback,
}

impl TypeMapBinding {
    pub open spec fn passthrough_spec() -> TypeMapBinding {
        TypeMapBinding { bundle: None, map: None, fallback: Fallback::Passthrough }
    }

    /// No bundle, no map, passthrough: every type renders unchanged.
    pub fn passthrough() -> (b: TypeMapBinding)
        ensures
            b.bundle is None,
            b.map is None,
            b.fallback is Passthrough,
    {
        TypeMapBinding { bundle: None, map: None, fallback: Fallback::Passthrough }
    }
}

/// `value` as a MyBatis placeholder: `#{value}`.
pub fn wrap_mybatis_param(value: &str) -> (r: String)
    ensures
        r@ == "#{"@ + value@ + "}"@,
{
    let a = concat2("#{", value);
    concat2(a.as_str(), "}")
}

/// `value` as a Vue interpolation: `{{value}}`.
pub fn wrap_vue_param(value: &str) -> (r: String)
    ensures
        r@ == "{{"@ + value@ + "}}"@,
{
    let a = concat2("{{", value);
    concat2(a.as_str(), "}}")
}

/// The one-argument text helpers templates can call.
#[derive(Debug, Clone, Copy, PartialEq, Eq, Structural)]
pub enum TextHelper {
    /// `pascal_case`
    Pascal,
    /// `snake_case`
    Snake,
    /// `camel_case`
    Camel,
    /// `kebab_case`
    Kebab,
    /// `mybatis_param`
    MybatisParam,
    /// `vue_param`
    VueParam,
}

/// The name a text helper is registered under.
pub open spec fn helper_name(h: TextHelper) -> Seq<char> {
    match h {
        TextHelper::Pascal => "pascal_case"@,
        TextHelper::Snake => "snake_case"@,
        TextHelper::Camel => "camel_case"@,
        TextHelper::Kebab => "kebab_case"@,
        TextHelper::MybatisParam => "mybatis_param"@,
        TextHelper::VueParam => "vue_param"@,
    }
}

impl TextHelper {
    /// The name the helper is registered under.
    pub fn name(self) -> (r: &'static str)
        ensures
            r@ == helper_name(self),
    {
        match self {
            TextHelper::Pascal => "pascal_case",
            TextHelper::Snake => "snake_case",
            TextHelper::Camel => "camel_case",
            TextHelper::Kebab => "kebab_case",
            TextHelper::MybatisParam => "mybatis_param",
            TextHelper::VueParam => "vue_param",
        }
    }
}

/// Every text helper, in registration order.
pub fn text_helpers() -> (r: Vec<TextHelper>)
    ensures
        r@ == seq![
            TextHelper::Pascal,
            TextHelper::Snake,
            TextHelper::Camel,
            TextHelper::Kebab,
            TextHelper::MybatisParam,
            TextHelper::VueParam,
        ],
{
    let r = vec![
        TextHelper::Pascal,
        TextHelper::Snake,
        TextHelper::Camel,
        TextHelper::Kebab,
        TextHelper::MybatisParam,
        TextHelper::VueParam,
    ];
    assert(r@ =~= seq![
        TextHelper::Pascal,
        TextHelper::Snake,
        TextHelper::Camel,
        TextHelper::Kebab,
        TextHelper::MybatisParam,
        TextHelper::VueParam,
    ]);
    r
}

/// What a text helper writes for its argument.
pub open spec fn text_helper_output(h: TextHelper, value: Seq<char>) -> Seq<char> {
    match h {
        TextHelper::Pascal => pascal_case(value),
        TextHelper::Snake => snake_case(value),
        TextHelper::Camel => camel_case(value),
        TextHelper::Kebab => kebab_case(value),
        TextHelper::MybatisParam => "#{"@ + value + "}"@,
        TextHelper::VueParam => "{{"@ + value + "}}"@,
    }
}

/// Applies a text helper to its argument.
pub fn apply_text_helper(h: TextHelper, value: &str) -> (r: String)
    ensures
        r@ == text_helper_output(h, value@),
{
    match h {
        TextHelper::Pascal => to_pascal(value),
        TextHelper::Snake => to_snake(value),
        TextHelper::Camel => to_camel(value),
        TextHelper::Kebab => to_kebab(value),
        TextHelper::MybatisParam => wrap_mybatis_param(value),
        TextHelper::VueParam => wrap_vue_param(value),
    }
}

/// What `{{ty_map t}}` writes for the type `ty`: the bound map's entry, else
/// the fallback; an unmapped type under the `error` fallback fails the
/// render with the lookup's message.
pub fn ty_map_value(binding: &TypeMapBinding, ty: &str) -> (r: Result<String, String>)
    ensures
        match binding.map {
            Some(m) if m@.contains_key(ty@) => r matches Ok(s) && s@ == m@[ty@]@,
            _ => match binding.fallback {
                Fallback::Passthrough => r matches Ok(s) && s@ == ty@,
                Fallback::Literal(l) => r matches Ok(s) && s@ == l@,
                Fallback::Error => r matches Err(m) && m@ == "unmapped type: "@ + ty@,
            },
        },
{
    let bundle = match &binding.bundle {
        Some(b) => Some(b.as_str()),
        None => None,
    };
    let map = match &binding.map {
        Some(m) => Some(m),
        None => None,
    };
    match resolve(bundle, map, ty, &binding.fallback) {
        Ok(s) => Ok(s),
        Err(e) => Err(e.msg),
    }
}

/// The render failure of a `ty_map` call without its type argument.
pub fn ty_map_missing_argument() -> (m: String)
    ensures
        m@ == "ty_map: missing type argument"@,
{
    owned("ty_map: missing type argument")
}

/// The render failure of a `ty_map` argument that is not a string
/// (`shown`: the argument as JSON text).
pub fn ty_map_not_a_string(shown: &str) -> (m: String)
    ensures
        m@ == "ty_map: expected string, got "@ + shown@,
{
    concat2("ty_map: expected string, got ", shown)
}

/// `e` is the failure of a render whose message is `m`.
pub open spec fn is_render_failure(e: ErrorEnvelope, m: Seq<char>) -> bool {
    &&& e.is_kind(Kind::TemplateError)
    &&& e.msg@ == "template render failed: "@ + m
    &&& e.hint@.len() == 0
    &&& e.details@ == Map::<Seq<char>, crate::error::Detail>::empty()
}

/// The failure of a render, with the renderer's message.
pub fn render_failed(error: &str) -> (e: ErrorEnvelope)
    ensures
        is_render_failure(e, error@),
{
    ErrorEnvelope::template_error(concat2("template render failed: ", error))
}

// ---------------------------------------------------------------------------
// Rendering
// ---------------------------------------------------------------------------

/// A type-map fallback as plain values.
pub enum FallbackView {
    Passthrough,
    Error,
    Literal(Seq<char>),
}

/// A type-map binding as plain values.
pub struct BindingView {
    pub bundle: Option<Seq<char>>,
    pub map: Option<Map<Seq<char>, Seq<char>>>,
    pub fallback: FallbackView,
}

pub open spec fn binding_view(b: TypeMapBinding) -> BindingView {
    BindingView {
        bundle: match b.bundle {
            Some(x) => Some(x@),
            None => None,
        },
        map: match b.map {
            Some(m) => Some(text_view(m@)),
            None => None,
        },
        fallback: match b.fallback {
            Fallback::Passthrough => FallbackView::Passthrough,
            Fallback::Error => FallbackView::Error,
            Fallback::Literal(l) => FallbackView::Literal(l@),
        },
    }
}

/// A copy of a binding.
pub fn copy_binding(b: &TypeMapBinding) -> (r: TypeMapBinding)
    ensures
        binding_view(r) == binding_view(*b),
{
    let bundle = match &b.bundle {
        Some(x) => Some(x.clone()),
        None => None,
    };
    let map = match &b.map {
        Some(m) => Some(m.dup()),
        None => None,
    };
    let fallback = match &b.fallback {
        Fallback::Passthrough => Fallback::Passthrough,
        Fallback::Error => Fallback::Error,
        Fallback::Literal(l) => Fallback::Literal(l.clone()),
    };
    TypeMapBinding { bundle, map, fallback }
}

/// The argument a helper was called with: none, a string, or another JSON
/// value (as its JSON text).
pub enum HelperArg {
    Missing,
    Text(String),
    Other(String),
}

/// The name the template engine reports for a text helper.
pub open spec fn helper_label(h: TextHelper) -> Seq<char> {
    match h {
        TextHelper::Pascal => "PascalCaseHelper"@,
        TextHelper::Snake => "SnakeCaseHelper"@,
        TextHelper::Camel => "CamelCaseHelper"@,
        TextHelper::Kebab => "KebabCaseHelper"@,
        TextHelper::MybatisParam => "MybatisParamHelper"@,
        TextHelper::VueParam => "VueParamHelper"@,
    }
}

fn helper_label_exec(h: TextHelper) -> (r: &'static str)
    ensures
        r@ == helper_label(h),
{
    match h {
        TextHelper::Pascal => "PascalCaseHelper",
        TextHelper::Snake => "SnakeCaseHelper",
        TextHelper::Camel => "CamelCaseHelper",
        TextHelper::Kebab => "KebabCaseHelper",
        TextHelper::MybatisParam => "MybatisParamHelper",
        TextHelper::VueParam => "VueParamHelper",
    }
}

/// What a call of a text helper writes, or the failure it reports: the
/// helper's output for a string argument; for a missing argument, or one
/// that is not a string, the engine's parameter failures for its argument `v`.
pub open spec fn text_helper_outcome(h: TextHelper, arg: HelperArg) -> Result<Seq<char>, Seq<char>> {
    match arg {
        HelperArg::Text(v) => Ok(text_helper_output(h, v@)),
        HelperArg::Missing => Err("Helper/Decorator "@ + helper_label(h) + " param with name v required but not found"@),
        HelperArg::Other(_) => Err("Helper/Decorator "@ + helper_label(h) + " param with name v type mismatch for str"@),
    }
}

/// A call of a text helper.
pub fn text_helper_call(h: TextHelper, arg: HelperArg) -> (r: Result<String, String>)
    ensures
        match text_helper_outcome(h, arg) {
            Ok(s) => r matches Ok(t) && t@ == s,
            Err(m) => r matches Err(t) && t@ == m,
        },
{
    match arg {
        HelperArg::Text(v) => Ok(apply_text_helper(h, v.as_str())),
        HelperArg::Missing => {
            let a = concat2("Helper/Decorator ", helper_label_exec(h));
            Err(concat2(a.as_str(), " param with name v required but not found"))
        },
        HelperArg::Other(_) => {
            let a = concat2("Helper/Decorator ", helper_label_exec(h));
            Err(concat2(a.as_str(), " param with name v type mismatch for str"))
        },
    }
}

/// What `{{ty_map t}}` writes for the type `ty`, or its failure.
pub open spec fn ty_map_outcome(b: TypeMapBinding, ty: Seq<char>) -> Result<Seq<char>, Seq<char>> {
    match b.map {
        Some(m) if m@.contains_key(ty) => Ok(m@[ty]@),
        _ => match b.fallback {
            Fallback::Passthrough => Ok(ty),
            Fallback::Literal(l) => Ok(l@),
            Fallback::Error => Err("unmapped type: "@ + ty),
        },
    }
}

/// A call of `ty_map`: a missing argument, or one that is not a string,
/// fails; a string resolves through the binding.
pub fn ty_map_call(b: &TypeMapBinding, arg: HelperArg) -> (r: Result<String, String>)
    ensures
        match arg {
            HelperArg::Missing => r matches Err(m) && m@ == "ty_map: missing type argument"@,
            HelperArg::Other(shown) => r matches Err(m) && m@ == "ty_map: expected string, got "@ + shown@,
            HelperArg::Text(t) => match ty_map_outcome(*b, t@) {
                Ok(s) => r matches Ok(x) && x@ == s,
                Err(m) => r matches Err(x) && x@ == m,
            },
        },
{
    match arg {
        HelperArg::Missing => Err(ty_map_missing_argument()),
        HelperArg::Other(shown) => Err(ty_map_not_a_string(shown.as_str())),
        HelperArg::Text(t) => ty_map_value(b, t.as_str()),
    }
}

#[verifier::external_type_specification]
#[verifier::external_body]
pub struct ExHandlebars<'reg>(Handlebars<'reg>);

#[verifier::external_type_specification]
#[verifier::external_body]
pub struct ExJsonValue(serde_json::Value);

/// A helper's JSON argument as a `HelperArg`: a string as its text, any
/// other value as its JSON text.
#[verifier::external_body]
fn hb_arg(v: Option<&serde_json::Value>) -> HelperArg {
    match v {
        None => HelperArg::Missing,
        Some(serde_json::Value::String(s)) => HelperArg::Text(s.clone()),
        Some(x @ serde_json::Value::Null) => HelperArg::Other(x.to_string()),
        Some(x @ serde_json::Value::Bool(_)) => HelperArg::Other(x.to_string()),
        Some(x @ serde_json::Value::Number(_)) => HelperArg::Other(x.to_string()),
        Some(x @ serde_json::Value::Array(_)) => HelperArg::Other(x.to_string()),
        Some(x @ serde_json::Value::Object(_)) => HelperArg::Other(x.to_string()),
    }
}

/// `Handlebars::register_helper` of a text helper under its name, the call
/// handed to `text_helper_call`.
#[verifier::external_body]
fn register_text_helper(e: &mut Handlebars<'static>, h: TextHelper) {
    e.register_helper(h.name(), Box::new(move |hp: &Helper, _: &Handlebars, _: &Context, _: &mut RenderContext, out: &mut dyn Output| -> HelperResult {
        let text = text_helper_call(h, hb_arg(hp.param(0).map(|p| p.value()))).map_err(RenderErrorReason::Other)?;
        out.write(&text)?;
        Ok(())
    }));
}

/// `Handlebars::register_helper` of `ty_map`, the call handed to
/// `ty_map_call` with `binding`.
#[verifier::external_body]
fn register_ty_map(e: &mut Handlebars<'static>, binding: TypeMapBinding) {
    e.register_helper("ty_map", Box::new(move |hp: &Helper, _: &Handlebars, _: &Context, _: &mut RenderContext, out: &mut dyn Output| -> HelperResult {
        let text = ty_map_call(&binding, hb_arg(hp.param(0).map(|p| p.value()))).map_err(RenderErrorReason::Other)?;
        out.write(&text)?;
        Ok(())
    }));
}

/// A Handlebars registry without HTML escaping (`no_escape`), with the
/// text helpers and `ty_map` bound to `binding`.
#[verifier::external_body]
fn hb_engine(binding: &TypeMapBinding) -> Handlebars<'static> {
    let mut e = Handlebars::new();
    e.register_escape_fn(handlebars::no_escape);
    for h in text_helpers() {
        register_text_helper(&mut e, h);
    }
    register_ty_map(&mut e, copy_binding(binding));
    e
}

/// What rendering `template` with the JSON data `data_json` gives on the
/// engine with the helpers bound to `binding`: the text, or the message of
/// the failure (that of the JSON parse when `data_json` is not JSON).
pub uninterp spec fn hbs_render(template: Seq<char>, data_json: Seq<char>, binding: BindingView) -> Result<
    Seq<char>,
    Seq<char>,
>;

/// `serde_json::from_str` of the data, then `Handlebars::render_template`
/// on `hb_engine(binding)`. Claims: the outcome, text or message, is
/// `hbs_render` of the template, the data text and the binding's plain
/// values.
#[verifier::external_body]
fn render_text(template: &str, data_json: &str, binding: &TypeMapBinding) -> (r: Result<String, String>)
    ensures
        match r {
            Ok(s) => hbs_render(template@, data_json@, binding_view(*binding)) == Ok::<Seq<char>, Seq<char>>(s@),
            Err(m) => hbs_render(template@, data_json@, binding_view(*binding)) == Err::<Seq<char>, Seq<char>>(m@),
        },
{
    match serde_json::from_str::<serde_json::Value>(data_json) {
        Ok(data) => hb_engine(binding).render_template(template, &data).map_err(|e| e.to_string()),
        Err(e) => Err(e.to_string()),
    }
}

/// `r` is the outcome `o` of a render: its text, or the render failure.
pub open spec fn render_result(o: Result<Seq<char>, Seq<char>>, r: Result<String, ErrorEnvelope>) -> bool {
    match o {
        Ok(s) => r matches Ok(t) && t@ == s,
        Err(m) => r matches Err(e) && is_render_failure(e, m),
    }
}

/// Renders `template` with the JSON data `data_json`, `ty_map` bound to
/// `binding`; a failure is a template error carrying the engine's message.
pub fn render_template_with_type_map(template: &str, data_json: &str, binding: &TypeMapBinding) -> (r: Result<
    String,
    ErrorEnvelope,
>)
    ensures
        render_result(hbs_render(template@, data_json@, binding_view(*binding)), r),
{
    match render_text(template, data_json, binding) {
        Ok(s) => Ok(s),
        Err(m) => Err(render_failed(m.as_str())),
    }
}

/// Renders `template` with `data_json`, `ty_map` passing types through.
pub fn render_template(template: &str, data_json: &str) -> (r: Result<String, ErrorEnvelope>)
    ensures
        render_result(hbs_render(template@, data_json@, binding_view(TypeMapBinding::passthrough_spec())), r),
{
    let b = TypeMapBinding::passthrough();
    assert(binding_view(b) == binding_view(TypeMapBinding::passthrough_spec()));
    render_template_with_type_map(template, data_json, &b)
}

} // verus!
