//! Template rendering for contract sources, built on the tera templating
//! engine. The engine is constructed once over a fixed set of named
//! template sources (read from disk by the host) and is immutable
//! afterwards; the set of valid template names is kept beside it, so the
//! not-found check is explicit and precedes rendering. The parameter
//! context handed to the renderer is built by verified code whose contract
//! pins its contents; a caller with parameters beyond the typed model may
//! hand in a prepared context instead.

use vstd::prelude::*;
use vstd::string::StringExecFns;
use crate::chars::str_eq;
use crate::chars::string_views;

verus! {

#[verifier::external_type_specification]
#[verifier::external_body]
pub struct ExTera(tera::Tera);

#[verifier::external_type_specification]
#[verifier::external_body]
pub struct ExTeraContext(tera::Context);

#[verifier::external_type_specification]
#[verifier::external_body]
pub struct ExTeraError(tera::Error);

/// Error taxonomy of the render stage.
pub enum TemplateError {
    /// Engine construction failed: a template did not parse.
    InitError(String),
    /// The requested template is not among the loaded set.
    TemplateNotFound(String),
    /// Parameter substitution could not complete; carries the underlying
    /// engine diagnostic.
    RenderError(String),
}

/// One parameter value for a render call.
pub enum ParamValue {
    Text(String),
    UInt(u64),
    Int(i64),
    Flag(bool),
}

/// A named parameter for a render call.
pub struct TemplateParam {
    pub key: String,
    pub value: ParamValue,
}

/// A parameter value as the context stores it. The context keeps numbers
/// in one numeric store, so unsigned and signed parameters both appear as
/// `Num`.
pub enum ParamView {
    Text(Seq<char>),
    Num(int),
    Flag(bool),
}

/// How a typed parameter value lands in the context.
pub open spec fn param_view(p: ParamValue) -> ParamView {
    match p {
        ParamValue::Text(s) => ParamView::Text(s@),
        ParamValue::UInt(v) => ParamView::Num(v as int),
        ParamValue::Int(v) => ParamView::Num(v as int),
        ParamValue::Flag(b) => ParamView::Flag(b),
    }
}

/// The views of a list of named template sources.
pub open spec fn pair_views(v: Seq<(String, String)>) -> Seq<(Seq<char>, Seq<char>)> {
    v.map_values(|p: (String, String)| (p.0@, p.1@))
}

/// Whether tera accepts the whole list of named template sources; the
/// verdict depends on the (name, content) list alone.
pub uninterp spec fn templates_parse(templates: Seq<(Seq<char>, Seq<char>)>) -> bool;

/// Relies on tera's `Tera::default` and `Tera::add_raw_templates`: a fresh
/// engine loaded with the whole list in one call, which succeeds exactly
/// when the list parses (each template's syntax, inheritance chains and
/// macro files).
#[verifier::external_body]
fn tera_from_raw_templates(templates: &Vec<(String, String)>) -> (r: Result<
    tera::Tera,
    tera::Error,
>)
    ensures
        r is Ok <==> templates_parse(pair_views(templates@)),
{
    let mut t = tera::Tera::default();
    match t.add_raw_templates(templates.iter().map(|p| (p.0.as_str(), p.1.as_str()))) {
        Ok(()) => Ok(t),
        Err(e) => Err(e),
    }
}

/// Relies on tera's `Tera::render`: renders a loaded template against a
/// context of parameter values.
#[verifier::external_body]
fn tera_render(t: &tera::Tera, name: &str, ctx: &tera::Context) -> Result<String, tera::Error> {
    t.render(name, ctx)
}

/// Relies on tera's `Error` Display implementation for diagnostic text.
#[verifier::external_body]
fn tera_error_text(e: &tera::Error) -> String {
    format!("{}", e)
}

/// What a context holds: the parameter value stored under each key.
pub uninterp spec fn ctx_map(c: tera::Context) -> Map<Seq<char>, ParamView>;

/// The contents of a context with nothing inserted.
pub open spec fn no_params() -> Map<Seq<char>, ParamView> {
    Map::empty()
}

/// Relies on tera's `Context::new`: an empty context.
#[verifier::external_body]
fn context_new() -> (c: tera::Context)
    ensures
        ctx_map(c) == no_params(),
{
    tera::Context::new()
}

/// Relies on tera's `Context::insert` for a string value: stores it under
/// the key, replacing any previous value.
#[verifier::external_body]
fn context_insert_str(c: &mut tera::Context, key: &str, value: &str)
    ensures
        ctx_map(*final(c)) == ctx_map(*old(c)).insert(key@, ParamView::Text(value@)),
{
    c.insert(key, value);
}

/// Relies on tera's `Context::insert` for an unsigned value.
#[verifier::external_body]
fn context_insert_u64(c: &mut tera::Context, key: &str, value: u64)
    ensures
        ctx_map(*final(c)) == ctx_map(*old(c)).insert(key@, ParamView::Num(value as int)),
{
    c.insert(key, &value);
}

/// Relies on tera's `Context::insert` for a signed value.
#[verifier::external_body]
fn context_insert_i64(c: &mut tera::Context, key: &str, value: i64)
    ensures
        ctx_map(*final(c)) == ctx_map(*old(c)).insert(key@, ParamView::Num(value as int)),
{
    c.insert(key, &value);
}

/// Relies on tera's `Context::insert` for a boolean value.
#[verifier::external_body]
fn context_insert_bool(c: &mut tera::Context, key: &str, value: bool)
    ensures
        ctx_map(*final(c)) == ctx_map(*old(c)).insert(key@, ParamView::Flag(value)),
{
    c.insert(key, &value);
}

/// What the context of a parameter list holds: each parameter stored under
/// its key, in order, a later value replacing an earlier one under the
/// same key.
pub open spec fn params_map_spec(ps: Seq<TemplateParam>) -> Map<Seq<char>, ParamView>
    decreases ps.len(),
{
    if ps.len() == 0 {
        no_params()
    } else {
        params_map_spec(ps.drop_last()).insert(ps.last().key@, param_view(ps.last().value))
    }
}

/// Builds the render context for a typed parameter list: the context holds
/// exactly those parameters.
pub fn build_context(params: &Vec<TemplateParam>) -> (c: tera::Context)
    ensures
        ctx_map(c) == params_map_spec(params@),
{
    let mut ctx = context_new();
    let mut i: usize = 0;
    proof {
        assert(params@.subrange(0, 0) =~= Seq::<TemplateParam>::empty());
    }
    while i < params.len()
        invariant
            0 <= i <= params@.len(),
            ctx_map(ctx) == params_map_spec(params@.subrange(0, i as int)),
        decreases params@.len() - i,
    {
        let p = &params[i];
        match &p.value {
            ParamValue::Text(s) => context_insert_str(&mut ctx, p.key.as_str(), s.as_str()),
            ParamValue::UInt(v) => context_insert_u64(&mut ctx, p.key.as_str(), *v),
            ParamValue::Int(v) => context_insert_i64(&mut ctx, p.key.as_str(), *v),
            ParamValue::Flag(v) => context_insert_bool(&mut ctx, p.key.as_str(), *v),
        }
        proof {
            assert(params@.subrange(0, i + 1).drop_last() =~= params@.subrange(0, i as int));
            assert(params@.subrange(0, i + 1).last() == params@[i as int]);
        }
        i = i + 1;
    }
    proof {
        assert(params@.subrange(0, params@.len() as int) =~= params@);
    }
    ctx
}

/// Renders contract-source templates. Loaded once at construction and
/// immutable afterwards; safe to call repeatedly with different parameter
/// sets.
pub struct SolTemplateEngine {
    tera: tera::Tera,
    names: Vec<String>,
}

impl SolTemplateEngine {
    /// The names of the loaded templates.
    pub closed spec fn template_names(&self) -> Seq<Seq<char>> {
        string_views(self.names@)
    }

    /// Builds an engine over named template sources, handed in by the host
    /// after scanning the template directory. Succeeds exactly when the
    /// whole list parses; fails fast, with the engine diagnostic, when a
    /// template does not.
    pub fn new(templates: Vec<(String, String)>) -> (r: Result<SolTemplateEngine, TemplateError>)
        ensures
            r is Ok <==> templates_parse(pair_views(templates@)),
            (r matches Ok(e) ==> e.template_names().len() == templates@.len()),
            (r matches Ok(e) ==> forall|k: int|
                0 <= k < templates@.len() ==> e.template_names()[k] == templates@[k].0@),
            (r matches Err(e) ==> e is InitError),
    {
        let t = match tera_from_raw_templates(&templates) {
            Ok(t) => t,
            Err(e) => {
                return Err(TemplateError::InitError(tera_error_text(&e)));
            },
        };
        let mut names: Vec<String> = Vec::new();
        let mut i: usize = 0;
        while i < templates.len()
            invariant
                0 <= i <= templates@.len(),
                names@.len() == i,
                forall|k: int| 0 <= k < i ==> names@[k]@ == templates@[k].0@,
            decreases templates@.len() - i,
        {
            names.push(templates[i].0.clone());
            i = i + 1;
        }
        let engine = SolTemplateEngine { tera: t, names };
        proof {
            assert(forall|k: int|
                0 <= k < templates@.len() ==> engine.template_names()[k] == templates@[k].0@);
        }
        Ok(engine)
    }

    /// Whether a template name is among the loaded set.
    pub fn has_template(&self, template_name: &str) -> (b: bool)
        ensures
            b == self.template_names().contains(template_name@),
    {
        let mut i: usize = 0;
        while i < self.names.len()
            invariant
                0 <= i <= self.names@.len(),
                forall|k: int| 0 <= k < i ==> self.names@[k]@ != template_name@,
            decreases self.names@.len() - i,
        {
            if str_eq(self.names[i].as_str(), template_name) {
                proof {
                    assert(self.template_names()[i as int] == template_name@);
                }
                return true;
            }
            i = i + 1;
        }
        proof {
            assert forall|k: int| 0 <= k < self.template_names().len() implies self
                .template_names()[k] != template_name@ by {
                assert(self.template_names()[k] == self.names@[k]@);
            }
        }
        false
    }

    /// Renders a loaded template against a prepared context, which may
    /// carry parameters beyond the typed model (arbitrary structured
    /// values serialized by the host). The not-found check is explicit and
    /// precedes rendering, so an unknown name is reported as
    /// `TemplateNotFound` and never as an evaluation error; for a loaded
    /// template the result is the rendered source, or `RenderError` with
    /// the engine's diagnostic when substitution cannot complete.
    pub fn render_template_with_context(&self, template_name: &str, ctx: &tera::Context) -> (r:
        Result<String, TemplateError>)
        ensures
            (!self.template_names().contains(template_name@) ==> (r matches Err(
                TemplateError::TemplateNotFound(m),
            ) && m@ == template_name@)),
            (self.template_names().contains(template_name@) ==> (r matches Ok(_) || r matches Err(
                TemplateError::RenderError(_),
            ))),
    {
        if !self.has_template(template_name) {
            return Err(TemplateError::TemplateNotFound(String::from_str(template_name)));
        }
        match tera_render(&self.tera, template_name, ctx) {
            Ok(s) => Ok(s),
            Err(e) => Err(TemplateError::RenderError(tera_error_text(&e))),
        }
    }

    /// Renders a template with the given typed parameters: the context
    /// handed to the renderer holds exactly those parameters, and the
    /// outcome is shaped as in `render_template_with_context`.
    pub fn render_template(&self, template_name: &str, params: &Vec<TemplateParam>) -> (r: Result<
        String,
        TemplateError,
    >)
        ensures
            (!self.template_names().contains(template_name@) ==> (r matches Err(
                TemplateError::TemplateNotFound(m),
            ) && m@ == template_name@)),
            (self.template_names().contains(template_name@) ==> (r matches Ok(_) || r matches Err(
                TemplateError::RenderError(_),
            ))),
    {
        let ctx = build_context(params);
        proof {
            assert(ctx_map(ctx) == params_map_spec(params@));
        }
        self.render_template_with_context(template_name, &ctx)
    }
}

} // verus!
