//! The page-template capability.  A template is a single HTML skeleton
//! accepting two named string substitutions, `title` and `content`; its
//! expansion is delegated to the handlebars engine and is a pure function of
//! the template text and the two values.

use vstd::prelude::*;

verus! {

/// The expansion of template text `tpl` by the handlebars engine, with data
/// `{"title": title, "content": content}` and a default-configured registry.
/// The engine is deterministic: the result depends on these three texts alone.
pub uninterp spec fn expand_of(tpl: Seq<char>, title: Seq<char>, content: Seq<char>) -> Seq<char>;

/// Whether that same expansion succeeds.  The engine reports failure (a
/// malformed template, a failing substitution) through its result, and, like
/// the expansion itself, success is a function of the three texts alone.
pub uninterp spec fn expand_ok_of(tpl: Seq<char>, title: Seq<char>, content: Seq<char>) -> bool;

#[verifier::external_type_specification]
#[verifier::external_body]
pub struct ExRenderError(handlebars::RenderError);

/// Relies on `handlebars::Handlebars::render_template`, called on a registry
/// freshly built by `handlebars::Handlebars::new`, over the data map
/// `{"title": title, "content": content}`: whether the call succeeds, and on
/// success the result — the expansion of the template with the two values
/// substituted — are both functions of the three texts alone, since a fresh
/// default registry carries nothing else into the call.
#[verifier::external_body]
fn hbs_expand(tpl: &str, title: &str, content: &str) -> (r: Result<String, handlebars::RenderError>)
    ensures
        r is Ok <==> expand_ok_of(tpl@, title@, content@),
        r matches Ok(s) ==> s@ == expand_of(tpl@, title@, content@),
{
    let mut data = std::collections::BTreeMap::new();
    data.insert("title", title);
    data.insert("content", content);
    handlebars::Handlebars::new().render_template(tpl, &data)
}

/// The pipeline's failure mode: template expansion is the only fallible step
/// of the verified core; every other failure is an I/O concern of the caller.
#[derive(Clone, Copy, PartialEq, Eq, Structural, Debug)]
pub enum PipelineError {
    TemplateExpansion,
}

/// Expand a template with the given `title` and `content` values.  The call
/// succeeds exactly when the engine does, and then the result is exactly the
/// engine's expansion; any engine failure is reported as `TemplateExpansion`.
pub fn expand(tpl: &str, title: &str, content: &str) -> (r: Result<String, PipelineError>)
    ensures
        r is Ok <==> expand_ok_of(tpl@, title@, content@),
        r matches Ok(s) ==> s@ == expand_of(tpl@, title@, content@),
        r is Err ==> r == Err::<String, PipelineError>(PipelineError::TemplateExpansion),
{
    match hbs_expand(tpl, title, content) {
        Ok(s) => Ok(s),
        Err(_) => Err(PipelineError::TemplateExpansion),
    }
}

} // verus!
