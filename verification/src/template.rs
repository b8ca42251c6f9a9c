//! Filling Handlebars templates with named text values.

use vstd::prelude::*;

use crate::axiom_scalar_mul::entries_view;

verus! {

/// The text that Handlebars renders, in strict mode, from a template and
/// named values (a later value of a name replacing an earlier one); `None`
/// when the template does not parse or uses a name that has no value.
pub uninterp spec fn handlebars_strict_render(template: Seq<char>, data: Seq<(Seq<char>, Seq<char>)>) -> Option<
    Seq<char>,
>;

/// Calls `Handlebars::render_template` of the handlebars crate on a registry
/// in strict mode, with the values as an ordered map from name to text. The
/// contract claims that the call succeeds exactly when the named result is
/// `Some`, and then returns that text; what the text is, is left to the name.
#[verifier::external_body]
pub(crate) fn render_strict(template: &str, data: &Vec<(String, String)>) -> (r: Option<String>)
    ensures
        r is Some <==> handlebars_strict_render(template@, entries_view(data@)) is Some,
        r matches Some(s) ==> handlebars_strict_render(template@, entries_view(data@)) == Some(s@),
{
    let mut registry = handlebars::Handlebars::new();
    registry.set_strict_mode(true);
    let values: std::collections::BTreeMap<&str, &str> = data.iter().map(|(k, v)| (k.as_str(), v.as_str())).collect();
    registry.render_template(template, &values).ok()
}

} // verus!
