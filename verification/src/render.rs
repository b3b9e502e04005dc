//! The question-pattern renderer, treated as a deterministic black box.

use crate::error::Error;
use vstd::prelude::*;

verus! {

/// What the renderer produces for `pattern` when each field `names[i]` is
/// bound to `values[i]`: the rendered text, or the parse error's message
/// when the pattern cannot be parsed. The result is a function of the
/// arguments alone, so two calls on equal inputs agree, failures included.
pub uninterp spec fn spec_render(
    pattern: Seq<char>,
    names: Seq<Seq<char>>,
    values: Seq<Seq<char>>,
) -> Result<Seq<char>, Seq<char>>;

/// Renders `pattern` with each `names[i]` bound to `values[i]`.
///
/// Relies on ramhorns: `Template::new` parses the pattern, failing exactly on
/// malformed markup (a property of the pattern alone), and `Template::render`
/// renders it against a map of bindings, deterministically and without side
/// effects.
#[verifier::external_body]
pub(crate) fn render_pattern(pattern: &str, names: &Vec<String>, values: &Vec<String>) -> (r:
    Result<String, Error>)
    requires
        names@.len() == values@.len(),
    ensures
        match r {
            Ok(s) => spec_render(pattern@, names.deep_view(), values.deep_view()) == Ok::<
                Seq<char>,
                Seq<char>,
            >(s@),
            Err(e) => {
                &&& spec_render(pattern@, names.deep_view(), values.deep_view()) matches Err(m)
                    && e matches Error::Template(msg) && msg@ == m
            },
        },
{
    let tpl = match ramhorns::Template::new(pattern.to_string()) {
        Ok(t) => t,
        Err(e) => return Err(Error::Template(format!("{}", e))),
    };
    let mut map = std::collections::HashMap::new();
    for (n, v) in names.iter().zip(values.iter()) {
        map.insert(n.as_str(), v.clone());
    }
    Ok(tpl.render(&map))
}

} // verus!
