//! Rendering of `{key}` templates through the leon template engine.

use vstd::prelude::*;

verus! {

/// leon's error for a text that is not a template; carried, never inspected.
#[verifier::external_type_specification]
#[verifier::external_body]
pub struct ExParseError(leon::ParseError);

/// leon's error for a template that could not be rendered; carried, never inspected.
#[verifier::external_type_specification]
#[verifier::external_body]
pub struct ExRenderError(leon::RenderError);

/// The keys that leon reads in `pattern`, in order of appearance, or `None`
/// where leon does not accept `pattern` as a template.
pub uninterp spec fn template_keys_of(pattern: Seq<char>) -> Option<Seq<Seq<char>>>;

/// What leon renders from `pattern` with the given key/value pairs.
pub uninterp spec fn rendered_of(pattern: Seq<char>, values: Seq<(Seq<char>, Seq<char>)>) -> Seq<
    char,
>;

pub open spec fn string_views(s: Seq<String>) -> Seq<Seq<char>> {
    s.map_values(|x: String| x@)
}

pub open spec fn pair_views(s: Seq<(String, String)>) -> Seq<(Seq<char>, Seq<char>)> {
    s.map_values(|p: (String, String)| (p.0@, p.1@))
}

/// Whether some pair of `values` has `key` as its key.
pub open spec fn has_value(values: Seq<(Seq<char>, Seq<char>)>, key: Seq<char>) -> bool {
    exists|j: int| 0 <= j < values.len() && (#[trigger] values[j]).0 == key
}

/// Relies on `leon::Template::parse` and `Template::keys`: the keys of the
/// template in order, or leon's parse error.
#[verifier::external_body]
pub(crate) fn template_keys(pattern: &str) -> (r: Result<Vec<String>, leon::ParseError>)
    ensures
        match r {
            Ok(keys) => template_keys_of(pattern@) == Some(string_views(keys@)),
            Err(_) => template_keys_of(pattern@) is None,
        },
{
    leon::Template::parse(pattern).map(|t| t.keys().map(|k| k.to_string()).collect())
}

/// Relies on `leon::Template::parse` and `Template::render` with a list of
/// pairs as the values: the outer error is the parse error; rendering fails
/// exactly when a key of the template has no pair (no default is set, and
/// writing into a buffer does not fail).
#[verifier::external_body]
pub(crate) fn render_template(pattern: &str, values: &Vec<(String, String)>) -> (r: Result<
    Result<String, leon::RenderError>,
    leon::ParseError,
>)
    ensures
        match r {
            Err(_) => template_keys_of(pattern@) is None,
            Ok(inner) => template_keys_of(pattern@) is Some && (inner is Ok <==> forall|i: int|
                0 <= i < template_keys_of(pattern@)->0.len() ==> has_value(
                    pair_views(values@),
                    #[trigger] template_keys_of(pattern@)->0[i],
                )) && (inner matches Ok(s) ==> s@ == rendered_of(pattern@, pair_views(values@))),
        },
{
    leon::Template::parse(pattern).map(|t| t.render(values))
}

} // verus!
