use vstd::prelude::*;

verus! {

/// The string under `require.php` of a composer manifest, when the text
/// parses as JSON and that path leads to a string; a function of the text
/// alone.
pub uninterp spec fn php_requirement_of(s: Seq<char>) -> Option<Seq<char>>;

/// Relies on serde_json::from_str::<Value>, Value::get and Value::as_str:
/// parse the manifest, walk to `require.php`, and hand the string out.
/// Parse failures, missing keys and non-string values all yield nothing;
/// the result depends on the text alone, so it carries the name above.
#[verifier::external_body]
pub fn parse_php_version(composer_text: &str) -> (r: Option<String>)
    ensures
        (match r {
            Some(req) => php_requirement_of(composer_text@) == Some(req@),
            None => php_requirement_of(composer_text@) is None,
        }),
{
    let json: serde_json::Value = serde_json::from_str(composer_text).ok()?;
    let req = json.get("require")?.get("php")?.as_str()?;
    Some(req.to_string())
}

} // verus!
