use vstd::prelude::*;

verus! {

/// What the per-user config file's text holds: nothing when the text is
/// not YAML, else the `php_version` entry when it holds a string; a
/// function of the text alone.
pub uninterp spec fn pinned_version_of(s: Seq<char>) -> Option<Option<Seq<char>>>;

/// Per-user tool configuration: the explicit optional fields the tool
/// reads out of its per-user config file.
#[derive(Debug)]
pub struct FurnaceConfig {
    /// The version requirement the user pinned, exactly as written there.
    pub php_version: Option<String>,
}

impl Clone for FurnaceConfig {
    fn clone(&self) -> (r: Self)
        ensures
            r == *self,
    {
        FurnaceConfig {
            php_version: match &self.php_version {
                Some(s) => Some(s.clone()),
                None => None,
            },
        }
    }
}

/// Relies on serde_yaml::from_str::<Value>, Value::get and Value::as_str:
/// parse the config file's text and read the `php_version` entry into the
/// typed record.  Unparsable text yields nothing; a missing or non-string
/// entry leaves the field empty; the result depends on the text alone, so
/// it carries the name above.
#[verifier::external_body]
pub fn load_config(text: &str) -> (r: Option<FurnaceConfig>)
    ensures
        (match r {
            Some(cfg) => (match cfg.php_version {
                Some(p) => pinned_version_of(text@) == Some(Some(p@)),
                None => pinned_version_of(text@) == Some(None::<Seq<char>>),
            }),
            None => pinned_version_of(text@) is None,
        }),
{
    let yaml: serde_yaml::Value = serde_yaml::from_str(text).ok()?;
    let php_version = yaml.get("php_version").and_then(|v| v.as_str()).map(|s| s.to_string());
    Some(FurnaceConfig { php_version })
}

} // verus!
