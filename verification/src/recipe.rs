use vstd::prelude::*;

verus! {

/// The desired-state record of one managed project: a binding of a project
/// path to a site name, a PHP runtime version and a web-server backend.
#[derive(Debug)]
pub struct Recipe {
    /// Unique identifier; also the filename key and the default subdomain
    /// label.
    pub name: String,
    /// Absolute path of the project root; at most one live recipe may
    /// reference a given path.
    pub path: String,
    /// Normalized `MAJOR.MINOR` version string, or the `unknown` sentinel.
    pub php_version: String,
    /// Backend kind selector: `nginx` or `apache`.
    pub serve_with: String,
    /// Fully-qualified local hostname, derived from `name` by default.
    pub site: String,
}

impl Clone for Recipe {
    fn clone(&self) -> (r: Self)
        ensures
            r == *self,
    {
        Recipe {
            name: self.name.clone(),
            path: self.path.clone(),
            php_version: self.php_version.clone(),
            serve_with: self.serve_with.clone(),
            site: self.site.clone(),
        }
    }
}

/// A name that can serve as a filename key: non-empty and free of `/`.
pub open spec fn fs_safe_name(n: Seq<char>) -> bool {
    n.len() > 0 && forall|i: int| 0 <= i < n.len() ==> n[i] != '/'
}

/// An absolute filesystem path: non-empty and rooted at `/`.
pub open spec fn absolute_path(p: Seq<char>) -> bool {
    p.len() > 0 && p[0] == '/'
}

/// A well-formed recipe: filesystem-safe name, absolute project path, and a
/// backend selector that names one of the two supported kinds.
pub open spec fn spec_recipe_valid(r: Recipe) -> bool {
    &&& fs_safe_name(r.name@)
    &&& absolute_path(r.path@)
    &&& (r.serve_with@ == "nginx"@ || r.serve_with@ == "apache"@)
}

/// The hostname derived from a project name.
pub open spec fn spec_site_for(name: Seq<char>) -> Seq<char> {
    name + ".test"@
}

/// The default local hostname of a project: `{name}.test`.
pub fn site_for(name: &str) -> (r: String)
    ensures
        r@ == spec_site_for(name@),
{
    let mut s = name.to_owned();
    s.append(".test");
    s
}

/// A directory is a Laravel project when it holds both an `artisan` script
/// and a `composer.json` manifest; the two flags report those probes.
pub fn is_laravel_project(has_artisan: bool, has_composer_manifest: bool) -> (r: bool)
    ensures
        r == (has_artisan && has_composer_manifest),
{
    has_artisan && has_composer_manifest
}

/// Whether `r` satisfies the recipe well-formedness rules.
pub fn recipe_is_valid(r: &Recipe) -> (ok: bool)
    ensures
        ok == spec_recipe_valid(*r),
{
    let name_len = r.name.as_str().unicode_len();
    if name_len == 0 {
        return false;
    }
    let mut i: usize = 0;
    while i < name_len
        invariant
            i <= name_len,
            name_len == r.name@.len(),
            forall|j: int| 0 <= j < i ==> r.name@[j] != '/',
        decreases name_len - i,
    {
        if r.name.as_str().get_char(i) == '/' {
            return false;
        }
        i = i + 1;
    }
    let path_len = r.path.as_str().unicode_len();
    if path_len == 0 {
        return false;
    }
    if r.path.as_str().get_char(0) != '/' {
        return false;
    }
    crate::strutil::str_eq(r.serve_with.as_str(), "nginx") || crate::strutil::str_eq(
        r.serve_with.as_str(),
        "apache",
    )
}

} // verus!
