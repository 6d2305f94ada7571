use vstd::prelude::*;

verus! {

/// The per-user state directory.
pub open spec fn spec_furnace_dir(home: Seq<char>) -> Seq<char> {
    home + "/.furnace"@
}

/// Where recipe record files live, one per recipe, keyed by name.
pub open spec fn spec_recipes_dir(home: Seq<char>) -> Seq<char> {
    home + "/.furnace/recipes"@
}

/// The record file of the recipe named `name`.
pub open spec fn spec_recipe_file(home: Seq<char>, name: Seq<char>) -> Seq<char> {
    spec_recipes_dir(home) + "/"@ + name + ".yml"@
}

/// The managed nginx base directory.
pub open spec fn spec_nginx_dir(home: Seq<char>) -> Seq<char> {
    home + "/.furnace/nginx"@
}

/// The wildcard-included servers directory of the nginx backend.
pub open spec fn spec_nginx_servers_dir(home: Seq<char>) -> Seq<char> {
    spec_nginx_dir(home) + "/servers"@
}

pub open spec fn spec_nginx_logs_dir(home: Seq<char>) -> Seq<char> {
    spec_nginx_dir(home) + "/logs"@
}

/// The managed apache base directory.
pub open spec fn spec_apache_dir(home: Seq<char>) -> Seq<char> {
    home + "/.furnace/apache"@
}

pub open spec fn spec_apache_logs_dir(home: Seq<char>) -> Seq<char> {
    spec_apache_dir(home) + "/logs"@
}

/// The base directory of installed PHP runtimes.
pub open spec fn spec_php_dir(home: Seq<char>) -> Seq<char> {
    home + "/.furnace/php"@
}

/// The install directory of one PHP runtime version.
pub open spec fn spec_php_version_dir(home: Seq<char>, version: Seq<char>) -> Seq<char> {
    spec_php_dir(home) + "/"@ + version
}

/// The process-pool socket of one PHP runtime version; its on-disk presence
/// is the liveness marker the reconciler consults.
pub open spec fn spec_socket_path(home: Seq<char>, version: Seq<char>) -> Seq<char> {
    spec_php_version_dir(home, version) + "/php-fpm.sock"@
}

/// The rendered process-pool configuration file of one runtime version.
pub open spec fn spec_pool_conf_path(home: Seq<char>, version: Seq<char>) -> Seq<char> {
    spec_php_version_dir(home, version) + "/furnace-php-fpm.conf"@
}

/// The project-local back-reference marker of a project directory.
pub open spec fn spec_backref_file(project_path: Seq<char>) -> Seq<char> {
    project_path + "/.furnace.recipe.yml"@
}

/// A site's rendered config file inside a backend's directory.
pub open spec fn spec_site_conf_file(dir: Seq<char>, name: Seq<char>) -> Seq<char> {
    dir + "/"@ + name + ".conf"@
}

pub fn furnace_dir(home: &str) -> (r: String)
    ensures
        r@ == spec_furnace_dir(home@),
{
    let mut s = home.to_owned();
    s.append("/.furnace");
    s
}

pub fn recipes_dir(home: &str) -> (r: String)
    ensures
        r@ == spec_recipes_dir(home@),
{
    let mut s = home.to_owned();
    s.append("/.furnace/recipes");
    s
}

pub fn recipe_file(home: &str, name: &str) -> (r: String)
    ensures
        r@ == spec_recipe_file(home@, name@),
{
    let mut s = recipes_dir(home);
    s.append("/");
    s.append(name);
    s.append(".yml");
    s
}

pub fn nginx_dir(home: &str) -> (r: String)
    ensures
        r@ == spec_nginx_dir(home@),
{
    let mut s = home.to_owned();
    s.append("/.furnace/nginx");
    s
}

pub fn nginx_servers_dir(home: &str) -> (r: String)
    ensures
        r@ == spec_nginx_servers_dir(home@),
{
    let mut s = nginx_dir(home);
    s.append("/servers");
    s
}

pub fn nginx_logs_dir(home: &str) -> (r: String)
    ensures
        r@ == spec_nginx_logs_dir(home@),
{
    let mut s = nginx_dir(home);
    s.append("/logs");
    s
}

pub fn apache_dir(home: &str) -> (r: String)
    ensures
        r@ == spec_apache_dir(home@),
{
    let mut s = home.to_owned();
    s.append("/.furnace/apache");
    s
}

pub fn apache_logs_dir(home: &str) -> (r: String)
    ensures
        r@ == spec_apache_logs_dir(home@),
{
    let mut s = apache_dir(home);
    s.append("/logs");
    s
}

pub fn php_dir(home: &str) -> (r: String)
    ensures
        r@ == spec_php_dir(home@),
{
    let mut s = home.to_owned();
    s.append("/.furnace/php");
    s
}

pub fn php_version_dir(home: &str, version: &str) -> (r: String)
    ensures
        r@ == spec_php_version_dir(home@, version@),
{
    let mut s = php_dir(home);
    s.append("/");
    s.append(version);
    s
}

pub fn socket_path(home: &str, version: &str) -> (r: String)
    ensures
        r@ == spec_socket_path(home@, version@),
{
    let mut s = php_version_dir(home, version);
    s.append("/php-fpm.sock");
    s
}

pub fn pool_conf_path(home: &str, version: &str) -> (r: String)
    ensures
        r@ == spec_pool_conf_path(home@, version@),
{
    let mut s = php_version_dir(home, version);
    s.append("/furnace-php-fpm.conf");
    s
}

pub fn backref_file(project_path: &str) -> (r: String)
    ensures
        r@ == spec_backref_file(project_path@),
{
    let mut s = project_path.to_owned();
    s.append("/.furnace.recipe.yml");
    s
}

pub fn site_conf_file(dir: &str, name: &str) -> (r: String)
    ensures
        r@ == spec_site_conf_file(dir@, name@),
{
    let mut s = dir.to_owned();
    s.append("/");
    s.append(name);
    s.append(".conf");
    s
}

/// Relies on dirs::home_dir: the per-user home directory as the platform
/// reports it, or nothing when it cannot be determined.  The value depends
/// on the running environment, so nothing further is promised of it.
#[verifier::external_body]
pub fn home_dir() -> (r: Option<String>)
{
    dirs::home_dir().map(|p| p.to_string_lossy().to_string())
}

} // verus!
