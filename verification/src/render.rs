use vstd::prelude::*;
use crate::recipe::Recipe;
use crate::web_service::BackendKind;
use crate::paths::{spec_nginx_logs_dir, spec_apache_logs_dir, nginx_logs_dir, apache_logs_dir};

verus! {

/// The rendered nginx site block for one recipe.
pub open spec fn spec_render_nginx(
    site: Seq<char>,
    path: Seq<char>,
    logs_dir: Seq<char>,
    socket: Seq<char>,
    name: Seq<char>,
) -> Seq<char> {
    "\nserver {\n    listen 80;\n    server_name "@ + site + ";\n    root "@ + path
        + "/public;\n\n    index index.php index.html;\n\n    access_log "@ + logs_dir + "/"@
        + name + ".access.log;\n    error_log "@ + logs_dir + "/"@ + name
        + ".error.log;\n\n    location / {\n        try_files $uri $uri/ /index.php?$query_string;\n    }\n\n    location ~ \\.php$ {\n        include /opt/homebrew/etc/nginx/fastcgi_params;\n        fastcgi_pass unix:"@
        + socket
        + ";\n        fastcgi_param SCRIPT_FILENAME $document_root$fastcgi_script_name;\n        fastcgi_index index.php;\n    }\n}\n"@
}

/// The rendered apache virtual-host block for one recipe.
pub open spec fn spec_render_apache(
    site: Seq<char>,
    path: Seq<char>,
    logs_dir: Seq<char>,
    socket: Seq<char>,
    name: Seq<char>,
) -> Seq<char> {
    "\n<VirtualHost *:80>\n    ServerName "@ + site + "\n    DocumentRoot \""@ + path
        + "/public\"\n\n    <Directory \""@ + path
        + "/public\">\n        AllowOverride All\n        Require all granted\n    </Directory>\n\n    <FilesMatch \\.php$>\n        SetHandler \"proxy:unix:"@
        + socket + "|fcgi://localhost/\"\n    </FilesMatch>\n\n    ErrorLog \""@ + logs_dir + "/"@
        + name + ".error.log\"\n    CustomLog \""@ + logs_dir + "/"@ + name
        + ".access.log\" combined\n</VirtualHost>\n"@
}

/// What `render` returns: the backend-specific site config text, a pure
/// function of the recipe, the runtime socket path and the backend kind.
pub open spec fn spec_render(
    r: Recipe,
    socket: Seq<char>,
    kind: BackendKind,
    home: Seq<char>,
) -> Seq<char> {
    match kind {
        BackendKind::Nginx => spec_render_nginx(
            r.site@,
            r.path@,
            spec_nginx_logs_dir(home),
            socket,
            r.name@,
        ),
        BackendKind::Apache => spec_render_apache(
            r.site@,
            r.path@,
            spec_apache_logs_dir(home),
            socket,
            r.name@,
        ),
    }
}

fn render_nginx(site: &str, path: &str, logs_dir: &str, socket: &str, name: &str) -> (r: String)
    ensures
        r@ == spec_render_nginx(site@, path@, logs_dir@, socket@, name@),
{
    let mut s = String::from_str("\nserver {\n    listen 80;\n    server_name ");
    s.append(site);
    s.append(";\n    root ");
    s.append(path);
    s.append("/public;\n\n    index index.php index.html;\n\n    access_log ");
    s.append(logs_dir);
    s.append("/");
    s.append(name);
    s.append(".access.log;\n    error_log ");
    s.append(logs_dir);
    s.append("/");
    s.append(name);
    s.append(
        ".error.log;\n\n    location / {\n        try_files $uri $uri/ /index.php?$query_string;\n    }\n\n    location ~ \\.php$ {\n        include /opt/homebrew/etc/nginx/fastcgi_params;\n        fastcgi_pass unix:",
    );
    s.append(socket);
    s.append(
        ";\n        fastcgi_param SCRIPT_FILENAME $document_root$fastcgi_script_name;\n        fastcgi_index index.php;\n    }\n}\n",
    );
    proof {
        assert(s@ =~= spec_render_nginx(site@, path@, logs_dir@, socket@, name@));
    }
    s
}

fn render_apache(site: &str, path: &str, logs_dir: &str, socket: &str, name: &str) -> (r: String)
    ensures
        r@ == spec_render_apache(site@, path@, logs_dir@, socket@, name@),
{
    let mut s = String::from_str("\n<VirtualHost *:80>\n    ServerName ");
    s.append(site);
    s.append("\n    DocumentRoot \"");
    s.append(path);
    s.append("/public\"\n\n    <Directory \"");
    s.append(path);
    s.append(
        "/public\">\n        AllowOverride All\n        Require all granted\n    </Directory>\n\n    <FilesMatch \\.php$>\n        SetHandler \"proxy:unix:",
    );
    s.append(socket);
    s.append("|fcgi://localhost/\"\n    </FilesMatch>\n\n    ErrorLog \"");
    s.append(logs_dir);
    s.append("/");
    s.append(name);
    s.append(".error.log\"\n    CustomLog \"");
    s.append(logs_dir);
    s.append("/");
    s.append(name);
    s.append(".access.log\" combined\n</VirtualHost>\n");
    proof {
        assert(s@ =~= spec_render_apache(site@, path@, logs_dir@, socket@, name@));
    }
    s
}

/// Render the configuration text of `recipe` for the given backend kind.
/// Deterministic: the output is a function of the arguments alone, so two
/// calls with identical inputs yield byte-identical text.
pub fn render(recipe: &Recipe, runtime_socket_path: &str, backend: BackendKind, home: &str) -> (r:
    String)
    ensures
        r@ == spec_render(*recipe, runtime_socket_path@, backend, home@),
{
    match backend {
        BackendKind::Nginx => {
            let logs = nginx_logs_dir(home);
            render_nginx(
                recipe.site.as_str(),
                recipe.path.as_str(),
                logs.as_str(),
                runtime_socket_path,
                recipe.name.as_str(),
            )
        },
        BackendKind::Apache => {
            let logs = apache_logs_dir(home);
            render_apache(
                recipe.site.as_str(),
                recipe.path.as_str(),
                logs.as_str(),
                runtime_socket_path,
                recipe.name.as_str(),
            )
        },
    }
}

/// Rendering is deterministic: any two results that `render`'s contract
/// admits for the same recipe, socket path and backend kind are equal.
pub proof fn lemma_render_deterministic(
    out1: Seq<char>,
    out2: Seq<char>,
    r: Recipe,
    socket: Seq<char>,
    kind: BackendKind,
    home: Seq<char>,
)
    requires
        out1 == spec_render(r, socket, kind, home),
        out2 == spec_render(r, socket, kind, home),
    ensures
        out1 == out2,
{
}

/// The rendered process-pool configuration of one runtime version,
/// substituting the install directory, the running user and group, and the
/// socket path into the pool template.
pub open spec fn spec_render_pool(
    php_dir: Seq<char>,
    user: Seq<char>,
    group: Seq<char>,
    sock: Seq<char>,
) -> Seq<char> {
    "[global]\npid = "@ + php_dir + "/php-fpm.pid\nerror_log = "@ + php_dir
        + "/php-fpm.log\n\n[www]\nuser = "@ + user + "\ngroup = "@ + group + "\nlisten = "@ + sock
        + "\nlisten.owner = "@ + user + "\nlisten.group = "@ + group
        + "\npm = dynamic\npm.max_children = 5\npm.start_servers = 2\npm.min_spare_servers = 1\npm.max_spare_servers = 3\n"@
}

/// Render the process-pool configuration for a runtime installed at
/// `php_dir`, listening on `sock`, running as `user`/`group`.
pub fn render_pool_conf(php_dir: &str, user: &str, group: &str, sock: &str) -> (r: String)
    ensures
        r@ == spec_render_pool(php_dir@, user@, group@, sock@),
{
    let mut s = String::from_str("[global]\npid = ");
    s.append(php_dir);
    s.append("/php-fpm.pid\nerror_log = ");
    s.append(php_dir);
    s.append("/php-fpm.log\n\n[www]\nuser = ");
    s.append(user);
    s.append("\ngroup = ");
    s.append(group);
    s.append("\nlisten = ");
    s.append(sock);
    s.append("\nlisten.owner = ");
    s.append(user);
    s.append("\nlisten.group = ");
    s.append(group);
    s.append(
        "\npm = dynamic\npm.max_children = 5\npm.start_servers = 2\npm.min_spare_servers = 1\npm.max_spare_servers = 3\n",
    );
    proof {
        assert(s@ =~= spec_render_pool(php_dir@, user@, group@, sock@));
    }
    s
}

/// The default runtime catalog an installation seeds: an empty version
/// map under the documented layout, for the operator to fill in.
pub open spec fn spec_default_repository() -> Seq<char> {
    "# Runtime catalog: maps a version string to its per-platform install source.\n# Each platform entry names either a url with an archive type (zip or\n# tar.gz), or an install command for the host package manager.\nphp: {}\n"@
}

/// The default runtime catalog text.
pub fn default_repository() -> (r: String)
    ensures
        r@ == spec_default_repository(),
{
    String::from_str(
        "# Runtime catalog: maps a version string to its per-platform install source.\n# Each platform entry names either a url with an archive type (zip or\n# tar.gz), or an install command for the host package manager.\nphp: {}\n",
    )
}

/// The top-level nginx configuration that includes every managed site via
/// the wildcard servers directory.
pub open spec fn spec_main_nginx_conf() -> Seq<char> {
    "# Main Furnace-managed nginx.conf\n# This file is generated and managed by Furnace.\n\nworker_processes  1;\n\nevents {\n    worker_connections  1024;\n}\n\nhttp {\n    include /opt/homebrew/etc/nginx/mime.types;\n    default_type  application/octet-stream;\n    sendfile        on;\n    keepalive_timeout  65;\n\n    # Furnace-managed sites\n    include servers/*.conf;\n}\n"@
}

/// The managed top-level nginx configuration text.
pub fn main_nginx_conf() -> (r: String)
    ensures
        r@ == spec_main_nginx_conf(),
{
    String::from_str(
        "# Main Furnace-managed nginx.conf\n# This file is generated and managed by Furnace.\n\nworker_processes  1;\n\nevents {\n    worker_connections  1024;\n}\n\nhttp {\n    include /opt/homebrew/etc/nginx/mime.types;\n    default_type  application/octet-stream;\n    sendfile        on;\n    keepalive_timeout  65;\n\n    # Furnace-managed sites\n    include servers/*.conf;\n}\n",
    )
}

} // verus!
