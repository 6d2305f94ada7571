use furnace::paths::{socket_path, nginx_logs_dir, recipe_file, backref_file};
use furnace::recipe::Recipe;
use furnace::render::{render, render_pool_conf, main_nginx_conf};
use furnace::web_service::BackendKind;

fn blog() -> Recipe {
    Recipe {
        name: "blog".to_string(),
        path: "/srv/blog".to_string(),
        php_version: "8.2".to_string(),
        serve_with: "nginx".to_string(),
        site: "blog.test".to_string(),
    }
}

#[test]
fn render_is_deterministic() {
    let sock = socket_path("/home/u", "8.2");
    let a = render(&blog(), &sock, BackendKind::Nginx, "/home/u");
    let b = render(&blog(), &sock, BackendKind::Nginx, "/home/u");
    assert_eq!(a, b);
    let c = render(&blog(), &sock, BackendKind::Apache, "/home/u");
    let d = render(&blog(), &sock, BackendKind::Apache, "/home/u");
    assert_eq!(c, d);
}

#[test]
fn nginx_render_places_the_required_fields() {
    let sock = socket_path("/home/u", "8.2");
    let text = render(&blog(), &sock, BackendKind::Nginx, "/home/u");
    assert!(text.contains("server_name blog.test;"));
    assert!(text.contains("root /srv/blog/public;"));
    assert!(text.contains("fastcgi_pass unix:/home/u/.furnace/php/8.2/php-fpm.sock;"));
    assert!(text.contains("/home/u/.furnace/nginx/logs/blog.access.log"));
    assert!(text.contains("/home/u/.furnace/nginx/logs/blog.error.log"));
}

#[test]
fn apache_render_places_the_required_fields() {
    let sock = socket_path("/home/u", "8.2");
    let text = render(&blog(), &sock, BackendKind::Apache, "/home/u");
    assert!(text.contains("ServerName blog.test"));
    assert!(text.contains("DocumentRoot \"/srv/blog/public\""));
    assert!(text.contains("proxy:unix:/home/u/.furnace/php/8.2/php-fpm.sock|fcgi://localhost/"));
    assert!(text.contains("/home/u/.furnace/apache/logs/blog.error.log"));
}

#[test]
fn unresolved_version_renders_the_sentinel_not_a_blank() {
    let mut rec = blog();
    rec.php_version = "unknown".to_string();
    let sock = socket_path("/home/u", "unknown");
    let text = render(&rec, &sock, BackendKind::Nginx, "/home/u");
    assert!(text.contains("unix:/home/u/.furnace/php/unknown/php-fpm.sock"));
    assert!(!text.contains("unix:;"));
}

#[test]
fn pool_conf_substitutes_all_fields() {
    let text = render_pool_conf("/home/u/.furnace/php/8.2", "alice", "staff", "/tmp/fpm.sock");
    assert!(text.contains("pid = /home/u/.furnace/php/8.2/php-fpm.pid"));
    assert!(text.contains("user = alice"));
    assert!(text.contains("group = staff"));
    assert!(text.contains("listen = /tmp/fpm.sock"));
}

#[test]
fn main_nginx_conf_includes_the_servers_wildcard() {
    let text = main_nginx_conf();
    assert!(text.contains("include servers/*.conf;"));
    assert!(text.contains("worker_processes  1;"));
}

#[test]
fn apache_link_name_is_prefixed_and_suffixed() {
    assert_eq!(furnace::web_service::apache_link_name("blog"), "furnace-blog.conf");
}

#[test]
fn derived_paths_are_rooted_at_home() {
    assert_eq!(socket_path("/home/u", "8.2"), "/home/u/.furnace/php/8.2/php-fpm.sock");
    assert_eq!(nginx_logs_dir("/home/u"), "/home/u/.furnace/nginx/logs");
    assert_eq!(recipe_file("/home/u", "blog"), "/home/u/.furnace/recipes/blog.yml");
    assert_eq!(backref_file("/srv/blog"), "/srv/blog/.furnace.recipe.yml");
}
