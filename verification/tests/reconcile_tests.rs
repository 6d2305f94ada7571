use furnace::error::FurnaceError;
use furnace::reconcile::{
    Environment, Probes, BackendProbe, RuntimeProbe, Action, cook, dispose_recipe_cli, serve,
    stop, restart, status, install, php_use,
};
use furnace::catalog::{Repository, RepoEntry, PlatformUrls, PhpSource};
use furnace::platform::Platform;
use furnace::runtime::RuntimeState;
use furnace::web_service::{BackendKind, ToolOutcome};

fn all_good_probes(versions: &[&str]) -> Probes {
    Probes {
        nginx: BackendProbe {
            live: false,
            validate: ToolOutcome::Success,
            apply: ToolOutcome::Success,
        },
        apache: BackendProbe {
            live: false,
            validate: ToolOutcome::Success,
            apply: ToolOutcome::Success,
        },
        runtimes: versions
            .iter()
            .map(|v| RuntimeProbe {
                version: v.to_string(),
                socket_present: false,
                launch: ToolOutcome::Success,
                kill: ToolOutcome::Success,
            })
            .collect(),
    }
}

fn cook_blog(env: &mut Environment) {
    cook(
        env,
        "/srv/blog",
        Some("blog".to_string()),
        true,
        true,
        None,
        Some("^8.2".to_string()),
    )
    .unwrap();
}

#[test]
fn end_to_end_cook_and_serve() {
    let mut env = Environment::new("/home/u");
    env.runtimes.register_installed("8.2");
    let rec = cook(
        &mut env,
        "/srv/blog",
        Some("blog".to_string()),
        true,
        true,
        None,
        Some("^8.2".to_string()),
    )
    .unwrap();
    assert_eq!(rec.name, "blog");
    assert_eq!(rec.path, "/srv/blog");
    assert_eq!(rec.php_version, "8.2");
    assert_eq!(rec.serve_with, "nginx");
    assert_eq!(rec.site, "blog.test");

    let probes = all_good_probes(&["8.2"]);
    let report = serve(&mut env, &probes, "alice", "staff", );
    assert!(report.ok);
    assert!(report.errors.is_empty());
    assert_eq!(env.runtimes.state_of("8.2"), RuntimeState::Running);

    let written: Vec<&str> = env
        .written
        .iter()
        .filter(|c| c.backend == BackendKind::Nginx && c.name == "blog")
        .map(|c| c.text.as_str())
        .collect();
    assert_eq!(written.len(), 1);
    assert!(written[0].contains("blog.test"));
    assert!(written[0].contains("/srv/blog/public"));
    assert!(written[0].contains("/home/u/.furnace/php/8.2/php-fpm.sock"));

    let validates = report
        .actions
        .iter()
        .filter(|a| matches!(a, Action::Validate { backend: BackendKind::Nginx }))
        .count();
    let applies = report
        .actions
        .iter()
        .filter(|a| matches!(a, Action::Apply { backend: BackendKind::Nginx, .. }))
        .count();
    assert_eq!(validates, 1);
    assert_eq!(applies, 1);
    // the reloaded backend now holds the written config
    assert_eq!(env.loaded_nginx.len(), 1);
    assert_eq!(env.loaded_nginx[0].name, "blog");
}

#[test]
fn serve_reports_missing_runtime_instead_of_installing() {
    let mut env = Environment::new("/home/u");
    cook_blog(&mut env);
    let probes = all_good_probes(&["8.2"]);
    let report = serve(&mut env, &probes, "alice", "staff");
    assert!(!report.ok);
    assert!(report.errors.iter().any(|e| matches!(e, FurnaceError::NotFound(_))));
    assert_eq!(env.runtimes.state_of("8.2"), RuntimeState::NotInstalled);
}

#[test]
fn validation_failure_blocks_the_reload() {
    let mut env = Environment::new("/home/u");
    env.runtimes.register_installed("8.2");
    cook_blog(&mut env);
    let loaded_before: Vec<String> =
        env.loaded_nginx.iter().map(|c| c.text.clone()).collect();
    let mut probes = all_good_probes(&["8.2"]);
    probes.nginx.validate = ToolOutcome::Failure("nginx: [emerg] broken".to_string());
    let report = serve(&mut env, &probes, "alice", "staff");
    assert!(!report.ok);
    // the validator's own text is surfaced verbatim
    assert!(report.errors.iter().any(|e| match e {
        FurnaceError::ExternalToolFailure(m) => m == "nginx: [emerg] broken",
        _ => false,
    }));
    // no apply was invoked for the failing backend
    let applies = report
        .actions
        .iter()
        .filter(|a| matches!(a, Action::Apply { backend: BackendKind::Nginx, .. }))
        .count();
    assert_eq!(applies, 0);
    // the previously active configuration is untouched
    let loaded_after: Vec<String> =
        env.loaded_nginx.iter().map(|c| c.text.clone()).collect();
    assert_eq!(loaded_before, loaded_after);
}

#[test]
fn stop_with_nothing_running_reports_no_errors() {
    let mut env = Environment::new("/home/u");
    env.runtimes.register_installed("8.2");
    cook_blog(&mut env);
    let probes = all_good_probes(&["8.2"]);
    let report = stop(&mut env, &probes);
    assert!(report.ok);
    assert!(report.errors.is_empty());
    assert!(report.actions.is_empty());
}

#[test]
fn stop_signals_running_pools_and_backends() {
    let mut env = Environment::new("/home/u");
    env.runtimes.register_installed("8.2");
    cook_blog(&mut env);
    let mut probes = all_good_probes(&["8.2"]);
    let report = serve(&mut env, &probes, "alice", "staff");
    assert!(report.ok);
    probes.nginx.live = true;
    probes.runtimes[0].socket_present = true;
    let report = stop(&mut env, &probes);
    assert!(report.ok);
    assert!(report
        .actions
        .iter()
        .any(|a| matches!(a, Action::StopBackend { backend: BackendKind::Nginx })));
    assert!(report.actions.iter().any(|a| matches!(a, Action::StopPool { .. })));
    assert_eq!(env.runtimes.state_of("8.2"), RuntimeState::Installed);
}

#[test]
fn cooking_twice_updates_in_place() {
    let mut env = Environment::new("/home/u");
    cook_blog(&mut env);
    let count_before = env.store.list().len();
    cook_blog(&mut env);
    assert_eq!(env.store.list().len(), count_before);
    assert_eq!(env.store.list().len(), 1);
}

#[test]
fn cooking_a_taken_path_under_another_name_conflicts() {
    let mut env = Environment::new("/home/u");
    cook_blog(&mut env);
    let res = cook(
        &mut env,
        "/srv/blog",
        Some("weblog".to_string()),
        true,
        true,
        None,
        None,
    );
    assert!(matches!(res, Err(FurnaceError::Conflict(_))));
    assert_eq!(env.store.list().len(), 1);
}

#[test]
fn cooking_outside_a_laravel_project_is_refused() {
    let mut env = Environment::new("/home/u");
    let res = cook(&mut env, "/srv/blog", None, true, false, None, None);
    assert!(matches!(res, Err(FurnaceError::NotFound(_))));
}

#[test]
fn cook_without_name_uses_the_directory_name() {
    let mut env = Environment::new("/home/u");
    let rec = cook(&mut env, "/srv/blog", None, true, true, None, None).unwrap();
    assert_eq!(rec.name, "blog");
    assert_eq!(rec.php_version, "unknown");
}

#[test]
fn dispose_removes_record_backref_and_configs() {
    let mut env = Environment::new("/home/u");
    cook_blog(&mut env);
    assert!(env.store.get("blog").is_some());
    assert!(env.store.backref_name("/srv/blog").is_some());
    assert!(env.written.iter().any(|c| c.name == "blog"));

    let name = dispose_recipe_cli(&mut env, Some("blog".to_string()), "/").unwrap();
    assert_eq!(name, "blog");
    assert!(env.store.get("blog").is_none());
    assert!(env.store.backref_name("/srv/blog").is_none());
    assert!(!env.written.iter().any(|c| c.name == "blog"));

    // a second dispose of the same name is a no-op, not an error
    let again = dispose_recipe_cli(&mut env, Some("blog".to_string()), "/");
    assert!(again.is_ok());
}

#[test]
fn dispose_by_current_dir_resolves_through_the_store() {
    let mut env = Environment::new("/home/u");
    cook_blog(&mut env);
    let name = dispose_recipe_cli(&mut env, None, "/srv/blog").unwrap();
    assert_eq!(name, "blog");
    let res = dispose_recipe_cli(&mut env, None, "/srv/blog");
    assert!(matches!(res, Err(FurnaceError::NotFound(_))));
}

fn repo_with(version: &str) -> Repository {
    Repository {
        php: vec![RepoEntry {
            version: version.to_string(),
            sources: PlatformUrls {
                linux: Some(PhpSource {
                    url: Some(format!("https://example.invalid/php-{}.tar.gz", version)),
                    command: None,
                    archive_type: Some("tar.gz".to_string()),
                }),
                windows: None,
                macos: None,
            },
        }],
    }
}

#[test]
fn php_use_repoints_one_recipe_and_leaves_the_rest() {
    let mut env = Environment::new("/home/u");
    env.runtimes.register_installed("8.2");
    env.runtimes.register_installed("8.3");
    cook_blog(&mut env);
    cook(
        &mut env,
        "/srv/shop",
        Some("shop".to_string()),
        true,
        true,
        None,
        Some("^8.2".to_string()),
    )
    .unwrap();
    let probes = all_good_probes(&["8.2", "8.3"]);
    let report = serve(&mut env, &probes, "alice", "staff");
    assert!(report.ok);
    let shop_before = env
        .written
        .iter()
        .find(|c| c.backend == BackendKind::Nginx && c.name == "shop")
        .unwrap()
        .text
        .clone();

    let warnings = php_use(
        &mut env,
        &repo_with("8.3"),
        Platform::Linux,
        "/srv/blog",
        "8.3",
        "alice",
        "staff",
        &ToolOutcome::Success,
        &ToolOutcome::Success,
    )
    .unwrap();
    assert!(warnings.is_empty());
    assert_eq!(env.store.get("blog").unwrap().php_version, "8.3");
    let blog_after = env
        .written
        .iter()
        .find(|c| c.backend == BackendKind::Nginx && c.name == "blog")
        .unwrap()
        .text
        .clone();
    assert!(blog_after.contains("/home/u/.furnace/php/8.3/php-fpm.sock"));
    let shop_after = env
        .written
        .iter()
        .find(|c| c.backend == BackendKind::Nginx && c.name == "shop")
        .unwrap()
        .text
        .clone();
    assert_eq!(shop_before, shop_after);
    // the bound version is configured for its process pool
    assert_eq!(env.runtimes.state_of("8.3"), RuntimeState::Configured);
}

#[test]
fn php_use_of_an_uninstalled_version_is_fatal() {
    let mut env = Environment::new("/home/u");
    cook_blog(&mut env);
    let res = php_use(
        &mut env,
        &repo_with("8.3"),
        Platform::Linux,
        "/srv/blog",
        "8.3",
        "alice",
        "staff",
        &ToolOutcome::Success,
        &ToolOutcome::Success,
    );
    assert!(matches!(res, Err(FurnaceError::NotFound(_))));
}

#[test]
fn php_use_collects_a_warning_when_the_catalog_lacks_the_version() {
    let mut env = Environment::new("/home/u");
    env.runtimes.register_installed("8.3");
    cook_blog(&mut env);
    let warnings = php_use(
        &mut env,
        &repo_with("8.2"),
        Platform::Linux,
        "/srv/blog",
        "8.3",
        "alice",
        "staff",
        &ToolOutcome::Success,
        &ToolOutcome::Success,
    )
    .unwrap();
    assert!(warnings.iter().any(|e| matches!(e, FurnaceError::NotFound(_))));
}

#[test]
fn restart_is_stop_then_serve() {
    let mut env = Environment::new("/home/u");
    env.runtimes.register_installed("8.2");
    cook_blog(&mut env);
    let probes = all_good_probes(&["8.2"]);
    let (stop_report, serve_report) = restart(&mut env, &probes, &probes, "alice", "staff");
    assert!(stop_report.ok);
    assert!(serve_report.ok);
    assert_eq!(env.runtimes.state_of("8.2"), RuntimeState::Running);
}

#[test]
fn status_reports_recipes_and_versions() {
    let mut env = Environment::new("/home/u");
    env.runtimes.register_installed("8.2");
    cook_blog(&mut env);
    let report = status(&env);
    assert_eq!(report.recipe_count, 1);
    assert_eq!(report.versions, vec!["8.2".to_string()]);
}

#[test]
fn occupied_port_is_reported_as_a_resource_problem() {
    let mut env = Environment::new("/home/u");
    env.runtimes.register_installed("8.2");
    cook_blog(&mut env);
    let mut probes = all_good_probes(&["8.2"]);
    probes.nginx.apply = ToolOutcome::Failure(
        "nginx: [emerg] bind() to 0.0.0.0:80 failed (98: Address already in use)".to_string(),
    );
    let report = serve(&mut env, &probes, "alice", "staff");
    assert!(!report.ok);
    assert!(report
        .errors
        .iter()
        .any(|e| matches!(e, FurnaceError::ResourceUnavailable(_))));
    // a failed apply leaves the running configuration alone
    assert!(env.loaded_nginx.is_empty());
}

#[test]
fn php_use_validation_failure_blocks_the_reload_and_is_reported() {
    let mut env = Environment::new("/home/u");
    env.runtimes.register_installed("8.2");
    env.runtimes.register_installed("8.3");
    cook_blog(&mut env);
    let probes = all_good_probes(&["8.2"]);
    let report = serve(&mut env, &probes, "alice", "staff");
    assert!(report.ok);
    let loaded_before: Vec<String> =
        env.loaded_nginx.iter().map(|c| c.text.clone()).collect();
    let warnings = php_use(
        &mut env,
        &repo_with("8.3"),
        Platform::Linux,
        "/srv/blog",
        "8.3",
        "alice",
        "staff",
        &ToolOutcome::Failure("nginx: [emerg] unexpected end of file".to_string()),
        &ToolOutcome::Success,
    )
    .unwrap();
    assert!(warnings.iter().any(|e| match e {
        FurnaceError::ExternalToolFailure(m) => m == "nginx: [emerg] unexpected end of file",
        _ => false,
    }));
    let loaded_after: Vec<String> =
        env.loaded_nginx.iter().map(|c| c.text.clone()).collect();
    assert_eq!(loaded_before, loaded_after);
}

#[test]
fn php_list_names_the_installed_versions() {
    let mut env = Environment::new("/home/u");
    env.runtimes.register_installed("8.2");
    env.runtimes.register_installed("8.3");
    assert_eq!(
        furnace::reconcile::php_list(&env),
        vec!["8.2".to_string(), "8.3".to_string()]
    );
}

#[test]
fn install_plan_degrades_to_warnings() {
    let plan = install(&ToolOutcome::Success, &ToolOutcome::Success, false);
    assert!(plan.write_main_conf);
    assert!(plan.warnings.is_empty());
    assert!(plan.main_conf.contains("include servers/*.conf;"));
    // the default runtime catalog is seeded on every install
    assert!(plan.catalog.contains("php: {}"));

    let plan = install(
        &ToolOutcome::Failure("which: no nginx".to_string()),
        &ToolOutcome::Failure("which: no httpd".to_string()),
        true,
    );
    assert!(!plan.write_main_conf);
    assert_eq!(plan.warnings.len(), 2);
    assert!(plan.catalog.contains("php: {}"));
}

fn phase(a: &Action) -> u32 {
    match a {
        Action::WritePoolConfig { .. }
        | Action::StartPool { .. }
        | Action::StopPool { .. }
        | Action::StopBackend { .. } => 0,
        Action::WriteSiteConfig { .. } => 1,
        Action::Validate { .. } | Action::Apply { .. } => 2,
    }
}

#[test]
fn serve_orders_starts_before_writes_before_reloads() {
    let mut env = Environment::new("/home/u");
    env.runtimes.register_installed("8.2");
    env.runtimes.register_installed("8.3");
    cook_blog(&mut env);
    cook(
        &mut env,
        "/srv/shop",
        Some("shop".to_string()),
        true,
        true,
        None,
        Some("^8.3".to_string()),
    )
    .unwrap();
    let probes = all_good_probes(&["8.2", "8.3"]);
    let report = serve(&mut env, &probes, "alice", "staff");
    assert!(report.ok);
    let phases: Vec<u32> = report.actions.iter().map(phase).collect();
    let mut sorted = phases.clone();
    sorted.sort();
    assert_eq!(phases, sorted);
    assert!(phases.contains(&0));
    assert!(phases.contains(&1));
    assert!(phases.contains(&2));
}

#[test]
fn stop_reports_a_failed_pool_kill_and_continues() {
    let mut env = Environment::new("/home/u");
    env.runtimes.register_installed("8.2");
    env.runtimes.register_installed("8.3");
    cook_blog(&mut env);
    let mut probes = all_good_probes(&["8.2", "8.3"]);
    let report = serve(&mut env, &probes, "alice", "staff");
    assert!(report.ok);
    // both pools look alive; the first refuses the signal
    probes.runtimes[0].socket_present = true;
    probes.runtimes[0].kill = ToolOutcome::Failure("no such process".to_string());
    probes.runtimes[1].socket_present = true;
    let report = stop(&mut env, &probes);
    assert!(!report.ok);
    // the failure names the version and keeps the tool's text
    assert!(report.errors.iter().any(|e| match e {
        FurnaceError::ExternalToolFailure(m) => m == "8.2: no such process",
        _ => false,
    }));
    // the sweep still visited the other version
    assert!(report.actions.iter().any(|a| match a {
        Action::StopPool { version } => version == "8.3",
        _ => false,
    }));
    assert_eq!(env.runtimes.state_of("8.3"), RuntimeState::Installed);
    // the refused pool keeps its state
    assert_eq!(env.runtimes.state_of("8.2"), RuntimeState::Running);
}

#[test]
fn cook_never_records_a_blank_version() {
    let mut env = Environment::new("/home/u");
    let rec = cook(
        &mut env,
        "/srv/blog",
        Some("blog".to_string()),
        true,
        true,
        Some("latest".to_string()),
        None,
    )
    .unwrap();
    assert_eq!(rec.php_version, "unknown");
}

#[test]
fn conflict_errors_name_the_existing_recipe() {
    let mut env = Environment::new("/home/u");
    cook_blog(&mut env);
    let res = cook(
        &mut env,
        "/srv/blog",
        Some("weblog".to_string()),
        true,
        true,
        None,
        None,
    );
    match res {
        Err(FurnaceError::Conflict(m)) => assert_eq!(m, "blog"),
        other => panic!("expected a conflict, got {:?}", other),
    }
}
