use furnace::catalog::{
    Repository, RepoEntry, PlatformUrls, PhpSource, ArchiveFormat, InstallMethod, resolve_install,
    verify_install,
};
use furnace::error::FurnaceError;
use furnace::platform::{OSType, Platform, detect_platform, detect_os, pool_group, current_username};

fn source(url: Option<&str>, command: Option<&str>, archive: Option<&str>) -> PhpSource {
    PhpSource {
        url: url.map(|s| s.to_string()),
        command: command.map(|s| s.to_string()),
        archive_type: archive.map(|s| s.to_string()),
    }
}

fn repo(linux: Option<PhpSource>, macos: Option<PhpSource>) -> Repository {
    Repository {
        php: vec![RepoEntry {
            version: "8.2".to_string(),
            sources: PlatformUrls { linux, windows: None, macos },
        }],
    }
}

#[test]
fn missing_version_is_a_distinct_error() {
    let r = repo(Some(source(Some("https://x/php.zip"), None, Some("zip"))), None);
    let res = resolve_install(&r, "9.9", Platform::Linux);
    assert!(matches!(res, Err(FurnaceError::NotFound(_))));
}

#[test]
fn missing_platform_is_a_distinct_error() {
    let r = repo(None, Some(source(None, Some("brew install php@8.2"), None)));
    let res = resolve_install(&r, "8.2", Platform::Linux);
    assert!(matches!(res, Err(FurnaceError::NotFound(_))));
}

#[test]
fn zip_source_resolves_to_a_fetch() {
    let r = repo(Some(source(Some("https://x/php.zip"), None, Some("zip"))), None);
    match resolve_install(&r, "8.2", Platform::Linux).unwrap() {
        InstallMethod::Fetch { url, format } => {
            assert_eq!(url, "https://x/php.zip");
            assert_eq!(format, ArchiveFormat::Zip);
        },
        other => panic!("expected a fetch, got {:?}", other),
    }
}

#[test]
fn tarball_source_resolves_to_a_fetch() {
    let r = repo(Some(source(Some("https://x/php.tar.gz"), None, Some("tar.gz"))), None);
    match resolve_install(&r, "8.2", Platform::Linux).unwrap() {
        InstallMethod::Fetch { format, .. } => assert_eq!(format, ArchiveFormat::TarGz),
        other => panic!("expected a fetch, got {:?}", other),
    }
}

#[test]
fn unknown_archive_type_is_refused() {
    let r = repo(Some(source(Some("https://x/php.rar"), None, Some("rar"))), None);
    let res = resolve_install(&r, "8.2", Platform::Linux);
    assert!(matches!(res, Err(FurnaceError::IOFailure(_))));
}

#[test]
fn url_without_archive_type_is_refused() {
    let r = repo(Some(source(Some("https://x/php.bin"), None, None)), None);
    let res = resolve_install(&r, "8.2", Platform::Linux);
    assert!(matches!(res, Err(FurnaceError::IOFailure(_))));
}

#[test]
fn command_source_resolves_to_a_command() {
    let r = repo(None, Some(source(None, Some("brew install php@8.2"), None)));
    match resolve_install(&r, "8.2", Platform::Macos).unwrap() {
        InstallMethod::Command(cmd) => assert_eq!(cmd, "brew install php@8.2"),
        other => panic!("expected a command, got {:?}", other),
    }
}

#[test]
fn source_with_neither_url_nor_command_is_refused() {
    let r = repo(Some(source(None, None, None)), None);
    let res = resolve_install(&r, "8.2", Platform::Linux);
    assert!(matches!(res, Err(FurnaceError::IOFailure(_))));
}

#[test]
fn verify_install_demands_both_binaries_off_windows() {
    assert!(verify_install(Platform::Linux, true, true).is_ok());
    let res = verify_install(Platform::Linux, false, true);
    match res {
        Err(FurnaceError::IOFailure(m)) => {
            assert_eq!(m, "php binary not found after extraction")
        },
        other => panic!("unexpected {:?}", other),
    }
    let res = verify_install(Platform::Linux, true, false);
    match res {
        Err(FurnaceError::IOFailure(m)) => {
            assert_eq!(m, "php-fpm binary not found after extraction")
        },
        other => panic!("unexpected {:?}", other),
    }
    assert!(verify_install(Platform::Windows, true, false).is_ok());
}

#[test]
fn platform_selection_follows_the_family() {
    assert_eq!(detect_platform(&OSType::MacOS), Platform::Macos);
    assert_eq!(detect_platform(&OSType::Linux), Platform::Linux);
    assert_eq!(detect_platform(&OSType::Windows), Platform::Windows);
    assert_eq!(detect_platform(&OSType::Unknown), Platform::Linux);
}

#[test]
fn detected_os_maps_to_a_platform() {
    let os = detect_os();
    let plat = detect_platform(&os);
    assert!(matches!(plat, Platform::Linux | Platform::Macos | Platform::Windows));
}

#[test]
fn pool_group_follows_the_family() {
    assert_eq!(pool_group(&OSType::MacOS, "alice"), "staff");
    assert_eq!(pool_group(&OSType::Linux, "alice"), "alice");
    assert_eq!(pool_group(&OSType::Unknown, "bob"), "bob");
    // the detected username depends on the machine; only call it
    let _ = current_username();
}
