use vstd::prelude::*;
use crate::error::FurnaceError;
use crate::platform::Platform;
use crate::strutil::str_eq;

verus! {

/// One install source of the runtime catalog: either a direct artifact
/// fetch (url plus declared archive format) or a literal install command
/// for the host package manager.
#[derive(Debug)]
pub struct PhpSource {
    pub url: Option<String>,
    pub command: Option<String>,
    pub archive_type: Option<String>,
}

/// The per-platform install sources of one catalog version.
#[derive(Debug)]
pub struct PlatformUrls {
    pub linux: Option<PhpSource>,
    pub windows: Option<PhpSource>,
    pub macos: Option<PhpSource>,
}

/// One catalog line: a version string and its per-platform sources.
#[derive(Debug)]
pub struct RepoEntry {
    pub version: String,
    pub sources: PlatformUrls,
}

/// The runtime catalog: version string to per-platform install source.
#[derive(Debug)]
pub struct Repository {
    pub php: Vec<RepoEntry>,
}

/// First catalog index at or after `i` carrying version `v`.
pub open spec fn find_version(s: Seq<RepoEntry>, v: Seq<char>, i: int) -> int
    decreases s.len() - i when 0 <= i <= s.len()
{
    if i >= s.len() {
        s.len() as int
    } else if s[i].version@ == v {
        i
    } else {
        find_version(s, v, i + 1)
    }
}

/// The per-platform sources filed under version `v`, if any.
pub open spec fn spec_lookup(repo: Repository, v: Seq<char>) -> Option<PlatformUrls> {
    let k = find_version(repo.php@, v, 0);
    if k < repo.php@.len() {
        Some(repo.php@[k].sources)
    } else {
        None
    }
}

/// The source a platform selects out of a catalog line.
pub open spec fn spec_source_sel(p: PlatformUrls, plat: Platform) -> Option<PhpSource> {
    match plat {
        Platform::Windows => p.windows,
        Platform::Macos => p.macos,
        Platform::Linux => p.linux,
    }
}

/// The install source for a version on a platform, if the catalog has one.
pub open spec fn spec_source_for(repo: Repository, v: Seq<char>, plat: Platform) -> Option<
    PhpSource,
> {
    match spec_lookup(repo, v) {
        Some(p) => spec_source_sel(p, plat),
        None => None,
    }
}

pub proof fn lemma_find_version_bounds(s: Seq<RepoEntry>, v: Seq<char>, i: int)
    requires
        0 <= i <= s.len(),
    ensures
        i <= find_version(s, v, i) <= s.len(),
        forall|j: int| i <= j < find_version(s, v, i) ==> s[j].version@ != v,
        find_version(s, v, i) < s.len() ==> s[find_version(s, v, i)].version@ == v,
    decreases s.len() - i,
{
    if i < s.len() && s[i].version@ != v {
        lemma_find_version_bounds(s, v, i + 1);
    }
}

/// The declared archive formats an artifact fetch can come in.
#[derive(Clone, Copy, Debug, PartialEq, Eq, Structural)]
pub enum ArchiveFormat {
    Zip,
    TarGz,
}

/// How a runtime version is to be installed on this platform.
#[derive(Debug)]
pub enum InstallMethod {
    /// Download the artifact at `url` and extract it by `format`.
    Fetch { url: String, format: ArchiveFormat },
    /// Delegate to the host package manager with this literal command.
    Command(String),
}

impl Repository {
    /// The install source filed for `version` on `plat`, if any.
    pub fn source_for(&self, version: &str, plat: Platform) -> (r: Option<&PhpSource>)
        ensures
            match r {
                Some(src) => spec_source_for(*self, version@, plat) == Some(*src),
                None => spec_source_for(*self, version@, plat) is None,
            },
    {
        let n = self.php.len();
        let mut i: usize = 0;
        while i < n
            invariant
                i <= n,
                n == self.php@.len(),
                forall|j: int| 0 <= j < i ==> self.php@[j].version@ != version@,
            decreases n - i,
        {
            if str_eq(self.php[i].version.as_str(), version) {
                proof {
                    lemma_find_version_bounds(self.php@, version@, 0);
                    let k = find_version(self.php@, version@, 0);
                    if k < i {
                        assert(self.php@[k].version@ != version@);
                    }
                    if i < k {
                        assert(self.php@[i as int].version@ != version@);
                    }
                }
                let urls = &self.php[i].sources;
                return match plat {
                    Platform::Windows => urls.windows.as_ref(),
                    Platform::Macos => urls.macos.as_ref(),
                    Platform::Linux => urls.linux.as_ref(),
                };
            }
            i = i + 1;
        }
        proof {
            lemma_find_version_bounds(self.php@, version@, 0);
        }
        None
    }
}

/// Decide how `version` is to be installed on `plat`.  The catalog decides:
/// a missing version/platform entry is reported as absent; an entry with a
/// url needs a known archive format; an entry with neither url nor command
/// is unusable.  Nothing is downloaded here.
pub fn resolve_install(repo: &Repository, version: &str, plat: Platform) -> (r: Result<
    InstallMethod,
    FurnaceError,
>)
    ensures
        spec_source_for(*repo, version@, plat) is None ==> r matches Err(
            FurnaceError::NotFound(_),
        ),
        match spec_source_for(*repo, version@, plat) {
            Some(src) => match src.url {
                Some(u) => match src.archive_type {
                    Some(t) => {
                        &&& (t@ == "zip"@ ==> (r matches Ok(InstallMethod::Fetch { url, format })
                            && url@ == u@ && format == ArchiveFormat::Zip))
                        &&& (t@ == "tar.gz"@ ==> (r matches Ok(InstallMethod::Fetch { url, format })
                            && url@ == u@ && format == ArchiveFormat::TarGz))
                        &&& (t@ != "zip"@ && t@ != "tar.gz"@ ==> r matches Err(
                            FurnaceError::IOFailure(_),
                        ))
                    },
                    None => r matches Err(FurnaceError::IOFailure(_)),
                },
                None => match src.command {
                    Some(c) => (r matches Ok(InstallMethod::Command(cmd)) && cmd@ == c@),
                    None => r matches Err(FurnaceError::IOFailure(_)),
                },
            },
            None => true,
        },
{
    proof {
        reveal_strlit("zip");
        reveal_strlit("tar.gz");
        assert("zip"@.len() == 3);
        assert("tar.gz"@.len() == 6);
        assert("zip"@ != "tar.gz"@);
    }
    let src = match repo.source_for(version, plat) {
        Some(s) => s,
        None => {
            let mut m = String::from_str("version/platform not present in the runtime catalog: ");
            m.append(version);
            return Err(FurnaceError::NotFound(m));
        },
    };
    match &src.url {
        Some(u) => match &src.archive_type {
            Some(t) => {
                if str_eq(t.as_str(), "zip") {
                    Ok(InstallMethod::Fetch { url: u.clone(), format: ArchiveFormat::Zip })
                } else if str_eq(t.as_str(), "tar.gz") {
                    Ok(InstallMethod::Fetch { url: u.clone(), format: ArchiveFormat::TarGz })
                } else {
                    let mut m = String::from_str("unknown archive type: ");
                    m.append(t.as_str());
                    Err(FurnaceError::IOFailure(m))
                }
            },
            None => Err(
                FurnaceError::IOFailure(
                    String::from_str("missing archive type for url-based source"),
                ),
            ),
        },
        None => match &src.command {
            Some(c) => Ok(InstallMethod::Command(c.clone())),
            None => Err(
                FurnaceError::IOFailure(
                    String::from_str("no url or command for this platform/version"),
                ),
            ),
        },
    }
}

/// Judge an unpacked installation: the interpreter binary must exist, and
/// outside windows the process-pool binary must exist beside it.  The two
/// flags report those post-extraction probes.
pub fn verify_install(plat: Platform, php_bin_present: bool, fpm_bin_present: bool) -> (r: Result<
    (),
    FurnaceError,
>)
    ensures
        r is Ok <==> (php_bin_present && (plat == Platform::Windows || fpm_bin_present)),
        !php_bin_present ==> (r matches Err(FurnaceError::IOFailure(m)) && m@
            == "php binary not found after extraction"@),
        php_bin_present && !(plat == Platform::Windows || fpm_bin_present) ==> (r matches Err(
            FurnaceError::IOFailure(m),
        ) && m@ == "php-fpm binary not found after extraction"@),
{
    if !php_bin_present {
        return Err(
            FurnaceError::IOFailure(String::from_str("php binary not found after extraction")),
        );
    }
    let needs_fpm = match plat {
        Platform::Windows => false,
        Platform::Macos => true,
        Platform::Linux => true,
    };
    if needs_fpm && !fpm_bin_present {
        return Err(
            FurnaceError::IOFailure(String::from_str("php-fpm binary not found after extraction")),
        );
    }
    Ok(())
}

} // verus!
