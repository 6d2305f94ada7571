use vstd::prelude::*;
use crate::error::FurnaceError;
use crate::catalog::{Repository, spec_source_for};
use crate::paths::{spec_socket_path, socket_path, spec_php_version_dir};
use crate::platform::Platform;
use crate::render::spec_render_pool;
use crate::recipe::{
    Recipe, spec_recipe_valid, spec_site_for, site_for, is_laravel_project, fs_safe_name,
    absolute_path,
};
use crate::render::spec_render;
use crate::store::{
    RecipeStore, spec_get, spec_get_by_path, spec_backref_get, spec_put, spec_remove,
    spec_drop_refs, path_conflict, find_path,
};
use crate::runtime::RuntimeManager;
use crate::strutil::{spec_last_segment, last_path_segment};
use crate::version::{spec_extract_major_minor, extract_major_minor};
use crate::runtime::{RuntimeState, lemma_find_rt_bounds, lemma_find_rt_versions_eq, find_rt};
use crate::strutil::str_eq;
use crate::web_service::{
    BackendKind, SiteConfig, ToolOutcome, ReloadStyle, WebService, NginxService, ApacheService,
    spec_cfg_get, spec_drop_cfgs, spec_of_kind, cfg_keys_unique, remove_configs_for,
    configs_of_kind,
};

verus! {

/// The whole managed world the reconciler acts on: the recipe store, the
/// runtime manager, the rendered configs on disk, and the configs each
/// running backend has loaded.
#[derive(Debug)]
pub struct Environment {
    /// Resolved per-user home directory; every managed path derives from it.
    pub home: String,
    pub store: RecipeStore,
    pub runtimes: RuntimeManager,
    /// Rendered site configs as they stand on disk.
    pub written: Vec<SiteConfig>,
    /// What the running nginx has loaded; updated only by a reload.
    pub loaded_nginx: Vec<SiteConfig>,
    /// What the running apache has loaded; updated only by a reload.
    pub loaded_apache: Vec<SiteConfig>,
}

impl Environment {
    pub open spec fn wf(self) -> bool {
        &&& self.store.wf()
        &&& self.runtimes.wf()
        &&& cfg_keys_unique(self.written@)
    }

    /// A fresh environment rooted at `home`, with nothing registered.
    pub fn new(home: &str) -> (r: Environment)
        ensures
            r.wf(),
            r.home@ == home@,
            r.store.recipes@.len() == 0,
            r.store.backrefs@.len() == 0,
            r.runtimes.runtimes@.len() == 0,
            r.written@.len() == 0,
            r.loaded_nginx@.len() == 0,
            r.loaded_apache@.len() == 0,
    {
        Environment {
            home: home.to_owned(),
            store: RecipeStore::new(),
            runtimes: RuntimeManager::new(),
            written: Vec::new(),
            loaded_nginx: Vec::new(),
            loaded_apache: Vec::new(),
        }
    }
}

/// The project name a cook resolves to: the explicit name if given, else
/// the final segment of the project path.
pub open spec fn spec_cook_name(name: Option<String>, cwd: Seq<char>) -> Seq<char> {
    match name {
        Some(n) => n@,
        None => spec_last_segment(cwd),
    }
}

/// A resolved version, or the `unknown` sentinel where the resolution came
/// out blank — a blank would render a syntactically broken config.
pub open spec fn spec_or_unknown(v: Seq<char>) -> Seq<char> {
    if v.len() == 0 {
        "unknown"@
    } else {
        v
    }
}

/// The PHP version a cook resolves to: the active per-user configuration
/// wins, then the composer requirement, then the `unknown` sentinel — never
/// a blank.
pub open spec fn spec_cook_version(config_php: Option<String>, composer_php: Option<String>) -> Seq<
    char,
> {
    match config_php {
        Some(c) => spec_or_unknown(spec_extract_major_minor(c@)),
        None => match composer_php {
            Some(c) => spec_or_unknown(spec_extract_major_minor(c@)),
            None => "unknown"@,
        },
    }
}

/// `v`, or the `unknown` sentinel when `v` is empty.
fn or_unknown(v: String) -> (r: String)
    ensures
        r@ == spec_or_unknown(v@),
{
    if v.as_str().unicode_len() == 0 {
        String::from_str("unknown")
    } else {
        v
    }
}

/// Register (or re-register) the project at `cwd` as a recipe and
/// immediately materialize its rendered configs for both backends.
///
/// Idempotent by path and name: re-cooking the same path under the same
/// name updates the existing record in place.  A path already registered
/// under a different name is a conflict and changes nothing.  `has_artisan`
/// and `has_composer_manifest` report the project-marker probes;
/// `config_php` is the per-user configured version requirement and
/// `composer_php` the composer one, either may be absent.
pub fn cook(
    env: &mut Environment,
    cwd: &str,
    name: Option<String>,
    has_artisan: bool,
    has_composer_manifest: bool,
    config_php: Option<String>,
    composer_php: Option<String>,
) -> (r: Result<Recipe, FurnaceError>)
    requires
        old(env).wf(),
    ensures
        final(env).wf(),
        final(env).home@ == old(env).home@,
        final(env).runtimes == old(env).runtimes,
        final(env).loaded_nginx@ == old(env).loaded_nginx@,
        final(env).loaded_apache@ == old(env).loaded_apache@,
        !(has_artisan && has_composer_manifest) ==> (r matches Err(FurnaceError::NotFound(_))
            && *final(env) == *old(env)),
        r is Err ==> final(env).store.recipes@ == old(env).store.recipes@
            && final(env).store.backrefs@ == old(env).store.backrefs@
            && final(env).written@ == old(env).written@,
        (r matches Ok(rec) ==> ({
            let nm = spec_cook_name(name, cwd@);
            let ver = spec_cook_version(config_php, composer_php);
            let home = old(env).home@;
            &&& rec.name@ == nm
            &&& rec.path@ == cwd@
            &&& rec.php_version@ == ver
            &&& rec.serve_with@ == "nginx"@
            &&& rec.site@ == spec_site_for(nm)
            &&& spec_recipe_valid(rec)
            &&& !path_conflict(old(env).store.recipes@, rec)
            &&& final(env).store.recipes@ == spec_put(old(env).store.recipes@, rec)
            &&& spec_backref_get(final(env).store.backrefs@, cwd@) == Some(nm)
            &&& spec_cfg_get(final(env).written@, BackendKind::Nginx, nm) == Some(
                spec_render(rec, spec_socket_path(home, ver), BackendKind::Nginx, home),
            )
            &&& spec_cfg_get(final(env).written@, BackendKind::Apache, nm) == Some(
                spec_render(rec, spec_socket_path(home, ver), BackendKind::Apache, home),
            )
        })),
        has_artisan && has_composer_manifest ==> ({
            let nm = spec_cook_name(name, cwd@);
            &&& (fs_safe_name(nm) && absolute_path(cwd@) && !(exists|i: int|
                0 <= i < old(env).store.recipes@.len() && old(env).store.recipes@[i].path@ == cwd@
                    && old(env).store.recipes@[i].name@ != nm) ==> r is Ok)
            &&& (fs_safe_name(nm) && absolute_path(cwd@) && (exists|i: int|
                0 <= i < old(env).store.recipes@.len() && old(env).store.recipes@[i].path@ == cwd@
                    && old(env).store.recipes@[i].name@ != nm) ==> (r matches Err(
                FurnaceError::Conflict(m),
            ) && m@ == old(env).store.recipes@[find_path(old(env).store.recipes@, cwd@, 0)].name@))
            &&& (!(fs_safe_name(nm) && absolute_path(cwd@)) ==> r matches Err(
                FurnaceError::IOFailure(_),
            ))
        }),
{
    if !is_laravel_project(has_artisan, has_composer_manifest) {
        return Err(FurnaceError::NotFound(String::from_str("not a Laravel project")));
    }
    let project_name: String = match name {
        Some(n) => n,
        None => last_path_segment(cwd),
    };
    let php_version: String = match config_php {
        Some(c) => or_unknown(extract_major_minor(c.as_str())),
        None => match composer_php {
            Some(c) => or_unknown(extract_major_minor(c.as_str())),
            None => String::from_str("unknown"),
        },
    };
    let site = site_for(project_name.as_str());
    let rec = Recipe {
        name: project_name,
        path: cwd.to_owned(),
        php_version,
        serve_with: String::from_str("nginx"),
        site,
    };
    match env.store.put(rec.clone()) {
        Ok(_) => {},
        Err(e) => {
            return Err(e);
        },
    }
    env.store.set_backref(cwd, rec.name.as_str());
    let sock = socket_path(env.home.as_str(), rec.php_version.as_str());
    let nginx = NginxService::new(env.home.as_str());
    let home = env.home.clone();
    let res_n = nginx.write_conf(&mut env.written, &rec, sock.as_str(), home.as_str());
    match res_n {
        Ok(_) => {},
        Err(_) => {},
    }
    let apache = ApacheService;
    let res_a = apache.write_conf(&mut env.written, &rec, sock.as_str(), home.as_str());
    match res_a {
        Ok(_) => {},
        Err(_) => {},
    }
    Ok(rec)
}

/// Which recipe a disposal aims at: an explicit name, or the recipe of the
/// current project directory.
#[derive(Debug)]
pub enum RecipeDisposalTarget {
    ByName(String),
    ByCurrentDir,
}

/// The name the project directory `cwd` resolves to: the store entry wins
/// over the project-local back-reference, which is never a second source
/// of truth.
pub open spec fn spec_resolve_dir(st: RecipeStore, cwd: Seq<char>) -> Option<Seq<char>> {
    match spec_get_by_path(st.recipes@, cwd) {
        Some(r) => Some(r.name@),
        None => spec_backref_get(st.backrefs@, cwd),
    }
}

/// Remove the recipe named `nm` together with every artifact derived from
/// it: its rendered configs for every backend, and its back-references.
fn dispose_by_name(env: &mut Environment, nm: &str)
    requires
        old(env).wf(),
    ensures
        final(env).wf(),
        final(env).home@ == old(env).home@,
        final(env).runtimes == old(env).runtimes,
        final(env).loaded_nginx@ == old(env).loaded_nginx@,
        final(env).loaded_apache@ == old(env).loaded_apache@,
        final(env).store.recipes@ == spec_remove(old(env).store.recipes@, nm@),
        final(env).store.backrefs@ == spec_drop_refs(old(env).store.backrefs@, nm@),
        final(env).written@ == spec_drop_cfgs(old(env).written@, nm@),
        spec_get(final(env).store.recipes@, nm@) is None,
        forall|k: BackendKind| #[trigger] spec_cfg_get(final(env).written@, k, nm@) is None,
        forall|i: int|
            0 <= i < final(env).store.backrefs@.len()
                ==> #[trigger] final(env).store.backrefs@[i].name@ != nm@,
{
    remove_configs_for(&mut env.written, nm);
    let res = env.store.remove(nm);
    match res {
        Ok(_) => {},
        Err(_) => {},
    }
    env.store.remove_backrefs_for(nm);
    proof {
        crate::store::lemma_remove_idempotent(old(env).store.recipes@, nm@);
    }
}

/// Dispose a recipe: remove its record, its back-reference and its rendered
/// configs for every backend it was ever rendered for.  Disposing an
/// already absent name succeeds and changes nothing; only a directory that
/// resolves to no recipe at all is an error.
pub fn dispose_recipe(env: &mut Environment, target: RecipeDisposalTarget, cwd: &str) -> (r: Result<
    String,
    FurnaceError,
>)
    requires
        old(env).wf(),
    ensures
        final(env).wf(),
        final(env).home@ == old(env).home@,
        final(env).runtimes == old(env).runtimes,
        final(env).loaded_nginx@ == old(env).loaded_nginx@,
        final(env).loaded_apache@ == old(env).loaded_apache@,
        (match target {
            RecipeDisposalTarget::ByName(n) => r matches Ok(nm) && nm@ == n@,
            RecipeDisposalTarget::ByCurrentDir => match spec_resolve_dir(old(env).store, cwd@) {
                Some(n) => r matches Ok(nm) && nm@ == n,
                None => r matches Err(FurnaceError::NotFound(_)) && *final(env) == *old(env),
            },
        }),
        (r matches Ok(nm) ==> ({
            &&& final(env).store.recipes@ == spec_remove(old(env).store.recipes@, nm@)
            &&& final(env).store.backrefs@ == spec_drop_refs(old(env).store.backrefs@, nm@)
            &&& final(env).written@ == spec_drop_cfgs(old(env).written@, nm@)
            &&& spec_get(final(env).store.recipes@, nm@) is None
            &&& (forall|k: BackendKind| #[trigger]
                spec_cfg_get(final(env).written@, k, nm@) is None)
        })),
{
    let nm: String = match target {
        RecipeDisposalTarget::ByName(n) => n,
        RecipeDisposalTarget::ByCurrentDir => {
            match env.store.get_by_path(cwd) {
                Some(r) => r.name,
                None => {
                    match env.store.backref_name(cwd) {
                        Some(n) => n,
                        None => {
                            return Err(
                                FurnaceError::NotFound(
                                    String::from_str("no recipe found in this directory"),
                                ),
                            );
                        },
                    }
                },
            }
        },
    };
    dispose_by_name(env, nm.as_str());
    Ok(nm)
}

/// Dispose by optional name: an explicit name aims at that recipe, no name
/// aims at the current directory's recipe.
pub fn dispose_recipe_cli(env: &mut Environment, name: Option<String>, cwd: &str) -> (r: Result<
    String,
    FurnaceError,
>)
    requires
        old(env).wf(),
    ensures
        final(env).wf(),
        (match name {
            Some(n) => r matches Ok(nm) && nm@ == n@,
            None => match spec_resolve_dir(old(env).store, cwd@) {
                Some(n) => r matches Ok(nm) && nm@ == n,
                None => r matches Err(FurnaceError::NotFound(_)) && *final(env) == *old(env),
            },
        }),
        (r matches Ok(nm) ==> ({
            &&& final(env).store.recipes@ == spec_remove(old(env).store.recipes@, nm@)
            &&& final(env).store.backrefs@ == spec_drop_refs(old(env).store.backrefs@, nm@)
            &&& final(env).written@ == spec_drop_cfgs(old(env).written@, nm@)
        })),
{
    match name {
        Some(n) => dispose_recipe(env, RecipeDisposalTarget::ByName(n), cwd),
        None => dispose_recipe(env, RecipeDisposalTarget::ByCurrentDir, cwd),
    }
}

/// The backend kind a recipe's `serve_with` selector names; everything but
/// `nginx` falls to the apache-like backend.
pub open spec fn spec_kind_of(sw: Seq<char>) -> BackendKind {
    if sw == "nginx"@ {
        BackendKind::Nginx
    } else {
        BackendKind::Apache
    }
}

/// Select the backend kind a recipe's `serve_with` field names.
pub fn backend_kind_of(sw: &str) -> (k: BackendKind)
    ensures
        k == spec_kind_of(sw@),
{
    if str_eq(sw, "nginx") {
        BackendKind::Nginx
    } else {
        BackendKind::Apache
    }
}

/// Some recipe binds this PHP version.
pub open spec fn version_referenced(s: Seq<Recipe>, v: Seq<char>) -> bool {
    exists|i: int| 0 <= i < s.len() && s[i].php_version@ == v
}

/// Some recipe selects this backend kind.
pub open spec fn kind_in_use(s: Seq<Recipe>, k: BackendKind) -> bool {
    exists|i: int| 0 <= i < s.len() && spec_kind_of(s[i].serve_with@) == k
}

/// One backend's external answers during a reconciliation pass: liveness
/// marker, syntax-checker verdict, and the process-control outcome.
#[derive(Debug)]
pub struct BackendProbe {
    pub live: bool,
    pub validate: ToolOutcome,
    pub apply: ToolOutcome,
}

/// One runtime version's external answers: the socket-file probe and the
/// outcomes of launching or signalling its process pool.
#[derive(Debug)]
pub struct RuntimeProbe {
    pub version: String,
    pub socket_present: bool,
    pub launch: ToolOutcome,
    pub kill: ToolOutcome,
}

/// Every external answer a reconciliation pass may consult, gathered up
/// front so the decisions can be checked against them.
#[derive(Debug)]
pub struct Probes {
    pub nginx: BackendProbe,
    pub apache: BackendProbe,
    pub runtimes: Vec<RuntimeProbe>,
}

/// First probe index at or after `i` for version `v`.
pub open spec fn find_probe(s: Seq<RuntimeProbe>, v: Seq<char>, i: int) -> int
    decreases s.len() - i when 0 <= i <= s.len()
{
    if i >= s.len() {
        s.len() as int
    } else if s[i].version@ == v {
        i
    } else {
        find_probe(s, v, i + 1)
    }
}

pub proof fn lemma_find_probe_bounds(s: Seq<RuntimeProbe>, v: Seq<char>, i: int)
    requires
        0 <= i <= s.len(),
    ensures
        i <= find_probe(s, v, i) <= s.len(),
        forall|j: int| i <= j < find_probe(s, v, i) ==> s[j].version@ != v,
        find_probe(s, v, i) < s.len() ==> s[find_probe(s, v, i)].version@ == v,
    decreases s.len() - i,
{
    if i < s.len() && s[i].version@ != v {
        lemma_find_probe_bounds(s, v, i + 1);
    }
}

/// The socket-file answer for `v`; versions nobody probed count as absent.
pub open spec fn spec_socket_probe(p: Probes, v: Seq<char>) -> bool {
    let k = find_probe(p.runtimes@, v, 0);
    if k < p.runtimes@.len() {
        p.runtimes@[k].socket_present
    } else {
        false
    }
}

/// The launch answer for `v`; versions nobody probed count as failed.
pub open spec fn spec_launch_ok(p: Probes, v: Seq<char>) -> bool {
    let k = find_probe(p.runtimes@, v, 0);
    if k < p.runtimes@.len() {
        p.runtimes@[k].launch is Success
    } else {
        false
    }
}

/// The kill answer for `v`; versions nobody probed count as succeeded.
pub open spec fn spec_kill_ok(p: Probes, v: Seq<char>) -> bool {
    let k = find_probe(p.runtimes@, v, 0);
    if k < p.runtimes@.len() {
        p.runtimes@[k].kill is Success
    } else {
        true
    }
}

impl Probes {
    /// The (socket, launch, kill) answers for one version; a version nobody
    /// probed reports no socket, a failed launch and a trivial kill.
    fn runtime_probe(&self, version: &str) -> (r: (bool, ToolOutcome, ToolOutcome))
        ensures
            r.0 == spec_socket_probe(*self, version@),
            (r.1 is Success) == spec_launch_ok(*self, version@),
            (r.2 is Success) == spec_kill_ok(*self, version@),
            (match r.1 {
                ToolOutcome::Failure(m) => {
                    let k = find_probe(self.runtimes@, version@, 0);
                    if k < self.runtimes@.len() {
                        self.runtimes@[k].launch matches ToolOutcome::Failure(d) && m@ == d@
                    } else {
                        m@ == "no process-pool launch was attempted"@
                    }
                },
                ToolOutcome::Success => true,
            }),
            (match r.2 {
                ToolOutcome::Failure(m) => {
                    let k = find_probe(self.runtimes@, version@, 0);
                    k < self.runtimes@.len() && (self.runtimes@[k].kill matches
                        ToolOutcome::Failure(d) && m@ == d@)
                },
                ToolOutcome::Success => true,
            }),
    {
        let n = self.runtimes.len();
        let mut i: usize = 0;
        while i < n
            invariant
                i <= n,
                n == self.runtimes@.len(),
                forall|j: int| 0 <= j < i ==> self.runtimes@[j].version@ != version@,
            decreases n - i,
        {
            if str_eq(self.runtimes[i].version.as_str(), version) {
                proof {
                    lemma_find_probe_bounds(self.runtimes@, version@, 0);
                    let k = find_probe(self.runtimes@, version@, 0);
                    if k < i {
                        assert(self.runtimes@[k].version@ != version@);
                    }
                    if i < k {
                        assert(self.runtimes@[i as int].version@ != version@);
                    }
                }
                return (
                    self.runtimes[i].socket_present,
                    self.runtimes[i].launch.clone(),
                    self.runtimes[i].kill.clone(),
                );
            }
            i = i + 1;
        }
        proof {
            lemma_find_probe_bounds(self.runtimes@, version@, 0);
        }
        (
            false,
            ToolOutcome::Failure(String::from_str("no process-pool launch was attempted")),
            ToolOutcome::Success,
        )
    }
}

/// One effect a reconciliation pass takes on the outside world, in order.
#[derive(Debug)]
pub enum Action {
    /// Write one runtime's rendered pool configuration.
    WritePoolConfig { version: String },
    /// Launch one runtime's process pool.
    StartPool { version: String },
    /// Signal one runtime's process pool to shut down.
    StopPool { version: String },
    /// Write one recipe's rendered site config for its backend.
    WriteSiteConfig { backend: BackendKind, name: String },
    /// Run the backend's own syntax checker over the assembled tree.
    Validate { backend: BackendKind },
    /// Apply the validated configuration to the running backend.
    Apply { backend: BackendKind, style: ReloadStyle },
    /// Stop the backend's processes.
    StopBackend { backend: BackendKind },
}

pub open spec fn is_validate(a: Action, k: BackendKind) -> bool {
    match a {
        Action::Validate { backend } => backend == k,
        _ => false,
    }
}

pub open spec fn is_apply(a: Action, k: BackendKind) -> bool {
    match a {
        Action::Apply { backend, .. } => backend == k,
        _ => false,
    }
}

/// How many validation actions aim at backend kind `k`.
pub open spec fn count_validates(s: Seq<Action>, k: BackendKind) -> int
    decreases s.len(),
{
    if s.len() == 0 {
        0
    } else {
        count_validates(s.drop_last(), k) + if is_validate(s.last(), k) {
            1int
        } else {
            0int
        }
    }
}

/// How many apply (reload/start) actions aim at backend kind `k`.
pub open spec fn count_applies(s: Seq<Action>, k: BackendKind) -> int
    decreases s.len(),
{
    if s.len() == 0 {
        0
    } else {
        count_applies(s.drop_last(), k) + if is_apply(s.last(), k) {
            1int
        } else {
            0int
        }
    }
}

pub proof fn lemma_count_push(s: Seq<Action>, a: Action, k: BackendKind)
    ensures
        count_validates(s.push(a), k) == count_validates(s, k) + if is_validate(a, k) {
            1int
        } else {
            0int
        },
        count_applies(s.push(a), k) == count_applies(s, k) + if is_apply(a, k) {
            1int
        } else {
            0int
        },
{
    assert(s.push(a).drop_last() =~= s);
    assert(s.push(a).last() == a);
}

/// The pass of a serve an action belongs to: runtime work comes first,
/// then the config writes, then the per-backend validate and apply.
pub open spec fn action_phase(a: Action) -> int {
    match a {
        Action::WritePoolConfig { .. } => 0,
        Action::StartPool { .. } => 0,
        Action::StopPool { .. } => 0,
        Action::StopBackend { .. } => 0,
        Action::WriteSiteConfig { .. } => 1,
        Action::Validate { .. } => 2,
        Action::Apply { .. } => 2,
    }
}

/// No validate or apply action aims at any backend yet.
pub open spec fn no_backend_actions(s: Seq<Action>) -> bool {
    &&& count_validates(s, BackendKind::Nginx) == 0
    &&& count_applies(s, BackendKind::Nginx) == 0
    &&& count_validates(s, BackendKind::Apache) == 0
    &&& count_applies(s, BackendKind::Apache) == 0
}

/// Which backend kinds the registered recipes use.
fn kinds_in_use(recipes: &Vec<Recipe>) -> (r: (bool, bool))
    ensures
        r.0 == kind_in_use(recipes@, BackendKind::Nginx),
        r.1 == kind_in_use(recipes@, BackendKind::Apache),
{
    let n = recipes.len();
    let mut nginx = false;
    let mut apache = false;
    let mut i: usize = 0;
    while i < n
        invariant
            i <= n,
            n == recipes@.len(),
            nginx == kind_in_use(recipes@.subrange(0, i as int), BackendKind::Nginx),
            apache == kind_in_use(recipes@.subrange(0, i as int), BackendKind::Apache),
        decreases n - i,
    {
        let ghost pre = recipes@.subrange(0, i as int);
        let ghost cur = recipes@.subrange(0, i + 1);
        let k = backend_kind_of(recipes[i].serve_with.as_str());
        match k {
            BackendKind::Nginx => {
                nginx = true;
            },
            BackendKind::Apache => {
                apache = true;
            },
        }
        proof {
            assert(cur[i as int] == recipes@[i as int]);
            assert forall|kk: BackendKind| kind_in_use(cur, kk) implies (kind_in_use(pre, kk)
                || spec_kind_of(recipes@[i as int].serve_with@) == kk) by {
                let w = choose|x: int| 0 <= x < cur.len() && spec_kind_of(cur[x].serve_with@) == kk;
                if w < i {
                    assert(pre[w] == cur[w]);
                }
            }
            assert forall|kk: BackendKind| kind_in_use(pre, kk) implies kind_in_use(cur, kk) by {
                let w = choose|x: int| 0 <= x < pre.len() && spec_kind_of(pre[x].serve_with@) == kk;
                assert(cur[w] == pre[w]);
            }
            if spec_kind_of(recipes@[i as int].serve_with@) == BackendKind::Nginx {
                assert(kind_in_use(cur, BackendKind::Nginx));
            } else {
                assert(kind_in_use(cur, BackendKind::Apache));
            }
        }
        i = i + 1;
    }
    proof {
        assert(recipes@.subrange(0, n as int) =~= recipes@);
    }
    (nginx, apache)
}

/// The report of a `stop` pass: what was done and what failed.  The pass is
/// a success only when the accumulated error set is empty.
#[derive(Debug)]
pub struct StopReport {
    pub actions: Vec<Action>,
    pub errors: Vec<FurnaceError>,
    pub ok: bool,
}

/// Where one runtime version lands after a stop pass: a failed graceful
/// shutdown leaves the state alone; otherwise a running version falls back
/// to Installed, its pool configuration kept.
pub open spec fn spec_stop_state(st0: RuntimeState, marker: bool, kill_ok: bool) -> RuntimeState {
    if st0 == RuntimeState::NotInstalled {
        RuntimeState::NotInstalled
    } else if marker && !kill_ok {
        st0
    } else if st0 == RuntimeState::Running {
        RuntimeState::Installed
    } else {
        st0
    }
}

/// Stop every running backend and every running PHP process pool.  Every
/// version directory is visited; a failed graceful shutdown is accumulated
/// as an error naming the version, never fatal to the sweep.  A world with
/// nothing running yields no action and an empty error list.
#[verifier::rlimit(100)]
#[verifier::spinoff_prover]
pub fn stop(env: &mut Environment, probes: &Probes) -> (r: StopReport)
    requires
        old(env).wf(),
    ensures
        final(env).wf(),
        final(env).home@ == old(env).home@,
        final(env).store == old(env).store,
        final(env).written@ == old(env).written@,
        final(env).loaded_nginx@ == old(env).loaded_nginx@,
        final(env).loaded_apache@ == old(env).loaded_apache@,
        r.ok <==> r.errors@.len() == 0,
        final(env).runtimes.runtimes@.len() == old(env).runtimes.runtimes@.len(),
        forall|j: int|
            0 <= j < old(env).runtimes.runtimes@.len() ==> (#[trigger] final(env).runtimes.runtimes@[j].version@ == old(env).runtimes.runtimes@[j].version@ && final(env).runtimes.runtimes@[j].pool_config == old(env).runtimes.runtimes@[j].pool_config),
        forall|v: Seq<char>| #[trigger]
            final(env).runtimes.spec_state_of(v) == spec_stop_state(
                old(env).runtimes.spec_state_of(v),
                spec_socket_probe(*probes, v),
                spec_kill_ok(*probes, v),
            ),
        forall|j: int|
            0 <= j < old(env).runtimes.runtimes@.len() ==> ({
                let v = #[trigger] old(env).runtimes.runtimes@[j].version@;
                spec_socket_probe(*probes, v) && !spec_kill_ok(*probes, v) ==> (match probes.runtimes@[find_probe(
                    probes.runtimes@,
                    v,
                    0,
                )].kill {
                    ToolOutcome::Failure(d) => exists|e: int|
                        0 <= e < r.errors@.len() && (#[trigger] r.errors@[e] matches
                            FurnaceError::ExternalToolFailure(m) && m@ == v + ": "@ + d@),
                    ToolOutcome::Success => false,
                })
            }),
        forall|j: int|
            0 <= j < old(env).runtimes.runtimes@.len() && spec_socket_probe(
                *probes,
                #[trigger] old(env).runtimes.runtimes@[j].version@,
            ) ==> exists|e: int|
                0 <= e < r.actions@.len() && (#[trigger] r.actions@[e] matches Action::StopPool {
                    version,
                } && version@ == old(env).runtimes.runtimes@[j].version@),
        probes.nginx.live ==> exists|e: int|
            0 <= e < r.actions@.len() && (#[trigger] r.actions@[e] matches Action::StopBackend {
                backend,
            } && backend == BackendKind::Nginx),
        probes.apache.live ==> exists|e: int|
            0 <= e < r.actions@.len() && (#[trigger] r.actions@[e] matches Action::StopBackend {
                backend,
            } && backend == BackendKind::Apache),
        (match probes.nginx.apply {
            ToolOutcome::Failure(d) => probes.nginx.live ==> exists|e: int|
                0 <= e < r.errors@.len() && (#[trigger] r.errors@[e] matches
                    FurnaceError::ExternalToolFailure(m) && m@ == d@),
            ToolOutcome::Success => true,
        }),
        (match probes.apache.apply {
            ToolOutcome::Failure(d) => probes.apache.live ==> exists|e: int|
                0 <= e < r.errors@.len() && (#[trigger] r.errors@[e] matches
                    FurnaceError::ExternalToolFailure(m) && m@ == d@),
            ToolOutcome::Success => true,
        }),
        (!probes.nginx.live && !probes.apache.live && (forall|j: int|
            0 <= j < probes.runtimes@.len() ==> !(#[trigger] probes.runtimes@[
                j].socket_present))) ==> (r.errors@.len() == 0 && r.actions@.len() == 0),
{
    let mut actions: Vec<Action> = Vec::new();
    let mut errors: Vec<FurnaceError> = Vec::new();

    let nginx = NginxService::new(env.home.as_str());
    if probes.nginx.live {
        actions.push(Action::StopBackend { backend: BackendKind::Nginx });
        match nginx.stop(probes.nginx.live, &probes.nginx.apply) {
            Ok(_) => {},
            Err(e) => {
                errors.push(e);
                proof {
                    match &probes.nginx.apply {
                        ToolOutcome::Failure(d) => {
                            assert(errors@[errors@.len() - 1] matches
                                FurnaceError::ExternalToolFailure(m) && m@ == d@);
                        },
                        ToolOutcome::Success => {},
                    }
                }
            },
        }
    }
    let ghost errs_ng = errors@;
    let apache = ApacheService;
    if probes.apache.live {
        actions.push(Action::StopBackend { backend: BackendKind::Apache });
        match apache.stop(probes.apache.live, &probes.apache.apply) {
            Ok(_) => {},
            Err(e) => {
                errors.push(e);
                proof {
                    match &probes.apache.apply {
                        ToolOutcome::Failure(d) => {
                            assert(errors@[errors@.len() - 1] matches
                                FurnaceError::ExternalToolFailure(m) && m@ == d@);
                        },
                        ToolOutcome::Success => {},
                    }
                }
            },
        }
    }
    let ghost errs_bk = errors@;
    let ghost acts_bk = actions@;

    let n = env.runtimes.runtimes.len();
    let mut i: usize = 0;
    while i < n
        invariant
            i <= n,
            env.wf(),
            env.home@ == old(env).home@,
            env.store == old(env).store,
            env.written@ == old(env).written@,
            env.loaded_nginx@ == old(env).loaded_nginx@,
            env.loaded_apache@ == old(env).loaded_apache@,
            n == env.runtimes.runtimes@.len(),
            n == old(env).runtimes.runtimes@.len(),
            forall|j: int|
                0 <= j < n ==> (#[trigger] env.runtimes.runtimes@[j].version@ == old(env).runtimes.runtimes@[j].version@ && env.runtimes.runtimes@[j].pool_config == old(env).runtimes.runtimes@[j].pool_config),
            forall|j: int|
                0 <= j < i ==> #[trigger] env.runtimes.runtimes@[j].state == spec_stop_state(
                    old(env).runtimes.runtimes@[j].state,
                    spec_socket_probe(*probes, old(env).runtimes.runtimes@[j].version@),
                    spec_kill_ok(*probes, old(env).runtimes.runtimes@[j].version@),
                ),
            forall|j: int|
                i <= j < n ==> #[trigger] env.runtimes.runtimes@[j].state == old(env).runtimes.runtimes@[j].state,
            errs_bk.len() <= errors@.len(),
            forall|e: int| 0 <= e < errs_bk.len() ==> errors@[e] == errs_bk[e],
            acts_bk.len() <= actions@.len(),
            forall|e: int| 0 <= e < acts_bk.len() ==> actions@[e] == acts_bk[e],
            forall|j: int|
                0 <= j < i ==> ({
                    let v = #[trigger] old(env).runtimes.runtimes@[j].version@;
                    spec_socket_probe(*probes, v) && !spec_kill_ok(*probes, v) ==> (match probes.runtimes@[find_probe(
                        probes.runtimes@,
                        v,
                        0,
                    )].kill {
                        ToolOutcome::Failure(d) => exists|e: int|
                            0 <= e < errors@.len() && (#[trigger] errors@[e] matches
                                FurnaceError::ExternalToolFailure(m) && m@ == v + ": "@ + d@),
                        ToolOutcome::Success => false,
                    })
                }),
            forall|j: int|
                0 <= j < i && spec_socket_probe(
                    *probes,
                    #[trigger] old(env).runtimes.runtimes@[j].version@,
                ) ==> exists|e: int|
                    0 <= e < actions@.len() && (#[trigger] actions@[e] matches Action::StopPool {
                        version,
                    } && version@ == old(env).runtimes.runtimes@[j].version@),
            (forall|j: int|
                0 <= j < probes.runtimes@.len() ==> !(#[trigger] probes.runtimes@[
                    j].socket_present)) ==> (errors@ == errs_bk && actions@ == acts_bk),
        decreases n - i,
    {
        let version = env.runtimes.runtimes[i].version.clone();
        proof {
            assert forall|j: int| 0 <= j < i implies env.runtimes.runtimes@[j].version@
                != version@ by {
                assert(env.runtimes.runtimes@[j].version@
                    != env.runtimes.runtimes@[i as int].version@);
            }
        }
        let (marker, _launch, kill) = probes.runtime_probe(version.as_str());
        proof {
            if (forall|j: int|
                0 <= j < probes.runtimes@.len() ==> !(#[trigger] probes.runtimes@[
                    j].socket_present)) {
                lemma_find_probe_bounds(probes.runtimes@, version@, 0);
                assert(!marker);
            }
        }
        let ghost acts0 = actions@;
        if marker {
            actions.push(Action::StopPool { version: version.clone() });
            proof {
                assert(actions@[actions@.len() - 1] matches Action::StopPool { version: pv }
                    && pv@ == version@);
            }
        }
        proof {
            assert forall|j: int|
                0 <= j < i + 1 && spec_socket_probe(
                    *probes,
                    #[trigger] old(env).runtimes.runtimes@[j].version@,
                ) implies exists|e: int|
                0 <= e < actions@.len() && (#[trigger] actions@[e] matches Action::StopPool {
                    version: pv,
                } && pv@ == old(env).runtimes.runtimes@[j].version@) by {
                let v = old(env).runtimes.runtimes@[j].version@;
                if j < i {
                    let w = choose|e: int|
                        0 <= e < acts0.len() && (#[trigger] acts0[e] matches Action::StopPool {
                            version: pv,
                        } && pv@ == v);
                    assert(actions@[w] == acts0[w]);
                } else {
                    assert(v == version@);
                    assert(marker);
                }
            }
        }
        let ghost rt0 = env.runtimes;
        let ghost errs0 = errors@;
        let res = env.runtimes.stop(version.as_str(), marker, &kill);
        match res {
            Ok(_) => {},
            Err(e) => {
                errors.push(e);
            },
        }
        proof {
            let rt1 = env.runtimes;
            lemma_find_rt_bounds(rt0.runtimes@, version@, 0);
            let k = find_rt(rt0.runtimes@, version@, 0);
            assert(rt0.runtimes@[i as int].version@ == version@);
            if k < i {
                assert(rt0.runtimes@[k].version@ != version@);
            }
            assert(k == i as int);
            assert(rt0.spec_state_of(version@) == rt0.runtimes@[i as int].state);
            assert(rt0.spec_state_of(version@) != RuntimeState::NotInstalled);
            if marker && (kill is Failure) {
                assert(rt1 == rt0);
                match &kill {
                    ToolOutcome::Failure(d) => {
                        assert(errors@[errors@.len() - 1] matches
                            FurnaceError::ExternalToolFailure(m) && m@ == version@ + ": "@ + d@);
                    },
                    ToolOutcome::Success => {},
                }
            } else {
                assert(rt1.runtimes@.len() == rt0.runtimes@.len());
                assert(forall|x: int|
                    0 <= x < rt0.runtimes@.len() && x != i ==> rt1.runtimes@[x]
                        == rt0.runtimes@[x]);
                assert(forall|x: int|
                    0 <= x < rt1.runtimes@.len() ==> rt1.runtimes@[x].version@
                        == #[trigger] rt0.runtimes@[x].version@);
                lemma_find_rt_versions_eq(rt0.runtimes@, rt1.runtimes@, version@, 0);
                assert(rt1.spec_state_of(version@) == rt1.runtimes@[i as int].state);
            }
            assert(env.runtimes.runtimes@[i as int].state == spec_stop_state(
                old(env).runtimes.runtimes@[i as int].state,
                marker,
                kill is Success,
            ));
            assert forall|j: int|
                0 <= j < i + 1 implies ({
                let v = #[trigger] old(env).runtimes.runtimes@[j].version@;
                spec_socket_probe(*probes, v) && !spec_kill_ok(*probes, v) ==> (match probes.runtimes@[find_probe(
                    probes.runtimes@,
                    v,
                    0,
                )].kill {
                    ToolOutcome::Failure(d) => exists|e: int|
                        0 <= e < errors@.len() && (#[trigger] errors@[e] matches
                            FurnaceError::ExternalToolFailure(m) && m@ == v + ": "@ + d@),
                    ToolOutcome::Success => false,
                })
            }) by {
                let v = old(env).runtimes.runtimes@[j].version@;
                if spec_socket_probe(*probes, v) && !spec_kill_ok(*probes, v) {
                    if j < i {
                        match probes.runtimes@[find_probe(probes.runtimes@, v, 0)].kill {
                            ToolOutcome::Failure(d) => {
                                let w = choose|e: int|
                                    0 <= e < errs0.len() && (#[trigger] errs0[e] matches
                                        FurnaceError::ExternalToolFailure(m) && m@ == v + ": "@
                                        + d@);
                                assert(errors@[w] == errs0[w]);
                            },
                            ToolOutcome::Success => {},
                        }
                    }
                }
            }
        }
        i = i + 1;
    }
    proof {
        assert forall|v: Seq<char>| #[trigger]
            env.runtimes.spec_state_of(v) == spec_stop_state(
                old(env).runtimes.spec_state_of(v),
                spec_socket_probe(*probes, v),
                spec_kill_ok(*probes, v),
            ) by {
            lemma_find_rt_versions_eq(old(env).runtimes.runtimes@, env.runtimes.runtimes@, v, 0);
            lemma_find_rt_bounds(old(env).runtimes.runtimes@, v, 0);
            let k = find_rt(old(env).runtimes.runtimes@, v, 0);
            if k < old(env).runtimes.runtimes@.len() {
                assert(old(env).runtimes.runtimes@[k].version@ == v);
                assert(env.runtimes.runtimes@[k].state == spec_stop_state(
                    old(env).runtimes.runtimes@[k].state,
                    spec_socket_probe(*probes, v),
                    spec_kill_ok(*probes, v),
                ));
            }
        }
    }
    let ok = errors.len() == 0;
    let ghost final_errs = errors@;
    let ghost final_acts = actions@;
    let report = StopReport { actions, errors, ok };
    proof {
        assert(report.errors@ == final_errs);
        assert(report.actions@ == final_acts);
        assert(forall|e: int| 0 <= e < errs_ng.len() ==> errs_bk[e] == errs_ng[e]);
        match &probes.nginx.apply {
            ToolOutcome::Failure(d) => {
                if probes.nginx.live {
                    let w = choose|e: int|
                        0 <= e < errs_ng.len() && (#[trigger] errs_ng[e] matches
                            FurnaceError::ExternalToolFailure(m) && m@ == d@);
                    assert(report.errors@[w] == errs_bk[w]);
                }
            },
            ToolOutcome::Success => {},
        }
        match &probes.apache.apply {
            ToolOutcome::Failure(d) => {
                if probes.apache.live {
                    let w = choose|e: int|
                        0 <= e < errs_bk.len() && (#[trigger] errs_bk[e] matches
                            FurnaceError::ExternalToolFailure(m) && m@ == d@);
                    assert(report.errors@[w] == errs_bk[w]);
                }
            },
            ToolOutcome::Success => {},
        }
        if probes.nginx.live {
            assert(acts_bk[0] matches Action::StopBackend { backend }
                && backend == BackendKind::Nginx);
            assert(report.actions@[0] == acts_bk[0]);
        }
        if probes.apache.live {
            let w = acts_bk.len() - 1;
            assert(acts_bk[w] matches Action::StopBackend { backend }
                && backend == BackendKind::Apache);
            assert(report.actions@[w] == acts_bk[w]);
        }
    }
    report
}

/// Where one runtime version lands after a serve pass: a missing install
/// is never created; otherwise the version is configured and, when its
/// socket answers or its launch succeeds, running.  A version whose stale
/// state said running keeps that state even when its relaunch failed.
pub open spec fn spec_served_state(st0: RuntimeState, p: Probes, v: Seq<char>) -> RuntimeState {
    if st0 == RuntimeState::NotInstalled {
        RuntimeState::NotInstalled
    } else if spec_socket_probe(p, v) || spec_launch_ok(p, v) {
        RuntimeState::Running
    } else if st0 == RuntimeState::Running {
        RuntimeState::Running
    } else {
        RuntimeState::Configured
    }
}

/// A serve pass that owes success: every referenced version is installed
/// and comes up, and every backend in use validates and applies cleanly.
pub open spec fn spec_serve_clean(env0: Environment, p: Probes) -> bool {
    let rs = env0.store.recipes@;
    &&& (forall|i: int|
        0 <= i < rs.len() ==> env0.runtimes.spec_state_of(#[trigger] rs[i].php_version@)
            != RuntimeState::NotInstalled)
    &&& (forall|i: int|
        0 <= i < rs.len() ==> (spec_socket_probe(p, #[trigger] rs[i].php_version@)
            || spec_launch_ok(p, rs[i].php_version@)))
    &&& (kind_in_use(rs, BackendKind::Nginx) ==> (p.nginx.validate is Success
        && p.nginx.apply is Success))
    &&& (kind_in_use(rs, BackendKind::Apache) ==> (p.apache.validate is Success
        && p.apache.apply is Success))
}

/// The report of a `serve` pass: the effects taken, the failures met, and
/// whether the pass as a whole succeeded.
#[derive(Debug)]
pub struct ServeReport {
    pub actions: Vec<Action>,
    pub errors: Vec<FurnaceError>,
    pub ok: bool,
}

/// Reconcile the world with the recipe store.  For every PHP version any
/// recipe references, ensure it is configured and running — a missing
/// install is a reported error, never an implicit install.  For every
/// recipe, render and write its backend config.  Then, once per distinct
/// backend kind in use — never once per recipe — validate and apply, and
/// refuse to apply whenever validation fails, surfacing the validator's
/// diagnostic verbatim.  Failures are accumulated, never fatal to the
/// batch; the pass succeeds only when the error set is empty.
/// An error run that extends another keeps every reported absence: each
/// missing-runtime report in the prefix is still present in the whole.
proof fn lemma_missing_reports_kept(
    pre: Seq<FurnaceError>,
    post: Seq<FurnaceError>,
    rs: Seq<Recipe>,
    rt: RuntimeManager,
)
    requires
        pre.len() <= post.len(),
        forall|e: int| 0 <= e < pre.len() ==> post[e] == pre[e],
        forall|j: int|
            0 <= j < rs.len() && rt.spec_state_of(#[trigger] rs[j].php_version@)
                == RuntimeState::NotInstalled ==> exists|e: int|
                0 <= e < pre.len() && pre[e] is NotFound,
    ensures
        forall|j: int|
            0 <= j < rs.len() && rt.spec_state_of(#[trigger] rs[j].php_version@)
                == RuntimeState::NotInstalled ==> exists|e: int|
                0 <= e < post.len() && post[e] is NotFound,
{
    assert forall|j: int|
        0 <= j < rs.len() && rt.spec_state_of(#[trigger] rs[j].php_version@)
            == RuntimeState::NotInstalled implies exists|e: int|
        0 <= e < post.len() && post[e] is NotFound by {
        let w = choose|e: int| 0 <= e < pre.len() && pre[e] is NotFound;
        assert(post[w] == pre[w]);
    }
}

/// The runtime pass of a serve: every version any recipe references is
/// configured and, where its probes allow, started; a missing install is a
/// reported error, never an implicit install.
fn serve_runtimes(
    env: &mut Environment,
    probes: &Probes,
    user: &str,
    group: &str,
    errors: &mut Vec<FurnaceError>,
    actions: &mut Vec<Action>,
)
    requires
        old(env).wf(),
    ensures
        final(env).wf(),
        final(env).home@ == old(env).home@,
        final(env).store == old(env).store,
        final(env).written@ == old(env).written@,
        final(env).loaded_nginx@ == old(env).loaded_nginx@,
        final(env).loaded_apache@ == old(env).loaded_apache@,
        forall|v: Seq<char>| #[trigger]
            final(env).runtimes.spec_state_of(v) == (if version_referenced(
                old(env).store.recipes@,
                v,
            ) {
                spec_served_state(old(env).runtimes.spec_state_of(v), *probes, v)
            } else {
                old(env).runtimes.spec_state_of(v)
            }),
        old(errors)@.len() <= final(errors)@.len(),
        forall|e: int| 0 <= e < old(errors)@.len() ==> final(errors)@[e] == old(errors)@[e],
        forall|j: int|
            0 <= j < old(env).store.recipes@.len() && old(env).runtimes.spec_state_of(
                #[trigger] old(env).store.recipes@[j].php_version@,
            ) == RuntimeState::NotInstalled ==> exists|e: int|
                0 <= e < final(errors)@.len() && final(errors)@[e] is NotFound,
        spec_serve_clean(*old(env), *probes) ==> final(errors)@.len() == old(errors)@.len(),
        no_backend_actions(old(actions)@) ==> no_backend_actions(final(actions)@),
        old(actions)@.len() <= final(actions)@.len(),
        forall|e: int| 0 <= e < old(actions)@.len() ==> final(actions)@[e] == old(actions)@[e],
        forall|e: int|
            old(actions)@.len() <= e < final(actions)@.len() ==> action_phase(
                #[trigger] final(actions)@[e],
            ) == 0,
{
    let ghost rs = old(env).store.recipes@;
    let n = env.store.recipes.len();
    // Runtime pass: every referenced version, each handled once.
    let mut i: usize = 0;
    while i < n
        invariant
            i <= n,
            env.wf(),
            env.home@ == old(env).home@,
            env.store == old(env).store,
            env.written@ == old(env).written@,
            env.loaded_nginx@ == old(env).loaded_nginx@,
            env.loaded_apache@ == old(env).loaded_apache@,
            rs == old(env).store.recipes@,
            n == env.store.recipes@.len(),
            env.runtimes.runtimes@.len() == old(env).runtimes.runtimes@.len(),
            forall|j: int|
                0 <= j < env.runtimes.runtimes@.len() ==> env.runtimes.runtimes@[j].version@
                    == #[trigger] old(env).runtimes.runtimes@[j].version@,
            forall|v: Seq<char>| #[trigger]
                env.runtimes.spec_state_of(v) == (if version_referenced(
                    rs.subrange(0, i as int),
                    v,
                ) {
                    spec_served_state(old(env).runtimes.spec_state_of(v), *probes, v)
                } else {
                    old(env).runtimes.spec_state_of(v)
                }),
            forall|j: int|
                0 <= j < i && old(env).runtimes.spec_state_of(
                    #[trigger] rs[j].php_version@,
                ) == RuntimeState::NotInstalled ==> exists|e: int|
                    0 <= e < errors@.len() && errors@[e] is NotFound,
            old(errors)@.len() <= errors@.len(),
            forall|e: int| 0 <= e < old(errors)@.len() ==> errors@[e] == old(errors)@[e],
            spec_serve_clean(*old(env), *probes) ==> errors@.len() == old(errors)@.len(),
            no_backend_actions(old(actions)@) ==> no_backend_actions(actions@),
            old(actions)@.len() <= actions@.len(),
            forall|e: int| 0 <= e < old(actions)@.len() ==> actions@[e] == old(actions)@[e],
            forall|e: int|
                old(actions)@.len() <= e < actions@.len() ==> action_phase(
                    #[trigger] actions@[e],
                ) == 0,
        decreases n - i,
    {
        let version = env.store.recipes[i].php_version.clone();
        let mut seen = false;
        let mut j: usize = 0;
        while j < i
            invariant
                j <= i,
                i < n,
                n == env.store.recipes@.len(),
                env.store == old(env).store,
                rs == old(env).store.recipes@,
                version@ == rs[i as int].php_version@,
                !seen ==> forall|jj: int| 0 <= jj < j ==> rs[jj].php_version@ != version@,
                seen ==> version_referenced(rs.subrange(0, i as int), version@),
            ensures
                seen == version_referenced(rs.subrange(0, i as int), version@),
            decreases i - j,
        {
            if str_eq(env.store.recipes[j].php_version.as_str(), version.as_str()) {
                seen = true;
                proof {
                    assert(rs.subrange(0, i as int)[j as int] == rs[j as int]);
                }
                break ;
            }
            j = j + 1;
        }
        let ghost prefix = rs.subrange(0, i as int);
        let ghost prefix1 = rs.subrange(0, i + 1);
        proof {
            assert forall|v: Seq<char>| version_referenced(prefix1, v) implies (version_referenced(
                prefix,
                v,
            ) || v == version@) by {
                let w = choose|x: int| 0 <= x < prefix1.len() && prefix1[x].php_version@ == v;
                if w < i {
                    assert(prefix[w] == prefix1[w]);
                } else {
                    assert(prefix1[w] == rs[i as int]);
                }
            }
            assert forall|v: Seq<char>| version_referenced(prefix, v) implies version_referenced(
                prefix1,
                v,
            ) by {
                let w = choose|x: int| 0 <= x < prefix.len() && prefix[x].php_version@ == v;
                assert(prefix1[w] == prefix[w]);
            }
            assert(prefix1[i as int] == rs[i as int]);
            assert(version_referenced(prefix1, version@));
            if !seen {
                assert(!version_referenced(prefix, version@));
            }
        }
        if !seen {
            let st = env.runtimes.state_of(version.as_str());
            match st {
                RuntimeState::NotInstalled => {
                    let mut m = String::from_str("php runtime is not installed: ");
                    m.append(version.as_str());
                    let ghost errs0 = errors@;
                    errors.push(FurnaceError::NotFound(m));
                    proof {
                        if spec_serve_clean(*old(env), *probes) {
                            assert(old(env).runtimes.spec_state_of(rs[i as int].php_version@)
                                != RuntimeState::NotInstalled);
                        }
                        assert(errors@[errors@.len() - 1] is NotFound);
                        assert(spec_served_state(
                            old(env).runtimes.spec_state_of(version@),
                            *probes,
                            version@,
                        ) == RuntimeState::NotInstalled);
                        assert forall|j2: int|
                            0 <= j2 < i + 1 && old(env).runtimes.spec_state_of(
                                #[trigger] rs[j2].php_version@,
                            ) == RuntimeState::NotInstalled implies exists|e: int|
                            0 <= e < errors@.len() && errors@[e] is NotFound by {
                            if j2 < i {
                                let w = choose|e: int| 0 <= e < errs0.len() && errs0[e] is NotFound;
                                assert(errors@[w] == errs0[w]);
                            } else {
                                assert(errors@[errors@.len() - 1] is NotFound);
                            }
                        }
                    }
                },
                _ => {
                    let ghost rt0 = env.runtimes;
                    let home = env.home.clone();
                    let cfg_res = env.runtimes.configure(
                        version.as_str(),
                        home.as_str(),
                        user,
                        group,
                    );
                    proof {
                        assert(cfg_res is Ok);
                    }
                    let ghost rt1 = env.runtimes;
                    let ghost acts0 = actions@;
                    actions.push(Action::WritePoolConfig { version: version.clone() });
                    proof {
                        let a = actions@.last();
                        assert(actions@ =~= acts0.push(a));
                        lemma_count_push(acts0, a, BackendKind::Nginx);
                        lemma_count_push(acts0, a, BackendKind::Apache);
                    }
                    let (sock, launch, _kill) = probes.runtime_probe(version.as_str());
                    if !sock {
                        let ghost acts1 = actions@;
                        actions.push(Action::StartPool { version: version.clone() });
                        proof {
                            let a = actions@.last();
                            assert(actions@ =~= acts1.push(a));
                            lemma_count_push(acts1, a, BackendKind::Nginx);
                            lemma_count_push(acts1, a, BackendKind::Apache);
                        }
                    }
                    let ghost errs_a = errors@;
                    let sres = env.runtimes.start(version.as_str(), sock, &launch);
                    match sres {
                        Ok(_) => {},
                        Err(e) => {
                            errors.push(e);
                        },
                    }
                    proof {
                        assert(rt0.spec_state_of(version@) == old(env).runtimes.spec_state_of(
                            version@,
                        ));
                        assert(old(env).runtimes.spec_state_of(rs[i as int].php_version@)
                            != RuntimeState::NotInstalled);
                        assert forall|j2: int|
                            0 <= j2 < i + 1 && old(env).runtimes.spec_state_of(
                                #[trigger] rs[j2].php_version@,
                            ) == RuntimeState::NotInstalled implies exists|e: int|
                            0 <= e < errors@.len() && errors@[e] is NotFound by {
                            if j2 < i {
                                let w = choose|e: int|
                                    0 <= e < errs_a.len() && errs_a[e] is NotFound;
                                assert(errors@[w] == errs_a[w]);
                            }
                        }
                        let rt2 = env.runtimes;
                        // the runtime pass leaves every version's slot, so
                        // version fields agree across all three snapshots
                        lemma_find_rt_bounds(rt0.runtimes@, version@, 0);
                        let k = find_rt(rt0.runtimes@, version@, 0);
                        assert(k < rt0.runtimes@.len());
                        assert(rt1.runtimes@.len() == rt0.runtimes@.len());
                        assert(forall|x: int|
                            0 <= x < rt1.runtimes@.len() ==> rt1.runtimes@[x].version@
                                == #[trigger] rt0.runtimes@[x].version@);
                        assert(rt2.runtimes@.len() == rt1.runtimes@.len());
                        assert(forall|x: int|
                            0 <= x < rt2.runtimes@.len() ==> rt2.runtimes@[x].version@
                                == #[trigger] rt1.runtimes@[x].version@);
                        // the processed version lands where the pass says
                        lemma_find_rt_versions_eq(rt0.runtimes@, rt1.runtimes@, version@, 0);
                        lemma_find_rt_versions_eq(rt1.runtimes@, rt2.runtimes@, version@, 0);
                        assert(env.runtimes.spec_state_of(version@) == spec_served_state(
                            old(env).runtimes.spec_state_of(version@),
                            *probes,
                            version@,
                        ));
                        // every other version is untouched
                        assert forall|v2: Seq<char>| v2 != version@ implies #[trigger]
                            rt2.spec_state_of(v2) == rt0.spec_state_of(v2) by {
                            lemma_find_rt_versions_eq(rt0.runtimes@, rt1.runtimes@, v2, 0);
                            lemma_find_rt_versions_eq(rt1.runtimes@, rt2.runtimes@, v2, 0);
                            lemma_find_rt_bounds(rt0.runtimes@, v2, 0);
                            let kk = find_rt(rt0.runtimes@, v2, 0);
                            if kk < rt0.runtimes@.len() {
                                assert(rt0.runtimes@[kk].version@ == v2);
                                assert(kk != k);
                                assert(rt1.runtimes@[kk] == rt0.runtimes@[kk]);
                                assert(rt2.runtimes@[kk] == rt1.runtimes@[kk]);
                            }
                        }
                        if spec_serve_clean(*old(env), *probes) {
                            assert(spec_socket_probe(*probes, rs[i as int].php_version@)
                                || spec_launch_ok(*probes, rs[i as int].php_version@));
                            assert(sres is Ok);
                        }
                    }
                },
            }
        } else {
            proof {
                assert forall|j2: int|
                    0 <= j2 < i + 1 && old(env).runtimes.spec_state_of(
                        #[trigger] rs[j2].php_version@,
                    ) == RuntimeState::NotInstalled implies exists|e: int|
                    0 <= e < errors@.len() && errors@[e] is NotFound by {
                    if j2 == i as int {
                        let jj = choose|x: int|
                            0 <= x < prefix.len() && prefix[x].php_version@ == version@;
                        assert(prefix[jj] == rs[jj]);
                        assert(rs[jj].php_version@ == version@);
                        assert(old(env).runtimes.spec_state_of(rs[jj].php_version@)
                            == RuntimeState::NotInstalled);
                    }
                }
            }
        }
        i = i + 1;
    }
    proof {
        assert(rs.subrange(0, n as int) =~= rs);
    }
    proof {
        assert(rs.subrange(0, n as int) =~= rs);
    }
}

/// The recipe pass of a serve: every recipe's config is rendered from the
/// store and written for its backend kind.
fn serve_configs(env: &mut Environment, actions: &mut Vec<Action>)
    requires
        old(env).wf(),
    ensures
        final(env).wf(),
        final(env).home@ == old(env).home@,
        final(env).store == old(env).store,
        final(env).runtimes == old(env).runtimes,
        final(env).loaded_nginx@ == old(env).loaded_nginx@,
        final(env).loaded_apache@ == old(env).loaded_apache@,
        forall|i: int|
            0 <= i < old(env).store.recipes@.len() ==> ({
                let rec = #[trigger] old(env).store.recipes@[i];
                spec_cfg_get(final(env).written@, spec_kind_of(rec.serve_with@), rec.name@)
                    == Some(
                    spec_render(
                        rec,
                        spec_socket_path(old(env).home@, rec.php_version@),
                        spec_kind_of(rec.serve_with@),
                        old(env).home@,
                    ),
                )
            }),
        no_backend_actions(old(actions)@) ==> no_backend_actions(final(actions)@),
        old(actions)@.len() <= final(actions)@.len(),
        forall|e: int| 0 <= e < old(actions)@.len() ==> final(actions)@[e] == old(actions)@[e],
        forall|e: int|
            old(actions)@.len() <= e < final(actions)@.len() ==> action_phase(
                #[trigger] final(actions)@[e],
            ) == 1,
{
    let ghost rs = old(env).store.recipes@;
    let n = env.store.recipes.len();
    // Recipe pass: every recipe's config rendered and written.
    let ghost rt_served = env.runtimes;
    let mut i2: usize = 0;
    while i2 < n
        invariant
            i2 <= n,
            env.wf(),
            env.home@ == old(env).home@,
            env.store == old(env).store,
            env.runtimes == rt_served,
            env.loaded_nginx@ == old(env).loaded_nginx@,
            env.loaded_apache@ == old(env).loaded_apache@,
            rs == old(env).store.recipes@,
            n == env.store.recipes@.len(),
            forall|j: int|
                0 <= j < i2 ==> #[trigger] spec_cfg_get(
                    env.written@,
                    spec_kind_of(rs[j].serve_with@),
                    rs[j].name@,
                ) == Some(
                    spec_render(
                        rs[j],
                        spec_socket_path(old(env).home@, rs[j].php_version@),
                        spec_kind_of(rs[j].serve_with@),
                        old(env).home@,
                    ),
                ),
            no_backend_actions(old(actions)@) ==> no_backend_actions(actions@),
            old(actions)@.len() <= actions@.len(),
            forall|e: int| 0 <= e < old(actions)@.len() ==> actions@[e] == old(actions)@[e],
            forall|e: int|
                old(actions)@.len() <= e < actions@.len() ==> action_phase(
                    #[trigger] actions@[e],
                ) == 1,
        decreases n - i2,
    {
        let rec = env.store.recipes[i2].clone();
        let sock = socket_path(env.home.as_str(), rec.php_version.as_str());
        let kind = backend_kind_of(rec.serve_with.as_str());
        let home = env.home.clone();
        let wres = match kind {
            BackendKind::Nginx => {
                let svc = NginxService::new(home.as_str());
                svc.write_conf(&mut env.written, &rec, sock.as_str(), home.as_str())
            },
            BackendKind::Apache => {
                let svc = ApacheService;
                svc.write_conf(&mut env.written, &rec, sock.as_str(), home.as_str())
            },
        };
        match wres {
            Ok(_) => {},
            Err(_) => {},
        }
        let ghost acts0 = actions@;
        actions.push(Action::WriteSiteConfig { backend: kind, name: rec.name.clone() });
        proof {
            let a = actions@.last();
            assert(actions@ =~= acts0.push(a));
            lemma_count_push(acts0, a, BackendKind::Nginx);
            lemma_count_push(acts0, a, BackendKind::Apache);
            assert forall|j: int| 0 <= j < i2 + 1 implies #[trigger] spec_cfg_get(
                env.written@,
                spec_kind_of(rs[j].serve_with@),
                rs[j].name@,
            ) == Some(
                spec_render(
                    rs[j],
                    spec_socket_path(old(env).home@, rs[j].php_version@),
                    spec_kind_of(rs[j].serve_with@),
                    old(env).home@,
                ),
            ) by {
                if j < i2 {
                    assert(rs[j].name@ != rs[i2 as int].name@);
                }
            }
        }
        i2 = i2 + 1;
    }
}

/// The backend pass of a serve: once per distinct backend kind in use, the
/// assembled tree is validated and, only on a clean validation, applied.
fn serve_backends(
    env: &mut Environment,
    probes: &Probes,
    errors: &mut Vec<FurnaceError>,
    actions: &mut Vec<Action>,
)
    requires
        old(env).wf(),
        no_backend_actions(old(actions)@),
    ensures
        final(env).wf(),
        final(env).home@ == old(env).home@,
        final(env).store == old(env).store,
        final(env).written@ == old(env).written@,
        final(env).runtimes == old(env).runtimes,
        count_validates(final(actions)@, BackendKind::Nginx) == (if kind_in_use(
            old(env).store.recipes@,
            BackendKind::Nginx,
        ) {
            1int
        } else {
            0int
        }),
        count_validates(final(actions)@, BackendKind::Apache) == (if kind_in_use(
            old(env).store.recipes@,
            BackendKind::Apache,
        ) {
            1int
        } else {
            0int
        }),
        count_applies(final(actions)@, BackendKind::Nginx) == (if kind_in_use(
            old(env).store.recipes@,
            BackendKind::Nginx,
        ) && probes.nginx.validate is Success {
            1int
        } else {
            0int
        }),
        count_applies(final(actions)@, BackendKind::Apache) == (if kind_in_use(
            old(env).store.recipes@,
            BackendKind::Apache,
        ) && probes.apache.validate is Success {
            1int
        } else {
            0int
        }),
        old(actions)@.len() <= final(actions)@.len(),
        forall|e: int| 0 <= e < old(actions)@.len() ==> final(actions)@[e] == old(actions)@[e],
        forall|e: int|
            old(actions)@.len() <= e < final(actions)@.len() ==> action_phase(
                #[trigger] final(actions)@[e],
            ) == 2,
        (kind_in_use(old(env).store.recipes@, BackendKind::Nginx)
            && probes.nginx.validate is Success && probes.nginx.apply is Success)
            ==> final(env).loaded_nginx@ == spec_of_kind(old(env).written@, BackendKind::Nginx),
        !(kind_in_use(old(env).store.recipes@, BackendKind::Nginx)
            && probes.nginx.validate is Success && probes.nginx.apply is Success)
            ==> final(env).loaded_nginx@ == old(env).loaded_nginx@,
        (kind_in_use(old(env).store.recipes@, BackendKind::Apache)
            && probes.apache.validate is Success && probes.apache.apply is Success)
            ==> final(env).loaded_apache@ == spec_of_kind(old(env).written@, BackendKind::Apache),
        !(kind_in_use(old(env).store.recipes@, BackendKind::Apache)
            && probes.apache.validate is Success && probes.apache.apply is Success)
            ==> final(env).loaded_apache@ == old(env).loaded_apache@,
        old(errors)@.len() <= final(errors)@.len(),
        forall|e: int| 0 <= e < old(errors)@.len() ==> final(errors)@[e] == old(errors)@[e],
        ((kind_in_use(old(env).store.recipes@, BackendKind::Nginx) ==> (
        probes.nginx.validate is Success && probes.nginx.apply is Success)) && (kind_in_use(
            old(env).store.recipes@,
            BackendKind::Apache,
        ) ==> (probes.apache.validate is Success && probes.apache.apply is Success)))
            ==> final(errors)@ == old(errors)@,
        (match probes.nginx.validate {
            ToolOutcome::Failure(d) => kind_in_use(old(env).store.recipes@, BackendKind::Nginx)
                ==> exists|e: int|
                0 <= e < final(errors)@.len() && (#[trigger] final(errors)@[e] matches
                    FurnaceError::ExternalToolFailure(m) && m@ == d@),
            ToolOutcome::Success => true,
        }),
        (match probes.apache.validate {
            ToolOutcome::Failure(d) => kind_in_use(old(env).store.recipes@, BackendKind::Apache)
                ==> exists|e: int|
                0 <= e < final(errors)@.len() && (#[trigger] final(errors)@[e] matches
                    FurnaceError::ExternalToolFailure(m) && m@ == d@),
            ToolOutcome::Success => true,
        }),
{
    let ghost rs = old(env).store.recipes@;
    let ghost errs1 = errors@;
    // Backend pass: validate once per distinct kind in use, apply only on a
    // clean validation.
    let (nginx_used, apache_used) = kinds_in_use(&env.store.recipes);
    if nginx_used {
        let ghost acts0 = actions@;
        actions.push(Action::Validate { backend: BackendKind::Nginx });
        proof {
            let a = actions@.last();
            assert(actions@ =~= acts0.push(a));
            lemma_count_push(acts0, a, BackendKind::Nginx);
            lemma_count_push(acts0, a, BackendKind::Apache);
        }
        if probes.nginx.validate.success() {
            let ghost acts1 = actions@;
            actions.push(Action::Apply { backend: BackendKind::Nginx, style: ReloadStyle::Graceful });
            proof {
                let a = actions@.last();
                assert(actions@ =~= acts1.push(a));
                lemma_count_push(acts1, a, BackendKind::Nginx);
                lemma_count_push(acts1, a, BackendKind::Apache);
            }
        }
        let svc = NginxService::new(env.home.as_str());
        match svc.reload(&probes.nginx.validate, &probes.nginx.apply) {
            Ok(_) => {
                let fresh = configs_of_kind(&env.written, BackendKind::Nginx);
                env.loaded_nginx = fresh;
            },
            Err(e) => {
                errors.push(e);
                proof {
                    match &probes.nginx.validate {
                        ToolOutcome::Failure(d) => {
                            assert(errors@[errors@.len() - 1] matches
                                FurnaceError::ExternalToolFailure(m) && m@ == d@);
                        },
                        ToolOutcome::Success => {},
                    }
                }
            },
        }
    }
    let ghost errs_n = errors@;
    if apache_used {
        let ghost acts0 = actions@;
        actions.push(Action::Validate { backend: BackendKind::Apache });
        proof {
            let a = actions@.last();
            assert(actions@ =~= acts0.push(a));
            lemma_count_push(acts0, a, BackendKind::Nginx);
            lemma_count_push(acts0, a, BackendKind::Apache);
        }
        if probes.apache.validate.success() {
            let ghost acts1 = actions@;
            actions.push(
                Action::Apply { backend: BackendKind::Apache, style: ReloadStyle::StopStart },
            );
            proof {
                let a = actions@.last();
                assert(actions@ =~= acts1.push(a));
                lemma_count_push(acts1, a, BackendKind::Nginx);
                lemma_count_push(acts1, a, BackendKind::Apache);
            }
        }
        let svc = ApacheService;
        match svc.reload(&probes.apache.validate, &probes.apache.apply) {
            Ok(_) => {
                let fresh = configs_of_kind(&env.written, BackendKind::Apache);
                env.loaded_apache = fresh;
            },
            Err(e) => {
                errors.push(e);
                proof {
                    match &probes.apache.validate {
                        ToolOutcome::Failure(d) => {
                            assert(errors@[errors@.len() - 1] matches
                                FurnaceError::ExternalToolFailure(m) && m@ == d@);
                        },
                        ToolOutcome::Success => {},
                    }
                }
            },
        }
    }
    proof {
        assert(forall|e: int| 0 <= e < errs1.len() ==> errs_n[e] == errs1[e]);
        assert(forall|e: int| 0 <= e < errs_n.len() ==> errors@[e] == errs_n[e]);
        match &probes.nginx.validate {
            ToolOutcome::Failure(d) => {
                if kind_in_use(rs, BackendKind::Nginx) {
                    let w = choose|e: int|
                        0 <= e < errs_n.len() && (#[trigger] errs_n[e] matches
                            FurnaceError::ExternalToolFailure(m) && m@ == d@);
                    assert(errors@[w] == errs_n[w]);
                }
            },
            ToolOutcome::Success => {},
        }
    }
}

#[verifier::rlimit(100)]
#[verifier::spinoff_prover]
pub fn serve(env: &mut Environment, probes: &Probes, user: &str, group: &str) -> (r: ServeReport)
    requires
        old(env).wf(),
    ensures
        final(env).wf(),
        final(env).home@ == old(env).home@,
        final(env).store == old(env).store,
        r.ok <==> r.errors@.len() == 0,
        spec_serve_clean(*old(env), *probes) ==> r.errors@.len() == 0,
        forall|v: Seq<char>| #[trigger]
            final(env).runtimes.spec_state_of(v) == (if version_referenced(
                old(env).store.recipes@,
                v,
            ) {
                spec_served_state(old(env).runtimes.spec_state_of(v), *probes, v)
            } else {
                old(env).runtimes.spec_state_of(v)
            }),
        forall|i: int|
            0 <= i < old(env).store.recipes@.len() ==> ({
                let rec = #[trigger] old(env).store.recipes@[i];
                spec_cfg_get(final(env).written@, spec_kind_of(rec.serve_with@), rec.name@)
                    == Some(
                    spec_render(
                        rec,
                        spec_socket_path(old(env).home@, rec.php_version@),
                        spec_kind_of(rec.serve_with@),
                        old(env).home@,
                    ),
                )
            }),
        forall|i: int|
            0 <= i < old(env).store.recipes@.len() && old(env).runtimes.spec_state_of(
                #[trigger] old(env).store.recipes@[i].php_version@,
            ) == RuntimeState::NotInstalled ==> exists|e: int|
                0 <= e < r.errors@.len() && r.errors@[e] is NotFound,
        count_validates(r.actions@, BackendKind::Nginx) == (if kind_in_use(
            old(env).store.recipes@,
            BackendKind::Nginx,
        ) {
            1int
        } else {
            0int
        }),
        count_validates(r.actions@, BackendKind::Apache) == (if kind_in_use(
            old(env).store.recipes@,
            BackendKind::Apache,
        ) {
            1int
        } else {
            0int
        }),
        count_applies(r.actions@, BackendKind::Nginx) == (if kind_in_use(
            old(env).store.recipes@,
            BackendKind::Nginx,
        ) && probes.nginx.validate is Success {
            1int
        } else {
            0int
        }),
        count_applies(r.actions@, BackendKind::Apache) == (if kind_in_use(
            old(env).store.recipes@,
            BackendKind::Apache,
        ) && probes.apache.validate is Success {
            1int
        } else {
            0int
        }),
        forall|i: int, j: int|
            #![trigger r.actions@[i], r.actions@[j]]
            0 <= i < j < r.actions@.len() ==> action_phase(r.actions@[i]) <= action_phase(
                r.actions@[j],
            ),
        (kind_in_use(old(env).store.recipes@, BackendKind::Nginx)
            && probes.nginx.validate is Success && probes.nginx.apply is Success) ==> final(env).loaded_nginx@ == spec_of_kind(final(env).written@, BackendKind::Nginx),
        !(kind_in_use(old(env).store.recipes@, BackendKind::Nginx)
            && probes.nginx.validate is Success && probes.nginx.apply is Success) ==> final(env).loaded_nginx@ == old(env).loaded_nginx@,
        (kind_in_use(old(env).store.recipes@, BackendKind::Apache)
            && probes.apache.validate is Success && probes.apache.apply is Success) ==> final(env).loaded_apache@ == spec_of_kind(final(env).written@, BackendKind::Apache),
        !(kind_in_use(old(env).store.recipes@, BackendKind::Apache)
            && probes.apache.validate is Success && probes.apache.apply is Success) ==> final(env).loaded_apache@ == old(env).loaded_apache@,
        (match probes.nginx.validate {
            ToolOutcome::Failure(d) => kind_in_use(old(env).store.recipes@, BackendKind::Nginx)
                ==> exists|e: int|
                0 <= e < r.errors@.len() && (#[trigger] r.errors@[e] matches
                    FurnaceError::ExternalToolFailure(m) && m@ == d@),
            ToolOutcome::Success => true,
        }),
        (match probes.apache.validate {
            ToolOutcome::Failure(d) => kind_in_use(old(env).store.recipes@, BackendKind::Apache)
                ==> exists|e: int|
                0 <= e < r.errors@.len() && (#[trigger] r.errors@[e] matches
                    FurnaceError::ExternalToolFailure(m) && m@ == d@),
            ToolOutcome::Success => true,
        }),
{
    let ghost rs = old(env).store.recipes@;
    let mut actions: Vec<Action> = Vec::new();
    let mut errors: Vec<FurnaceError> = Vec::new();
    serve_runtimes(env, probes, user, group, &mut errors, &mut actions);
    let ghost errs1 = errors@;
    let ghost acts1 = actions@;
    let ghost env1 = *env;
    serve_configs(env, &mut actions);
    let ghost acts2 = actions@;
    let ghost env2 = *env;
    serve_backends(env, probes, &mut errors, &mut actions);
    proof {
        assert(env2.store == old(env).store);
        assert(env1.store == old(env).store);
        lemma_missing_reports_kept(
            errs1,
            errors@,
            old(env).store.recipes@,
            old(env).runtimes,
        );
        if spec_serve_clean(*old(env), *probes) {
            assert(errs1.len() == 0);
            assert(errors@ == errs1);
        }
    }
    let ok = errors.len() == 0;
    let ghost final_errs = errors@;
    let ghost final_acts = actions@;
    let report = ServeReport { actions, errors, ok };
    proof {
        assert(report.errors@ == final_errs);
        assert(report.actions@ == final_acts);
        assert forall|i: int, j: int|
            #![trigger report.actions@[i], report.actions@[j]]
            0 <= i < j < report.actions@.len() implies action_phase(report.actions@[i])
            <= action_phase(report.actions@[j]) by {
            let n1 = acts1.len() as int;
            let n2 = acts2.len() as int;
            if i < n1 {
                assert(final_acts[i] == acts2[i] && acts2[i] == acts1[i]);
                assert(action_phase(final_acts[i]) == 0);
            } else if i < n2 {
                assert(final_acts[i] == acts2[i]);
                assert(action_phase(final_acts[i]) == 1);
            } else {
                assert(action_phase(final_acts[i]) == 2);
            }
            if j < n1 {
                assert(final_acts[j] == acts2[j] && acts2[j] == acts1[j]);
                assert(action_phase(final_acts[j]) == 0);
            } else if j < n2 {
                assert(final_acts[j] == acts2[j]);
                assert(action_phase(final_acts[j]) == 1);
            } else {
                assert(action_phase(final_acts[j]) == 2);
            }
        }
        assert forall|i: int|
            0 <= i < old(env).store.recipes@.len() && old(env).runtimes.spec_state_of(
                #[trigger] old(env).store.recipes@[i].php_version@,
            ) == RuntimeState::NotInstalled implies exists|e: int|
            0 <= e < report.errors@.len() && report.errors@[e] is NotFound by {
            let w = choose|e: int| 0 <= e < final_errs.len() && final_errs[e] is NotFound;
            assert(report.errors@[w] is NotFound);
        }
        match &probes.nginx.validate {
            ToolOutcome::Failure(d) => {
                if kind_in_use(old(env).store.recipes@, BackendKind::Nginx) {
                    let w = choose|e: int|
                        0 <= e < final_errs.len() && (#[trigger] final_errs[e] matches
                            FurnaceError::ExternalToolFailure(m) && m@ == d@);
                    assert(report.errors@[w] == final_errs[w]);
                }
            },
            ToolOutcome::Success => {},
        }
        match &probes.apache.validate {
            ToolOutcome::Failure(d) => {
                if kind_in_use(old(env).store.recipes@, BackendKind::Apache) {
                    let w = choose|e: int|
                        0 <= e < final_errs.len() && (#[trigger] final_errs[e] matches
                            FurnaceError::ExternalToolFailure(m) && m@ == d@);
                    assert(report.errors@[w] == final_errs[w]);
                }
            },
            ToolOutcome::Success => {},
        }
    }
    report
}

/// Restart the managed world: a full stop judged by `stop_probes`,
/// immediately followed by a full serve judged by `serve_probes`, with
/// nothing in between — the contract composes the two passes' effects.
#[verifier::rlimit(100)]
#[verifier::spinoff_prover]
pub fn restart(env: &mut Environment, stop_probes: &Probes, serve_probes: &Probes, user: &str, group: &str) -> (r: (
    StopReport,
    ServeReport,
))
    requires
        old(env).wf(),
    ensures
        final(env).wf(),
        final(env).home@ == old(env).home@,
        final(env).store == old(env).store,
        r.0.ok <==> r.0.errors@.len() == 0,
        r.1.ok <==> r.1.errors@.len() == 0,
        forall|v: Seq<char>| #[trigger]
            final(env).runtimes.spec_state_of(v) == ({
                let mid = spec_stop_state(
                    old(env).runtimes.spec_state_of(v),
                    spec_socket_probe(*stop_probes, v),
                    spec_kill_ok(*stop_probes, v),
                );
                if version_referenced(old(env).store.recipes@, v) {
                    spec_served_state(mid, *serve_probes, v)
                } else {
                    mid
                }
            }),
        forall|i: int|
            0 <= i < old(env).store.recipes@.len() ==> ({
                let rec = #[trigger] old(env).store.recipes@[i];
                spec_cfg_get(final(env).written@, spec_kind_of(rec.serve_with@), rec.name@)
                    == Some(
                    spec_render(
                        rec,
                        spec_socket_path(old(env).home@, rec.php_version@),
                        spec_kind_of(rec.serve_with@),
                        old(env).home@,
                    ),
                )
            }),
        forall|i: int|
            0 <= i < old(env).store.recipes@.len() && old(env).runtimes.spec_state_of(
                #[trigger] old(env).store.recipes@[i].php_version@,
            ) == RuntimeState::NotInstalled ==> exists|e: int|
                0 <= e < r.1.errors@.len() && r.1.errors@[e] is NotFound,
        count_validates(r.1.actions@, BackendKind::Nginx) == (if kind_in_use(
            old(env).store.recipes@,
            BackendKind::Nginx,
        ) {
            1int
        } else {
            0int
        }),
        count_validates(r.1.actions@, BackendKind::Apache) == (if kind_in_use(
            old(env).store.recipes@,
            BackendKind::Apache,
        ) {
            1int
        } else {
            0int
        }),
        count_applies(r.1.actions@, BackendKind::Nginx) == (if kind_in_use(
            old(env).store.recipes@,
            BackendKind::Nginx,
        ) && serve_probes.nginx.validate is Success {
            1int
        } else {
            0int
        }),
        count_applies(r.1.actions@, BackendKind::Apache) == (if kind_in_use(
            old(env).store.recipes@,
            BackendKind::Apache,
        ) && serve_probes.apache.validate is Success {
            1int
        } else {
            0int
        }),
        (kind_in_use(old(env).store.recipes@, BackendKind::Nginx)
            && serve_probes.nginx.validate is Success && serve_probes.nginx.apply is Success)
            ==> final(env).loaded_nginx@ == spec_of_kind(final(env).written@, BackendKind::Nginx),
        (kind_in_use(old(env).store.recipes@, BackendKind::Apache)
            && serve_probes.apache.validate is Success && serve_probes.apache.apply is Success)
            ==> final(env).loaded_apache@ == spec_of_kind(final(env).written@, BackendKind::Apache),
        (match serve_probes.nginx.validate {
            ToolOutcome::Failure(d) => kind_in_use(old(env).store.recipes@, BackendKind::Nginx)
                ==> exists|e: int|
                0 <= e < r.1.errors@.len() && (#[trigger] r.1.errors@[e] matches
                    FurnaceError::ExternalToolFailure(m) && m@ == d@),
            ToolOutcome::Success => true,
        }),
        (match serve_probes.apache.validate {
            ToolOutcome::Failure(d) => kind_in_use(old(env).store.recipes@, BackendKind::Apache)
                ==> exists|e: int|
                0 <= e < r.1.errors@.len() && (#[trigger] r.1.errors@[e] matches
                    FurnaceError::ExternalToolFailure(m) && m@ == d@),
            ToolOutcome::Success => true,
        }),
{
    let stop_report = stop(env, stop_probes);
    let ghost mid = *env;
    let serve_report = serve(env, serve_probes, user, group);
    proof {
        assert(mid.store == old(env).store);
        assert forall|v: Seq<char>| #[trigger]
            env.runtimes.spec_state_of(v) == ({
                let m0 = spec_stop_state(
                    old(env).runtimes.spec_state_of(v),
                    spec_socket_probe(*stop_probes, v),
                    spec_kill_ok(*stop_probes, v),
                );
                if version_referenced(old(env).store.recipes@, v) {
                    spec_served_state(m0, *serve_probes, v)
                } else {
                    m0
                }
            }) by {
            assert(mid.runtimes.spec_state_of(v) == spec_stop_state(
                old(env).runtimes.spec_state_of(v),
                spec_socket_probe(*stop_probes, v),
                spec_kill_ok(*stop_probes, v),
            ));
        }
        assert forall|i: int|
            0 <= i < old(env).store.recipes@.len() && old(env).runtimes.spec_state_of(
                #[trigger] old(env).store.recipes@[i].php_version@,
            ) == RuntimeState::NotInstalled implies exists|e: int|
            0 <= e < serve_report.errors@.len() && serve_report.errors@[e] is NotFound by {
            assert(mid.store.recipes@[i] == old(env).store.recipes@[i]);
            assert(mid.runtimes.spec_state_of(old(env).store.recipes@[i].php_version@)
                == RuntimeState::NotInstalled);
        }
    }
    let ghost serve_errs = serve_report.errors@;
    let result = (stop_report, serve_report);
    proof {
        assert(result.1.errors@ == serve_errs);
        assert forall|i: int|
            0 <= i < old(env).store.recipes@.len() && old(env).runtimes.spec_state_of(
                #[trigger] old(env).store.recipes@[i].php_version@,
            ) == RuntimeState::NotInstalled implies exists|e: int|
            0 <= e < result.1.errors@.len() && result.1.errors@[e] is NotFound by {
            let w = choose|e: int| 0 <= e < serve_errs.len() && serve_errs[e] is NotFound;
            assert(result.1.errors@[w] is NotFound);
        }
        match &serve_probes.nginx.validate {
            ToolOutcome::Failure(d) => {
                if kind_in_use(old(env).store.recipes@, BackendKind::Nginx) {
                    let w = choose|e: int|
                        0 <= e < serve_errs.len() && (#[trigger] serve_errs[e] matches
                            FurnaceError::ExternalToolFailure(m) && m@ == d@);
                    assert(result.1.errors@[w] == serve_errs[w]);
                }
            },
            ToolOutcome::Success => {},
        }
        match &serve_probes.apache.validate {
            ToolOutcome::Failure(d) => {
                if kind_in_use(old(env).store.recipes@, BackendKind::Apache) {
                    let w = choose|e: int|
                        0 <= e < serve_errs.len() && (#[trigger] serve_errs[e] matches
                            FurnaceError::ExternalToolFailure(m) && m@ == d@);
                    assert(result.1.errors@[w] == serve_errs[w]);
                }
            },
            ToolOutcome::Success => {},
        }
    }
    result
}

/// A snapshot of the managed world for display: how many recipes are
/// registered and which runtime versions are installed.
#[derive(Debug)]
pub struct StatusReport {
    pub recipe_count: usize,
    pub versions: Vec<String>,
}

/// Report the registry's size and the installed runtime versions.
pub fn status(env: &Environment) -> (r: StatusReport)
    ensures
        r.recipe_count == env.store.recipes@.len(),
        r.versions@.len() == env.runtimes.runtimes@.len(),
        forall|i: int|
            0 <= i < r.versions@.len() ==> r.versions@[i]@ == env.runtimes.runtimes@[i].version@,
{
    StatusReport {
        recipe_count: env.store.recipes.len(),
        versions: env.runtimes.list_versions(),
    }
}

/// What a one-time installation pass must do and warn about: the main
/// backend config to materialize when missing, the default runtime catalog
/// to seed — written on every install, as the bundled catalog always was —
/// and a warning for each backend binary the platform could not find:
/// degradation, never abort.
#[derive(Debug)]
pub struct InstallPlan {
    pub write_main_conf: bool,
    pub main_conf: String,
    pub catalog: String,
    pub warnings: Vec<String>,
}

/// Plan the installation of the managed services.  `nginx_probe` and
/// `apache_probe` carry the binary lookups; `main_conf_exists` reports
/// whether the managed top-level nginx config is already on disk.
pub fn install(nginx_probe: &ToolOutcome, apache_probe: &ToolOutcome, main_conf_exists: bool) -> (r:
    InstallPlan)
    ensures
        r.write_main_conf == !main_conf_exists,
        r.main_conf@ == crate::render::spec_main_nginx_conf(),
        r.catalog@ == crate::render::spec_default_repository(),
        r.warnings@.len() == (if *nginx_probe is Success {
            0int
        } else {
            1int
        }) + (if *apache_probe is Success {
            0int
        } else {
            1int
        }),
{
    let mut warnings: Vec<String> = Vec::new();
    if !ApacheService::detect_installation(apache_probe) {
        warnings.push(
            String::from_str("apache (httpd/apache2) is not installed or not in the search path"),
        );
    }
    if !NginxService::detect_installation(nginx_probe) {
        warnings.push(String::from_str("nginx is not installed or not in the search path"));
    }
    InstallPlan {
        write_main_conf: !main_conf_exists,
        main_conf: crate::render::main_nginx_conf(),
        catalog: crate::render::default_repository(),
        warnings,
    }
}

/// The installed PHP versions, in storage order.
pub fn php_list(env: &Environment) -> (r: Vec<String>)
    ensures
        r@.len() == env.runtimes.runtimes@.len(),
        forall|i: int|
            0 <= i < r@.len() ==> r@[i]@ == env.runtimes.runtimes@[i].version@,
{
    env.runtimes.list_versions()
}

/// Render one runtime's process-pool configuration, as guarded by the
/// catalog: a version/platform pair the catalog does not know is a distinct
/// error, as is a version that is not installed.
pub fn php_fpm_conf(
    env: &mut Environment,
    repo: &Repository,
    plat: Platform,
    version: &str,
    user: &str,
    group: &str,
) -> (r: Result<(), FurnaceError>)
    requires
        old(env).wf(),
    ensures
        final(env).wf(),
        final(env).home@ == old(env).home@,
        final(env).store == old(env).store,
        final(env).written@ == old(env).written@,
        final(env).loaded_nginx@ == old(env).loaded_nginx@,
        final(env).loaded_apache@ == old(env).loaded_apache@,
        r is Ok <==> (spec_source_for(*repo, version@, plat) is Some && old(env).runtimes.spec_state_of(version@) != RuntimeState::NotInstalled),
        r is Err ==> (*final(env) == *old(env) && (r matches Err(FurnaceError::NotFound(_)))),
        r is Ok ==> ({
            let k = find_rt(old(env).runtimes.runtimes@, version@, 0);
            &&& final(env).runtimes.runtimes@.len() == old(env).runtimes.runtimes@.len()
            &&& (forall|j: int|
                0 <= j < old(env).runtimes.runtimes@.len() && j != k ==> final(env).runtimes.runtimes@[j] == old(env).runtimes.runtimes@[j])
            &&& final(env).runtimes.runtimes@[k].version@ == version@
            &&& final(env).runtimes.runtimes@[k].pool_config matches Some(t) && t@
                == spec_render_pool(
                spec_php_version_dir(old(env).home@, version@),
                user@,
                group@,
                spec_socket_path(old(env).home@, version@),
            )
            &&& final(env).runtimes.spec_state_of(version@) == (if old(env).runtimes.spec_state_of(version@) == RuntimeState::Installed {
                RuntimeState::Configured
            } else {
                old(env).runtimes.spec_state_of(version@)
            })
        }),
{
    match repo.source_for(version, plat) {
        None => {
            let mut m = String::from_str("version/platform not present in the runtime catalog: ");
            m.append(version);
            Err(FurnaceError::NotFound(m))
        },
        Some(_) => {
            let home = env.home.clone();
            env.runtimes.configure(version, home.as_str(), user, group)
        },
    }
}

/// The recipe the project directory `cwd` resolves to: the store's own
/// entry for the path wins; failing that, the back-reference is followed
/// into the store.
pub open spec fn spec_recipe_for_dir(st: RecipeStore, cwd: Seq<char>) -> Option<Recipe> {
    match spec_get_by_path(st.recipes@, cwd) {
        Some(r) => Some(r),
        None => match spec_backref_get(st.backrefs@, cwd) {
            Some(n) => spec_get(st.recipes@, n),
            None => None,
        },
    }
}

/// Bind the project at `cwd` to the installed runtime `version`: the
/// recipe's version field is updated in place, its configs for both
/// backends are re-rendered against the new socket path — every other
/// recipe's config is left untouched — and nginx is reloaded only if its
/// validator passes.  A version that is not installed is a fatal error;
/// everything else that goes wrong is collected and returned as warnings.
#[verifier::rlimit(100)]
#[verifier::spinoff_prover]
pub fn php_use(
    env: &mut Environment,
    repo: &Repository,
    plat: Platform,
    cwd: &str,
    version: &str,
    user: &str,
    group: &str,
    validate: &ToolOutcome,
    apply: &ToolOutcome,
) -> (r: Result<Vec<FurnaceError>, FurnaceError>)
    requires
        old(env).wf(),
    ensures
        final(env).wf(),
        final(env).home@ == old(env).home@,
        final(env).store.backrefs@ == old(env).store.backrefs@,
        final(env).loaded_apache@ == old(env).loaded_apache@,
        old(env).runtimes.spec_state_of(version@) == RuntimeState::NotInstalled ==> (r matches Err(
            FurnaceError::NotFound(_),
        ) && *final(env) == *old(env)),
        old(env).runtimes.spec_state_of(version@) != RuntimeState::NotInstalled ==> r is Ok,
        r is Ok && spec_recipe_for_dir(old(env).store, cwd@) is None ==> (final(env).store.recipes@
            == old(env).store.recipes@ && final(env).written@ == old(env).written@ && final(env).loaded_nginx@ == old(env).loaded_nginx@),
        (match spec_recipe_for_dir(old(env).store, cwd@) {
            Some(r0) => r is Ok ==> ({
                &&& (match spec_get(final(env).store.recipes@, r0.name@) {
                    Some(r1) => {
                        &&& r1.name@ == r0.name@
                        &&& r1.path@ == r0.path@
                        &&& r1.site@ == r0.site@
                        &&& r1.serve_with@ == r0.serve_with@
                        &&& r1.php_version@ == version@
                        &&& spec_cfg_get(final(env).written@, BackendKind::Nginx, r0.name@)
                            == Some(
                            spec_render(
                                r1,
                                spec_socket_path(old(env).home@, version@),
                                BackendKind::Nginx,
                                old(env).home@,
                            ),
                        )
                        &&& spec_cfg_get(final(env).written@, BackendKind::Apache, r0.name@)
                            == Some(
                            spec_render(
                                r1,
                                spec_socket_path(old(env).home@, version@),
                                BackendKind::Apache,
                                old(env).home@,
                            ),
                        )
                    },
                    None => false,
                })
                &&& final(env).store.recipes@.len() == old(env).store.recipes@.len()
                &&& (forall|j: int|
                    0 <= j < old(env).store.recipes@.len() && old(env).store.recipes@[j].name@
                        != r0.name@ ==> final(env).store.recipes@[j] == old(env).store.recipes@[j])
                &&& (forall|kk: BackendKind, n2: Seq<char>|
                    n2 != r0.name@ ==> #[trigger] spec_cfg_get(final(env).written@, kk, n2)
                        == spec_cfg_get(old(env).written@, kk, n2))
                &&& ((*validate is Success && *apply is Success) ==> final(env).loaded_nginx@
                    == spec_of_kind(final(env).written@, BackendKind::Nginx))
                &&& (!(*validate is Success && *apply is Success) ==> final(env).loaded_nginx@
                    == old(env).loaded_nginx@)
            }),
            None => true,
        }),
        (match r {
            Ok(w) => {
                &&& (match validate {
                    ToolOutcome::Failure(d) => spec_recipe_for_dir(old(env).store, cwd@) is Some
                        ==> exists|x: int|
                        0 <= x < w@.len() && (#[trigger] w@[x] matches
                            FurnaceError::ExternalToolFailure(m) && m@ == d@),
                    ToolOutcome::Success => true,
                })
                &&& (spec_source_for(*repo, version@, plat) is None ==> exists|x: int|
                    0 <= x < w@.len() && (#[trigger] w@[x] is NotFound))
                &&& (spec_source_for(*repo, version@, plat) is Some ==> final(env).runtimes.spec_state_of(version@) == (if old(env).runtimes.spec_state_of(version@)
                    == RuntimeState::Installed {
                    RuntimeState::Configured
                } else {
                    old(env).runtimes.spec_state_of(version@)
                }))
            },
            Err(_) => true,
        }),
{
    let st = env.runtimes.state_of(version);
    match st {
        RuntimeState::NotInstalled => {
            let mut m = String::from_str("php version is not installed: ");
            m.append(version);
            return Err(FurnaceError::NotFound(m));
        },
        _ => {},
    }
    let mut warnings: Vec<FurnaceError> = Vec::new();
    let found: Option<Recipe> = match env.store.get_by_path(cwd) {
        Some(rec) => Some(rec),
        None => match env.store.backref_name(cwd) {
            Some(n) => env.store.get(n.as_str()),
            None => None,
        },
    };
    let ghost env0 = *env;
    match found {
        Some(r0) => {
            let r1 = Recipe {
                name: r0.name.clone(),
                path: r0.path.clone(),
                php_version: version.to_owned(),
                serve_with: r0.serve_with.clone(),
                site: r0.site.clone(),
            };
            proof {
                let s = env.store.recipes@;
                crate::store::lemma_find_path_bounds(s, cwd@, 0);
                crate::store::lemma_find_name_bounds(
                    s,
                    spec_backref_get(env.store.backrefs@, cwd@)->0,
                    0,
                );
                let k0 = if spec_get_by_path(s, cwd@) is Some {
                    crate::store::find_path(s, cwd@, 0)
                } else {
                    crate::store::find_name(s, spec_backref_get(env.store.backrefs@, cwd@)->0, 0)
                };
                assert(0 <= k0 < s.len() && s[k0] == r0);
                assert(spec_recipe_valid(r0));
                assert(spec_recipe_valid(r1));
                assert forall|i: int|
                    0 <= i < s.len() && s[i].path@ == r1.path@ implies s[i].name@
                    == r1.name@ by {
                    if i != k0 {
                        assert(s[i].path@ != s[k0].path@);
                    }
                }
                assert(!path_conflict(s, r1));
            }
            let pres = env.store.put(r1.clone());
            proof {
                assert(pres is Ok);
                crate::store::lemma_put_get(env0.store.recipes@, r1);
            }
            let sock = socket_path(env.home.as_str(), version);
            let home = env.home.clone();
            let nginx = NginxService::new(home.as_str());
            let ghost w0 = env.written@;
            let res_n = nginx.write_conf(&mut env.written, &r1, sock.as_str(), home.as_str());
            match res_n {
                Ok(_) => {},
                Err(_) => {},
            }
            let ghost w_mid = env.written@;
            let apache = ApacheService;
            let res_a = apache.write_conf(&mut env.written, &r1, sock.as_str(), home.as_str());
            match res_a {
                Ok(_) => {},
                Err(_) => {},
            }
            proof {
                crate::store::lemma_find_name_bounds(env0.store.recipes@, r0.name@, 0);
                assert forall|kk: BackendKind, n2: Seq<char>| n2 != r0.name@ implies #[trigger]
                    spec_cfg_get(env.written@, kk, n2) == spec_cfg_get(env0.written@, kk, n2) by {
                    assert(spec_cfg_get(env.written@, kk, n2) == spec_cfg_get(w_mid, kk, n2));
                    assert(spec_cfg_get(w_mid, kk, n2) == spec_cfg_get(w0, kk, n2));
                }
            }
            let svc = NginxService::new(home.as_str());
            match svc.reload(validate, apply) {
                Ok(_) => {
                    let fresh = configs_of_kind(&env.written, BackendKind::Nginx);
                    env.loaded_nginx = fresh;
                },
                Err(e) => {
                    warnings.push(e);
                    proof {
                        match validate {
                            ToolOutcome::Failure(d) => {
                                assert(warnings@[warnings@.len() - 1] matches
                                    FurnaceError::ExternalToolFailure(m) && m@ == d@);
                            },
                            ToolOutcome::Success => {},
                        }
                    }
                },
            }
        },
        None => {},
    }
    let ghost env_mid = *env;
    let ghost warns_mid = warnings@;
    let pool_res = php_fpm_conf(env, repo, plat, version, user, group);
    match pool_res {
        Ok(_) => {},
        Err(e) => {
            warnings.push(e);
            proof {
                assert(warnings@[warnings@.len() - 1] is NotFound);
            }
        },
    }
    let ghost final_warns = warnings@;
    let res: Result<Vec<FurnaceError>, FurnaceError> = Ok(warnings);
    proof {
        assert(res matches Ok(w) && w@ == final_warns);
        assert(forall|x: int| 0 <= x < warns_mid.len() ==> final_warns[x] == warns_mid[x]);
        match validate {
            ToolOutcome::Failure(d) => {
                if spec_recipe_for_dir(old(env).store, cwd@) is Some {
                    let w = choose|x: int|
                        0 <= x < warns_mid.len() && (#[trigger] warns_mid[x] matches
                            FurnaceError::ExternalToolFailure(m) && m@ == d@);
                    assert(final_warns[w] == warns_mid[w]);
                }
            },
            ToolOutcome::Success => {},
        }
    }
    res
}

/// Disposing is idempotent at every layer: a second disposal of the same
/// name finds nothing left to remove and changes nothing.
pub proof fn lemma_dispose_idempotent(
    recipes: Seq<Recipe>,
    backrefs: Seq<crate::store::BackRef>,
    written: Seq<SiteConfig>,
    n: Seq<char>,
)
    requires
        crate::store::names_unique(recipes),
    ensures
        spec_remove(spec_remove(recipes, n), n) == spec_remove(recipes, n),
        spec_drop_refs(spec_drop_refs(backrefs, n), n) == spec_drop_refs(backrefs, n),
        spec_drop_cfgs(spec_drop_cfgs(written, n), n) == spec_drop_cfgs(written, n),
{
    crate::store::lemma_remove_idempotent(recipes, n);
    crate::store::lemma_drop_refs_idempotent(backrefs, n);
    crate::web_service::lemma_drop_cfgs_idempotent(written, n);
}

} // verus!
