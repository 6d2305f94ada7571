use vstd::prelude::*;
use crate::error::FurnaceError;
use crate::recipe::Recipe;
use crate::strutil::{str_eq, contains, spec_contains};

verus! {

/// The closed set of supported web-server backends.
#[derive(Clone, Copy, Debug, PartialEq, Eq, Structural)]
pub enum BackendKind {
    Nginx,
    Apache,
}

/// What an external tool invocation reported back: success, or failure with
/// the tool's raw diagnostic text.
#[derive(Debug)]
pub enum ToolOutcome {
    Success,
    Failure(String),
}

impl Clone for ToolOutcome {
    fn clone(&self) -> (r: Self)
        ensures
            r == *self,
    {
        match self {
            ToolOutcome::Success => ToolOutcome::Success,
            ToolOutcome::Failure(d) => ToolOutcome::Failure(d.clone()),
        }
    }
}

impl ToolOutcome {
    pub fn success(&self) -> (r: bool)
        ensures
            r == (*self is Success),
    {
        match self {
            ToolOutcome::Success => true,
            ToolOutcome::Failure(_) => false,
        }
    }
}

/// One rendered site configuration as materialized for a backend: the
/// derived artifact of a (recipe, backend) pair.
#[derive(Debug)]
pub struct SiteConfig {
    pub backend: BackendKind,
    pub name: String,
    pub text: String,
}

impl Clone for SiteConfig {
    fn clone(&self) -> (r: Self)
        ensures
            r == *self,
    {
        SiteConfig { backend: self.backend, name: self.name.clone(), text: self.text.clone() }
    }
}

/// First index at or after `i` keyed by (`k`, `n`), or `s.len()`.
pub open spec fn find_cfg(s: Seq<SiteConfig>, k: BackendKind, n: Seq<char>, i: int) -> int
    decreases s.len() - i when 0 <= i <= s.len()
{
    if i >= s.len() {
        s.len() as int
    } else if s[i].backend == k && s[i].name@ == n {
        i
    } else {
        find_cfg(s, k, n, i + 1)
    }
}

/// The text stored under (`k`, `n`), if any.
pub open spec fn spec_cfg_get(s: Seq<SiteConfig>, k: BackendKind, n: Seq<char>) -> Option<
    Seq<char>,
> {
    let idx = find_cfg(s, k, n, 0);
    if idx < s.len() {
        Some(s[idx].text@)
    } else {
        None
    }
}

/// Each (backend, name) pair appears at most once.
pub open spec fn cfg_keys_unique(s: Seq<SiteConfig>) -> bool {
    forall|i: int, j: int|
        0 <= i < j < s.len() ==> !(s[i].backend == s[j].backend && s[i].name@ == s[j].name@)
}

/// The configs that remain once every entry named `n` is dropped, for any
/// backend.
pub open spec fn spec_drop_cfgs(s: Seq<SiteConfig>, n: Seq<char>) -> Seq<SiteConfig>
    decreases s.len(),
{
    if s.len() == 0 {
        Seq::empty()
    } else {
        let rest = spec_drop_cfgs(s.drop_last(), n);
        if s.last().name@ == n {
            rest
        } else {
            rest.push(s.last())
        }
    }
}

/// The entries of backend kind `k`, in order.
pub open spec fn spec_of_kind(s: Seq<SiteConfig>, k: BackendKind) -> Seq<SiteConfig>
    decreases s.len(),
{
    if s.len() == 0 {
        Seq::empty()
    } else {
        let rest = spec_of_kind(s.drop_last(), k);
        if s.last().backend == k {
            rest.push(s.last())
        } else {
            rest
        }
    }
}

pub proof fn lemma_find_cfg_bounds(s: Seq<SiteConfig>, k: BackendKind, n: Seq<char>, i: int)
    requires
        0 <= i <= s.len(),
    ensures
        i <= find_cfg(s, k, n, i) <= s.len(),
        forall|j: int|
            i <= j < find_cfg(s, k, n, i) ==> !(s[j].backend == k && s[j].name@ == n),
        find_cfg(s, k, n, i) < s.len() ==> s[find_cfg(s, k, n, i)].backend == k && s[find_cfg(
            s,
            k,
            n,
            i,
        )].name@ == n,
    decreases s.len() - i,
{
    if i < s.len() && !(s[i].backend == k && s[i].name@ == n) {
        lemma_find_cfg_bounds(s, k, n, i + 1);
    }
}

/// Facts about dropping every config named `n`: survivors come from the
/// original run, none is named `n`, key uniqueness survives, and entries
/// under other names keep their bindings.
pub proof fn lemma_drop_cfgs(s: Seq<SiteConfig>, n: Seq<char>)
    ensures
        forall|i: int|
            0 <= i < spec_drop_cfgs(s, n).len() ==> #[trigger] spec_drop_cfgs(s, n)[i].name@ != n,
        forall|i: int|
            0 <= i < spec_drop_cfgs(s, n).len() ==> exists|j: int|
                0 <= j < s.len() && s[j] == #[trigger] spec_drop_cfgs(s, n)[i],
        cfg_keys_unique(s) ==> cfg_keys_unique(spec_drop_cfgs(s, n)),
        forall|k: BackendKind| #[trigger] spec_cfg_get(spec_drop_cfgs(s, n), k, n) is None,
    decreases s.len(),
{
    if s.len() > 0 {
        lemma_drop_cfgs(s.drop_last(), n);
        let rest = spec_drop_cfgs(s.drop_last(), n);
        let whole = spec_drop_cfgs(s, n);
        assert(forall|j: int| 0 <= j < s.drop_last().len() ==> s.drop_last()[j] == s[j]);
        if s.last().name@ != n {
            assert(whole == rest.push(s.last()));
            assert(forall|i: int| 0 <= i < rest.len() ==> whole[i] == rest[i]);
            assert(whole[whole.len() - 1] == s.last());
            if cfg_keys_unique(s) {
                assert forall|i: int, j: int| 0 <= i < j < whole.len() implies !(whole[i].backend
                    == whole[j].backend && whole[i].name@ == whole[j].name@) by {
                    if j < whole.len() - 1 {
                        assert(whole[i] == rest[i] && whole[j] == rest[j]);
                    } else {
                        assert(whole[j] == s.last());
                        let wi = choose|x: int|
                            0 <= x < s.drop_last().len() && s.drop_last()[x] == rest[i];
                        assert(s[wi] == whole[i]);
                        assert(s[s.len() - 1] == s.last());
                        assert(!(s[wi].backend == s[s.len() - 1].backend && s[wi].name@ == s[s.len()
                            - 1].name@));
                    }
                }
            }
        }
        assert forall|k: BackendKind| #[trigger] spec_cfg_get(whole, k, n) is None by {
            lemma_find_cfg_bounds(whole, k, n, 0);
            let idx = find_cfg(whole, k, n, 0);
            if idx < whole.len() {
                assert(whole[idx].name@ == n);
                assert(whole[idx].name@ != n);
            }
        }
    }
}

/// A run of configs that never carries the name `n` is left whole by
/// dropping the configs named `n`.
pub proof fn lemma_drop_cfgs_identity(s: Seq<SiteConfig>, n: Seq<char>)
    requires
        forall|i: int| 0 <= i < s.len() ==> s[i].name@ != n,
    ensures
        spec_drop_cfgs(s, n) == s,
    decreases s.len(),
{
    if s.len() > 0 {
        assert(forall|j: int| 0 <= j < s.drop_last().len() ==> s.drop_last()[j] == s[j]);
        lemma_drop_cfgs_identity(s.drop_last(), n);
        assert(spec_drop_cfgs(s, n) =~= s);
    } else {
        assert(spec_drop_cfgs(s, n) =~= s);
    }
}

/// Dropping the configs named `n` a second time changes nothing.
pub proof fn lemma_drop_cfgs_idempotent(s: Seq<SiteConfig>, n: Seq<char>)
    ensures
        spec_drop_cfgs(spec_drop_cfgs(s, n), n) == spec_drop_cfgs(s, n),
{
    lemma_drop_cfgs(s, n);
    lemma_drop_cfgs_identity(spec_drop_cfgs(s, n), n);
}

/// Two runs that agree except where neither carries the key (`kk`, `nn`)
/// resolve that key to the same binding.
pub proof fn lemma_find_cfg_agree(
    s1: Seq<SiteConfig>,
    s2: Seq<SiteConfig>,
    kk: BackendKind,
    nn: Seq<char>,
    i: int,
)
    requires
        0 <= i <= s1.len(),
        s1.len() <= s2.len(),
        forall|j: int|
            0 <= j < s1.len() ==> (#[trigger] s2[j] == s1[j] || (!(s1[j].backend == kk
                && s1[j].name@ == nn) && !(s2[j].backend == kk && s2[j].name@ == nn))),
        forall|j: int| s1.len() <= j < s2.len() ==> !(#[trigger] s2[j].backend == kk && s2[j].name@
            == nn),
    ensures
        find_cfg(s1, kk, nn, i) < s1.len() ==> find_cfg(s2, kk, nn, i) == find_cfg(s1, kk, nn, i)
            && s2[find_cfg(s1, kk, nn, i)] == s1[find_cfg(s1, kk, nn, i)],
        find_cfg(s1, kk, nn, i) == s1.len() ==> find_cfg(s2, kk, nn, i) == s2.len(),
    decreases s1.len() - i,
{
    if i < s1.len() {
        if s1[i].backend == kk && s1[i].name@ == nn {
            assert(s2[i] == s1[i]);
        } else {
            assert(!(s2[i].backend == kk && s2[i].name@ == nn));
            lemma_find_cfg_agree(s1, s2, kk, nn, i + 1);
        }
    } else {
        lemma_find_cfg_bounds(s2, kk, nn, i);
        if find_cfg(s2, kk, nn, i) < s2.len() {
            assert(s2[find_cfg(s2, kk, nn, i)].backend == kk && s2[find_cfg(s2, kk, nn, i)].name@
                == nn);
        }
    }
}

/// Bind (`kind`, `name`) to `text` in the config set, replacing an existing
/// binding or appending a fresh one; every other binding is untouched.
pub fn upsert_config(v: &mut Vec<SiteConfig>, kind: BackendKind, name: &str, text: String)
    requires
        cfg_keys_unique(old(v)@),
    ensures
        cfg_keys_unique(final(v)@),
        spec_cfg_get(final(v)@, kind, name@) == Some(text@),
        find_cfg(old(v)@, kind, name@, 0) < old(v)@.len() ==> final(v)@.len() == old(v)@.len(),
        find_cfg(old(v)@, kind, name@, 0) == old(v)@.len() ==> final(v)@.len() == old(v)@.len()
            + 1,
        forall|j: int|
            0 <= j < old(v)@.len() && j != find_cfg(old(v)@, kind, name@, 0) ==> final(v)@[j]
                == old(v)@[j],
        forall|kk: BackendKind, nn: Seq<char>|
            !(kk == kind && nn == name@) ==> #[trigger] spec_cfg_get(final(v)@, kk, nn)
                == spec_cfg_get(old(v)@, kk, nn),
{
    let entry = SiteConfig { backend: kind, name: name.to_owned(), text };
    let n = v.len();
    let mut i: usize = 0;
    while i < n
        invariant
            i <= n,
            cfg_keys_unique(v@),
            v@ == old(v)@,
            n == v@.len(),
            forall|j: int| 0 <= j < i ==> !(v@[j].backend == kind && v@[j].name@ == name@),
            entry.backend == kind && entry.name@ == name@ && entry.text@ == text@,
        decreases n - i,
    {
        let hit = match (&v[i].backend, &kind) {
            (BackendKind::Nginx, BackendKind::Nginx) => true,
            (BackendKind::Apache, BackendKind::Apache) => true,
            _ => false,
        };
        if hit && str_eq(v[i].name.as_str(), name) {
            proof {
                let s0 = v@;
                lemma_find_cfg_bounds(s0, kind, name@, 0);
                let f = find_cfg(s0, kind, name@, 0);
                if f < i {
                    assert(!(s0[f].backend == kind && s0[f].name@ == name@));
                }
                if i < f {
                    assert(!(s0[i as int].backend == kind && s0[i as int].name@ == name@));
                }
                assert(f == i as int);
            }
            let ghost s0 = v@;
            v.set(i, entry);
            proof {
                let s1 = v@;
                assert forall|x: int, y: int| 0 <= x < y < s1.len() implies !(s1[x].backend
                    == s1[y].backend && s1[x].name@ == s1[y].name@) by {
                    if x != i as int && y != i as int {
                        assert(s1[x] == s0[x] && s1[y] == s0[y]);
                    } else if x == i as int {
                        assert(!(s0[y].backend == s0[i as int].backend && s0[y].name@ == s0[
                            i as int].name@));
                    } else {
                        assert(!(s0[x].backend == s0[i as int].backend && s0[x].name@ == s0[
                            i as int].name@));
                    }
                }
                lemma_find_cfg_bounds(s1, kind, name@, 0);
                let f1 = find_cfg(s1, kind, name@, 0);
                assert(s1[i as int].backend == kind && s1[i as int].name@ == name@);
                if f1 < i {
                    assert(s1[f1] == s0[f1]);
                    assert(!(s0[f1].backend == kind && s0[f1].name@ == name@));
                }
                assert(f1 == i as int);
                assert forall|kk: BackendKind, nn: Seq<char>|
                    !(kk == kind && nn == name@) implies #[trigger] spec_cfg_get(s1, kk, nn)
                    == spec_cfg_get(s0, kk, nn) by {
                    lemma_find_cfg_agree(s0, s1, kk, nn, 0);
                    lemma_find_cfg_bounds(s0, kk, nn, 0);
                }
            }
            return ;
        }
        i = i + 1;
    }
    proof {
        let s0 = v@;
        lemma_find_cfg_bounds(s0, kind, name@, 0);
        assert(find_cfg(s0, kind, name@, 0) == s0.len());
    }
    let ghost s0 = v@;
    v.push(entry);
    proof {
        let s1 = v@;
        assert(forall|x: int| 0 <= x < s0.len() ==> s1[x] == s0[x]);
        assert forall|x: int, y: int| 0 <= x < y < s1.len() implies !(s1[x].backend
            == s1[y].backend && s1[x].name@ == s1[y].name@) by {
            if y == s1.len() - 1 {
                assert(!(s0[x].backend == kind && s0[x].name@ == name@));
            }
        }
        lemma_find_cfg_bounds(s1, kind, name@, 0);
        let f1 = find_cfg(s1, kind, name@, 0);
        assert(s1[s1.len() - 1].backend == kind && s1[s1.len() - 1].name@ == name@);
        if f1 < s1.len() - 1 {
            assert(s1[f1] == s0[f1]);
            assert(!(s0[f1].backend == kind && s0[f1].name@ == name@));
        }
        assert forall|kk: BackendKind, nn: Seq<char>|
            !(kk == kind && nn == name@) implies #[trigger] spec_cfg_get(s1, kk, nn)
            == spec_cfg_get(s0, kk, nn) by {
            lemma_find_cfg_agree(s0, s1, kk, nn, 0);
            lemma_find_cfg_bounds(s0, kk, nn, 0);
        }
    }
}

/// Drop every rendered config named `name`, for every backend it was ever
/// rendered for.
pub fn remove_configs_for(v: &mut Vec<SiteConfig>, name: &str)
    requires
        cfg_keys_unique(old(v)@),
    ensures
        cfg_keys_unique(final(v)@),
        final(v)@ == spec_drop_cfgs(old(v)@, name@),
        forall|k: BackendKind| #[trigger] spec_cfg_get(final(v)@, k, name@) is None,
{
    let n = v.len();
    let mut out: Vec<SiteConfig> = Vec::new();
    let mut i: usize = 0;
    while i < n
        invariant
            i <= n,
            n == v@.len(),
            out@ == spec_drop_cfgs(v@.subrange(0, i as int), name@),
        decreases n - i,
    {
        let ghost pre = v@.subrange(0, i as int);
        let ghost cur = v@.subrange(0, i + 1);
        proof {
            assert(cur.drop_last() =~= pre);
            assert(cur.last() == v@[i as int]);
        }
        if !str_eq(v[i].name.as_str(), name) {
            out.push(v[i].clone());
        }
        i = i + 1;
    }
    proof {
        assert(v@.subrange(0, n as int) =~= v@);
        lemma_drop_cfgs(v@, name@);
    }
    *v = out;
}

/// How a backend applies a fresh configuration to its running processes.
#[derive(Clone, Copy, Debug, PartialEq, Eq, Structural)]
pub enum ReloadStyle {
    /// Graceful in-place reload without downtime.
    Graceful,
    /// Stop followed by start, for backends without a graceful primitive.
    StopStart,
}

/// An apply failure caused by an occupied port, told apart by the tool's
/// own diagnostic text.
pub open spec fn port_in_use(d: Seq<char>) -> bool {
    spec_contains(d, "bind() to 0.0.0.0:80 failed"@) || spec_contains(
        d,
        "Address already in use"@,
    )
}

/// Classify an apply failure: an occupied port is a resource problem, all
/// else surfaces as the external tool's failure; the diagnostic text is
/// kept verbatim either way.
pub fn classify_apply_failure(d: &str) -> (e: FurnaceError)
    ensures
        port_in_use(d@) ==> (e matches FurnaceError::ResourceUnavailable(m) && m@ == d@),
        !port_in_use(d@) ==> (e matches FurnaceError::ExternalToolFailure(m) && m@ == d@),
{
    if contains(d, "bind() to 0.0.0.0:80 failed") || contains(d, "Address already in use") {
        FurnaceError::ResourceUnavailable(d.to_owned())
    } else {
        FurnaceError::ExternalToolFailure(d.to_owned())
    }
}

/// Uniform capability of the two web-server backends: installation probe,
/// idempotent config materialization, and validate-gated process control.
pub trait WebService {
    /// The backend kind this service stands for.
    spec fn kind_spec(&self) -> BackendKind;

    fn kind(&self) -> (k: BackendKind)
        ensures
            k == self.kind_spec(),
    ;

    /// Whether the backend binary is reachable; `probe` carries the result
    /// of the platform's binary lookup.  Never fatal: a missing backend is
    /// reported, not aborted on.
    fn detect_installation(probe: &ToolOutcome) -> (r: bool)
        ensures
            r == (*probe is Success),
    ;

    /// Materialize the rendered config of `recipe` in the config set,
    /// replacing this backend's previous config for the recipe and leaving
    /// every other binding untouched.
    fn write_conf(
        &self,
        written: &mut Vec<SiteConfig>,
        recipe: &Recipe,
        socket: &str,
        home: &str,
    ) -> (r: Result<(), FurnaceError>)
        requires
            cfg_keys_unique(old(written)@),
        ensures
            cfg_keys_unique(final(written)@),
            r is Ok,
            spec_cfg_get(final(written)@, self.kind_spec(), recipe.name@) == Some(
                crate::render::spec_render(*recipe, socket@, self.kind_spec(), home@),
            ),
            find_cfg(old(written)@, self.kind_spec(), recipe.name@, 0) < old(written)@.len()
                ==> final(written)@.len() == old(written)@.len(),
            find_cfg(old(written)@, self.kind_spec(), recipe.name@, 0) == old(written)@.len()
                ==> final(written)@.len() == old(written)@.len() + 1,
            forall|j: int|
                0 <= j < old(written)@.len() && j != find_cfg(
                    old(written)@,
                    self.kind_spec(),
                    recipe.name@,
                    0,
                ) ==> final(written)@[j] == old(written)@[j],
            forall|kk: BackendKind, nn: Seq<char>|
                !(kk == self.kind_spec() && nn == recipe.name@) ==> #[trigger] spec_cfg_get(
                    final(written)@,
                    kk,
                    nn,
                ) == spec_cfg_get(old(written)@, kk, nn),
    ;

    /// Start the backend; `launch` carries the process outcome.  A port
    /// already occupied is reported as a resource problem.
    fn start(&self, launch: &ToolOutcome) -> (r: Result<(), FurnaceError>)
        ensures
            (*launch is Success) <==> r is Ok,
            (match launch {
                ToolOutcome::Failure(d) => {
                    &&& (port_in_use(d@) ==> (r matches Err(FurnaceError::ResourceUnavailable(m))
                        && m@ == d@))
                    &&& (!port_in_use(d@) ==> (r matches Err(FurnaceError::ExternalToolFailure(m))
                        && m@ == d@))
                },
                ToolOutcome::Success => true,
            }),
    ;

    /// Stop the backend.  Idempotent: an absent liveness marker means the
    /// backend is already stopped, which is success.
    fn stop(&self, live: bool, kill: &ToolOutcome) -> (r: Result<(), FurnaceError>)
        ensures
            !live ==> r is Ok,
            live ==> ((*kill is Success) <==> r is Ok),
            (match kill {
                ToolOutcome::Failure(d) => live ==> (r matches Err(
                    FurnaceError::ExternalToolFailure(m),
                ) && m@ == d@),
                ToolOutcome::Success => true,
            }),
    ;

    /// Apply the assembled configuration to the running backend.
    /// `validation` is the backend's own syntax-checker verdict and gates
    /// everything: on validation failure the reload is refused and the
    /// validator's diagnostic is surfaced verbatim.  Only when validation
    /// passed is the apply outcome consulted.
    fn reload(&self, validation: &ToolOutcome, apply: &ToolOutcome) -> (r: Result<
        ReloadStyle,
        FurnaceError,
    >)
        ensures
            r is Ok <==> (*validation is Success && *apply is Success),
            (match validation {
                ToolOutcome::Failure(d) => r matches Err(FurnaceError::ExternalToolFailure(m))
                    && m@ == d@,
                ToolOutcome::Success => true,
            }),
            (match apply {
                ToolOutcome::Failure(d) => *validation is Success ==> {
                    &&& (port_in_use(d@) ==> (r matches Err(FurnaceError::ResourceUnavailable(m))
                        && m@ == d@))
                    &&& (!port_in_use(d@) ==> (r matches Err(FurnaceError::ExternalToolFailure(m))
                        && m@ == d@))
                },
                ToolOutcome::Success => true,
            }),
    ;
}

/// The reload-capable backend; its site configs live under a servers
/// directory that the main config includes by wildcard.
#[derive(Debug)]
pub struct NginxService {
    pub nginx_dir: String,
}

impl NginxService {
    /// A service rooted at the managed nginx directory under `home`.
    pub fn new(home: &str) -> (r: NginxService)
        ensures
            r.nginx_dir@ == crate::paths::spec_nginx_dir(home@),
    {
        NginxService { nginx_dir: crate::paths::nginx_dir(home) }
    }
}

impl WebService for NginxService {
    open spec fn kind_spec(&self) -> BackendKind {
        BackendKind::Nginx
    }

    fn kind(&self) -> (k: BackendKind) {
        BackendKind::Nginx
    }

    fn detect_installation(probe: &ToolOutcome) -> (r: bool) {
        probe.success()
    }

    fn write_conf(
        &self,
        written: &mut Vec<SiteConfig>,
        recipe: &Recipe,
        socket: &str,
        home: &str,
    ) -> (r: Result<(), FurnaceError>) {
        let text = crate::render::render(recipe, socket, BackendKind::Nginx, home);
        upsert_config(written, BackendKind::Nginx, recipe.name.as_str(), text);
        Ok(())
    }

    fn start(&self, launch: &ToolOutcome) -> (r: Result<(), FurnaceError>) {
        match launch {
            ToolOutcome::Success => Ok(()),
            ToolOutcome::Failure(d) => Err(classify_apply_failure(d.as_str())),
        }
    }

    fn stop(&self, live: bool, kill: &ToolOutcome) -> (r: Result<(), FurnaceError>) {
        if !live {
            return Ok(());
        }
        match kill {
            ToolOutcome::Success => Ok(()),
            ToolOutcome::Failure(d) => Err(FurnaceError::ExternalToolFailure(d.clone())),
        }
    }

    fn reload(&self, validation: &ToolOutcome, apply: &ToolOutcome) -> (r: Result<
        ReloadStyle,
        FurnaceError,
    >)
        ensures
            r matches Ok(style) ==> style == ReloadStyle::Graceful,
    {
        match validation {
            ToolOutcome::Failure(d) => Err(FurnaceError::ExternalToolFailure(d.clone())),
            ToolOutcome::Success => match apply {
                ToolOutcome::Success => Ok(ReloadStyle::Graceful),
                ToolOutcome::Failure(d) => Err(classify_apply_failure(d.as_str())),
            },
        }
    }
}

/// The symlink-based backend; reload degrades to stop plus start, with the
/// validate-before-apply contract preserved.
#[derive(Debug)]
pub struct ApacheService;

impl WebService for ApacheService {
    open spec fn kind_spec(&self) -> BackendKind {
        BackendKind::Apache
    }

    fn kind(&self) -> (k: BackendKind) {
        BackendKind::Apache
    }

    fn detect_installation(probe: &ToolOutcome) -> (r: bool) {
        probe.success()
    }

    fn write_conf(
        &self,
        written: &mut Vec<SiteConfig>,
        recipe: &Recipe,
        socket: &str,
        home: &str,
    ) -> (r: Result<(), FurnaceError>) {
        let text = crate::render::render(recipe, socket, BackendKind::Apache, home);
        upsert_config(written, BackendKind::Apache, recipe.name.as_str(), text);
        Ok(())
    }

    fn start(&self, launch: &ToolOutcome) -> (r: Result<(), FurnaceError>) {
        match launch {
            ToolOutcome::Success => Ok(()),
            ToolOutcome::Failure(d) => Err(classify_apply_failure(d.as_str())),
        }
    }

    fn stop(&self, live: bool, kill: &ToolOutcome) -> (r: Result<(), FurnaceError>) {
        if !live {
            return Ok(());
        }
        match kill {
            ToolOutcome::Success => Ok(()),
            ToolOutcome::Failure(d) => Err(FurnaceError::ExternalToolFailure(d.clone())),
        }
    }

    fn reload(&self, validation: &ToolOutcome, apply: &ToolOutcome) -> (r: Result<
        ReloadStyle,
        FurnaceError,
    >)
        ensures
            r matches Ok(style) ==> style == ReloadStyle::StopStart,
    {
        match validation {
            ToolOutcome::Failure(d) => Err(FurnaceError::ExternalToolFailure(d.clone())),
            ToolOutcome::Success => match apply {
                ToolOutcome::Success => Ok(ReloadStyle::StopStart),
                ToolOutcome::Failure(d) => Err(classify_apply_failure(d.as_str())),
            },
        }
    }
}

/// The filename under which a site's apache config is linked into the
/// system's sites-available and sites-enabled directories.
pub fn apache_link_name(project: &str) -> (r: String)
    ensures
        r@ == "furnace-"@ + project@ + ".conf"@,
{
    let mut s = String::from_str("furnace-");
    s.append(project);
    s.append(".conf");
    s
}

/// The on-disk configs belonging to backend kind `k`, as a fresh vector.
pub fn configs_of_kind(v: &Vec<SiteConfig>, k: BackendKind) -> (r: Vec<SiteConfig>)
    ensures
        r@ == spec_of_kind(v@, k),
{
    let n = v.len();
    let mut out: Vec<SiteConfig> = Vec::new();
    let mut i: usize = 0;
    while i < n
        invariant
            i <= n,
            n == v@.len(),
            out@ == spec_of_kind(v@.subrange(0, i as int), k),
        decreases n - i,
    {
        let ghost pre = v@.subrange(0, i as int);
        let ghost cur = v@.subrange(0, i + 1);
        proof {
            assert(cur.drop_last() =~= pre);
            assert(cur.last() == v@[i as int]);
        }
        let hit = match (&v[i].backend, &k) {
            (BackendKind::Nginx, BackendKind::Nginx) => true,
            (BackendKind::Apache, BackendKind::Apache) => true,
            _ => false,
        };
        if hit {
            out.push(v[i].clone());
        }
        i = i + 1;
    }
    proof {
        assert(v@.subrange(0, n as int) =~= v@);
    }
    out
}

} // verus!
