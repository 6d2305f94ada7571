use vstd::prelude::*;
use crate::error::FurnaceError;
use crate::paths::{spec_php_version_dir, spec_socket_path, php_version_dir, socket_path};
use crate::render::{spec_render_pool, render_pool_conf};
use crate::strutil::str_eq;
use crate::web_service::ToolOutcome;

verus! {

/// The lifecycle of one installed PHP runtime version.
#[derive(Clone, Copy, Debug, PartialEq, Eq, Structural)]
pub enum RuntimeState {
    NotInstalled,
    Installed,
    Configured,
    Running,
}

/// One managed runtime version: its state and, once configured, the
/// rendered process-pool configuration.  The install directory and socket
/// path are derived from the version, never stored.
#[derive(Debug)]
pub struct PhpRuntime {
    pub version: String,
    pub state: RuntimeState,
    pub pool_config: Option<String>,
}

impl Clone for PhpRuntime {
    fn clone(&self) -> (r: Self)
        ensures
            r == *self,
    {
        PhpRuntime {
            version: self.version.clone(),
            state: self.state,
            pool_config: match &self.pool_config {
                Some(s) => Some(s.clone()),
                None => None,
            },
        }
    }
}

/// First index at or after `i` carrying `v`, or `s.len()`.
pub open spec fn find_rt(s: Seq<PhpRuntime>, v: Seq<char>, i: int) -> int
    decreases s.len() - i when 0 <= i <= s.len()
{
    if i >= s.len() {
        s.len() as int
    } else if s[i].version@ == v {
        i
    } else {
        find_rt(s, v, i + 1)
    }
}

pub proof fn lemma_find_rt_bounds(s: Seq<PhpRuntime>, v: Seq<char>, i: int)
    requires
        0 <= i <= s.len(),
    ensures
        i <= find_rt(s, v, i) <= s.len(),
        forall|j: int| i <= j < find_rt(s, v, i) ==> s[j].version@ != v,
        find_rt(s, v, i) < s.len() ==> s[find_rt(s, v, i)].version@ == v,
    decreases s.len() - i,
{
    if i < s.len() && s[i].version@ != v {
        lemma_find_rt_bounds(s, v, i + 1);
    }
}

/// Two runs whose entries carry the same versions position every version
/// identically.
pub proof fn lemma_find_rt_versions_eq(s1: Seq<PhpRuntime>, s2: Seq<PhpRuntime>, v: Seq<char>, i: int)
    requires
        s1.len() == s2.len(),
        forall|j: int| 0 <= j < s1.len() ==> s1[j].version@ == #[trigger] s2[j].version@,
        0 <= i <= s1.len(),
    ensures
        find_rt(s1, v, i) == find_rt(s2, v, i),
    decreases s1.len() - i,
{
    if i < s1.len() && s1[i].version@ != v {
        lemma_find_rt_versions_eq(s1, s2, v, i + 1);
    }
}

/// A stored entry is at least installed, and carries its pool configuration
/// whenever it is configured or running.
pub open spec fn rt_entry_ok(e: PhpRuntime) -> bool {
    &&& e.state != RuntimeState::NotInstalled
    &&& (e.state == RuntimeState::Configured || e.state == RuntimeState::Running)
        ==> e.pool_config is Some
}

pub open spec fn rt_versions_unique(s: Seq<PhpRuntime>) -> bool {
    forall|i: int, j: int| 0 <= i < j < s.len() ==> s[i].version@ != s[j].version@
}

/// Manager of the installed PHP runtime versions and their process pools.
#[derive(Debug)]
pub struct RuntimeManager {
    pub runtimes: Vec<PhpRuntime>,
}

impl RuntimeManager {
    pub open spec fn wf(self) -> bool {
        &&& rt_versions_unique(self.runtimes@)
        &&& forall|i: int| 0 <= i < self.runtimes@.len() ==> rt_entry_ok(#[trigger] self.runtimes@[i])
    }

    /// The state of version `v`: the stored entry's state, or NotInstalled
    /// when no entry exists.
    pub open spec fn spec_state_of(self, v: Seq<char>) -> RuntimeState {
        let k = find_rt(self.runtimes@, v, 0);
        if k < self.runtimes@.len() {
            self.runtimes@[k].state
        } else {
            RuntimeState::NotInstalled
        }
    }

    pub fn new() -> (r: RuntimeManager)
        ensures
            r.wf(),
            r.runtimes@.len() == 0,
    {
        RuntimeManager { runtimes: Vec::new() }
    }

    fn index_of(&self, version: &str) -> (r: Option<usize>)
        ensures
            match r {
                Some(k) => k == find_rt(self.runtimes@, version@, 0) && k < self.runtimes@.len()
                    && self.runtimes@[k as int].version@ == version@,
                None => find_rt(self.runtimes@, version@, 0) == self.runtimes@.len(),
            },
    {
        let n = self.runtimes.len();
        let mut i: usize = 0;
        while i < n
            invariant
                i <= n,
                n == self.runtimes@.len(),
                forall|j: int| 0 <= j < i ==> self.runtimes@[j].version@ != version@,
            decreases n - i,
        {
            if str_eq(self.runtimes[i].version.as_str(), version) {
                proof {
                    lemma_find_rt_bounds(self.runtimes@, version@, 0);
                    let k = find_rt(self.runtimes@, version@, 0);
                    if k < i {
                        assert(self.runtimes@[k].version@ != version@);
                    }
                    if i < k {
                        assert(self.runtimes@[i as int].version@ != version@);
                    }
                }
                return Some(i);
            }
            i = i + 1;
        }
        proof {
            lemma_find_rt_bounds(self.runtimes@, version@, 0);
        }
        None
    }

    /// The state of `version`.
    pub fn state_of(&self, version: &str) -> (r: RuntimeState)
        ensures
            r == self.spec_state_of(version@),
    {
        match self.index_of(version) {
            Some(k) => self.runtimes[k].state,
            None => RuntimeState::NotInstalled,
        }
    }

    /// Liveness probe of one version's process pool.  Liveness is inferred
    /// from the presence of the pool's socket file, which the caller
    /// probes; a stale socket of a crashed pool is indistinguishable from a
    /// live one here.
    pub fn is_running(&self, version: &str, socket_present: bool) -> (r: bool)
        ensures
            r == socket_present,
    {
        let _ = version;
        socket_present
    }

    /// The installed versions, in storage order.
    pub fn list_versions(&self) -> (r: Vec<String>)
        ensures
            r@.len() == self.runtimes@.len(),
            forall|i: int| 0 <= i < r@.len() ==> r@[i]@ == self.runtimes@[i].version@,
    {
        let n = self.runtimes.len();
        let mut out: Vec<String> = Vec::new();
        let mut i: usize = 0;
        while i < n
            invariant
                i <= n,
                n == self.runtimes@.len(),
                out@.len() == i,
                forall|j: int| 0 <= j < i ==> out@[j]@ == self.runtimes@[j].version@,
            decreases n - i,
        {
            out.push(self.runtimes[i].version.clone());
            i = i + 1;
        }
        out
    }

    /// Record that `version` has been installed on disk.  A version already
    /// known keeps its state; a new one enters as Installed.
    pub fn register_installed(&mut self, version: &str)
        requires
            old(self).wf(),
        ensures
            final(self).wf(),
            final(self).spec_state_of(version@) != RuntimeState::NotInstalled,
            find_rt(old(self).runtimes@, version@, 0) < old(self).runtimes@.len() ==> *final(self)
                == *old(self),
            find_rt(old(self).runtimes@, version@, 0) == old(self).runtimes@.len() ==> {
                &&& final(self).runtimes@.len() == old(self).runtimes@.len() + 1
                &&& (forall|j: int|
                    0 <= j < old(self).runtimes@.len() ==> final(self).runtimes@[j] == old(
                        self,
                    ).runtimes@[j])
                &&& final(self).runtimes@.last().version@ == version@
                &&& final(self).runtimes@.last().state == RuntimeState::Installed
            },
    {
        match self.index_of(version) {
            Some(_) => {
                proof {
                    lemma_find_rt_bounds(self.runtimes@, version@, 0);
                }
            },
            None => {
                let ghost s0 = self.runtimes@;
                let entry = PhpRuntime {
                    version: version.to_owned(),
                    state: RuntimeState::Installed,
                    pool_config: None,
                };
                self.runtimes.push(entry);
                proof {
                    let s1 = self.runtimes@;
                    lemma_find_rt_bounds(s0, version@, 0);
                    assert(forall|j: int| 0 <= j < s0.len() ==> s1[j] == s0[j]);
                    assert forall|i: int, j: int| 0 <= i < j < s1.len() implies s1[i].version@
                        != s1[j].version@ by {
                        if j == s1.len() - 1 {
                            assert(s0[i].version@ != version@);
                        }
                    }
                    lemma_find_rt_bounds(s1, version@, 0);
                    let k1 = find_rt(s1, version@, 0);
                    if k1 < s1.len() - 1 {
                        assert(s1[k1].version@ == version@);
                        assert(s1[k1] == s0[k1]);
                    }
                }
            },
        }
    }

    /// Render and attach the process-pool configuration of `version`; the
    /// version moves from Installed to Configured, an already configured or
    /// running version keeps its state with the configuration re-rendered.
    /// Idempotent: safe to call on every reconciliation.
    pub fn configure(&mut self, version: &str, home: &str, user: &str, group: &str) -> (r: Result<
        (),
        FurnaceError,
    >)
        requires
            old(self).wf(),
        ensures
            final(self).wf(),
            r is Ok <==> old(self).spec_state_of(version@) != RuntimeState::NotInstalled,
            r is Err ==> *final(self) == *old(self) && (r matches Err(FurnaceError::NotFound(_))),
            r is Ok ==> ({
                let k = find_rt(old(self).runtimes@, version@, 0);
                &&& final(self).runtimes@.len() == old(self).runtimes@.len()
                &&& (forall|j: int|
                    0 <= j < old(self).runtimes@.len() && j != k ==> final(self).runtimes@[j]
                        == old(self).runtimes@[j])
                &&& final(self).runtimes@[k].version@ == version@
                &&& final(self).runtimes@[k].pool_config matches Some(t) && t@ == spec_render_pool(
                    spec_php_version_dir(home@, version@),
                    user@,
                    group@,
                    spec_socket_path(home@, version@),
                )
                &&& final(self).runtimes@[k].state == (if old(self).runtimes@[k].state
                    == RuntimeState::Installed {
                    RuntimeState::Configured
                } else {
                    old(self).runtimes@[k].state
                })
            }),
            final(self).spec_state_of(version@) == (if old(self).spec_state_of(version@)
                == RuntimeState::Installed {
                RuntimeState::Configured
            } else {
                old(self).spec_state_of(version@)
            }),
    {
        match self.index_of(version) {
            Some(k) => {
                let dir = php_version_dir(home, version);
                let sock = socket_path(home, version);
                let text = render_pool_conf(dir.as_str(), user, group, sock.as_str());
                let old_entry = &self.runtimes[k];
                let new_state = match old_entry.state {
                    RuntimeState::Installed => RuntimeState::Configured,
                    s => s,
                };
                let entry = PhpRuntime {
                    version: old_entry.version.clone(),
                    state: new_state,
                    pool_config: Some(text),
                };
                let ghost s0 = self.runtimes@;
                self.runtimes.set(k, entry);
                proof {
                    let s1 = self.runtimes@;
                    lemma_find_rt_bounds(s0, version@, 0);
                    assert forall|i: int, j: int| 0 <= i < j < s1.len() implies s1[i].version@
                        != s1[j].version@ by {
                        if i != k as int && j != k as int {
                            assert(s1[i] == s0[i] && s1[j] == s0[j]);
                        } else if i == k as int {
                            assert(s0[j].version@ != s0[k as int].version@);
                        } else {
                            assert(s0[i].version@ != s0[k as int].version@);
                        }
                    }
                    assert(forall|i: int| 0 <= i < s1.len() && i != k as int ==> s1[i] == s0[i]);
                    lemma_find_rt_bounds(s1, version@, 0);
                    let k1 = find_rt(s1, version@, 0);
                    if k1 < k as int {
                        assert(s1[k1] == s0[k1]);
                        assert(s0[k1].version@ != version@);
                    }
                    if (k as int) < k1 {
                        assert(s1[k as int].version@ != version@);
                    }
                    assert(k1 == k as int);
                }
                Ok(())
            },
            None => {
                let mut m = String::from_str("runtime version is not installed: ");
                m.append(version);
                Err(FurnaceError::NotFound(m))
            },
        }
    }

    /// Start the process pool of `version`.  A pool whose socket is already
    /// present is left alone and counted as running; otherwise the launch
    /// outcome decides.  Starting an unknown version is a distinct error,
    /// as is a launch the platform could not perform.
    pub fn start(&mut self, version: &str, socket_present: bool, launch: &ToolOutcome) -> (r:
        Result<(), FurnaceError>)
        requires
            old(self).wf(),
        ensures
            final(self).wf(),
            old(self).spec_state_of(version@) == RuntimeState::NotInstalled ==> (r matches Err(
                FurnaceError::NotFound(_),
            ) && *final(self) == *old(self)),
            old(self).spec_state_of(version@) == RuntimeState::Installed ==> (r matches Err(
                FurnaceError::IOFailure(_),
            ) && *final(self) == *old(self)),
            ({
                let st = old(self).spec_state_of(version@);
                st == RuntimeState::Configured || st == RuntimeState::Running
            }) ==> ({
                &&& (socket_present || launch is Success) <==> r is Ok
                &&& r is Ok ==> final(self).spec_state_of(version@) == RuntimeState::Running
                &&& r is Ok ==> ({
                    let k = find_rt(old(self).runtimes@, version@, 0);
                    &&& final(self).runtimes@.len() == old(self).runtimes@.len()
                    &&& (forall|j: int|
                        0 <= j < old(self).runtimes@.len() && j != k ==> final(self).runtimes@[j]
                            == old(self).runtimes@[j])
                    &&& final(self).runtimes@[k].version@ == old(self).runtimes@[k].version@
                    &&& final(self).runtimes@[k].pool_config == old(self).runtimes@[k].pool_config
                })
                &&& (match launch {
                    ToolOutcome::Failure(d) => !socket_present ==> (r matches Err(
                        FurnaceError::ExternalToolFailure(m),
                    ) && m@ == version@ + ": "@ + d@ && *final(self) == *old(self)),
                    ToolOutcome::Success => true,
                })
            }),
    {
        match self.index_of(version) {
            Some(k) => {
                let st = self.runtimes[k].state;
                match st {
                    RuntimeState::Installed => Err(
                        FurnaceError::IOFailure(
                            String::from_str("process pool configuration missing"),
                        ),
                    ),
                    RuntimeState::NotInstalled => {
                        // wf excludes stored NotInstalled entries
                        proof {
                            assert(rt_entry_ok(self.runtimes@[k as int]));
                        }
                        Err(FurnaceError::NotFound(version.to_owned()))
                    },
                    _ => {
                        if socket_present || launch.success() {
                            let old_entry = &self.runtimes[k];
                            let entry = PhpRuntime {
                                version: old_entry.version.clone(),
                                state: RuntimeState::Running,
                                pool_config: match &old_entry.pool_config {
                                    Some(s) => Some(s.clone()),
                                    None => None,
                                },
                            };
                            let ghost s0 = self.runtimes@;
                            self.runtimes.set(k, entry);
                            proof {
                                let s1 = self.runtimes@;
                                lemma_find_rt_bounds(s0, version@, 0);
                                assert forall|i: int, j: int|
                                    0 <= i < j < s1.len() implies s1[i].version@
                                    != s1[j].version@ by {
                                    if i != k as int && j != k as int {
                                        assert(s1[i] == s0[i] && s1[j] == s0[j]);
                                    } else if i == k as int {
                                        assert(s0[j].version@ != s0[k as int].version@);
                                    } else {
                                        assert(s0[i].version@ != s0[k as int].version@);
                                    }
                                }
                                assert(forall|i: int|
                                    0 <= i < s1.len() && i != k as int ==> s1[i] == s0[i]);
                                lemma_find_rt_bounds(s1, version@, 0);
                                let k1 = find_rt(s1, version@, 0);
                                if k1 < k as int {
                                    assert(s1[k1] == s0[k1]);
                                    assert(s0[k1].version@ != version@);
                                }
                                if (k as int) < k1 {
                                    assert(s1[k as int].version@ != version@);
                                }
                                assert(k1 == k as int);
                            }
                            Ok(())
                        } else {
                            match launch {
                                ToolOutcome::Failure(d) => {
                                    let mut m = version.to_owned();
                                    m.append(": ");
                                    m.append(d.as_str());
                                    Err(FurnaceError::ExternalToolFailure(m))
                                },
                                ToolOutcome::Success => {
                                    proof {
                                        assert(false);
                                    }
                                    Ok(())
                                },
                            }
                        }
                    },
                }
            },
            None => {
                let mut m = String::from_str("runtime version is not installed: ");
                m.append(version);
                Err(FurnaceError::NotFound(m))
            },
        }
    }

    /// Stop the process pool of `version`: graceful shutdown when a
    /// liveness marker exists, trivial success otherwise.  Idempotent; the
    /// pool configuration is kept, a running version falls back to
    /// Installed.
    pub fn stop(&mut self, version: &str, marker_present: bool, kill: &ToolOutcome) -> (r: Result<
        (),
        FurnaceError,
    >)
        requires
            old(self).wf(),
        ensures
            final(self).wf(),
            old(self).spec_state_of(version@) == RuntimeState::NotInstalled ==> (r is Ok
                && *final(self) == *old(self)),
            !marker_present ==> r is Ok,
            marker_present && old(self).spec_state_of(version@) != RuntimeState::NotInstalled
                ==> ({
                &&& (kill is Success <==> r is Ok)
                &&& (match kill {
                    ToolOutcome::Failure(d) => r matches Err(
                        FurnaceError::ExternalToolFailure(m),
                    ) && m@ == version@ + ": "@ + d@ && *final(self) == *old(self),
                    ToolOutcome::Success => true,
                })
            }),
            r is Ok && old(self).spec_state_of(version@) != RuntimeState::NotInstalled ==> ({
                let k = find_rt(old(self).runtimes@, version@, 0);
                &&& final(self).runtimes@.len() == old(self).runtimes@.len()
                &&& (forall|j: int|
                    0 <= j < old(self).runtimes@.len() && j != k ==> final(self).runtimes@[j]
                        == old(self).runtimes@[j])
                &&& final(self).runtimes@[k].version@ == old(self).runtimes@[k].version@
                &&& final(self).runtimes@[k].pool_config == old(self).runtimes@[k].pool_config
                &&& final(self).spec_state_of(version@) == (if old(self).spec_state_of(version@)
                    == RuntimeState::Running {
                    RuntimeState::Installed
                } else {
                    old(self).spec_state_of(version@)
                })
            }),
    {
        match self.index_of(version) {
            Some(k) => {
                if marker_present && !kill.success() {
                    return match kill {
                        ToolOutcome::Failure(d) => {
                            let mut m = version.to_owned();
                            m.append(": ");
                            m.append(d.as_str());
                            Err(FurnaceError::ExternalToolFailure(m))
                        },
                        ToolOutcome::Success => {
                            proof {
                                assert(false);
                            }
                            Ok(())
                        },
                    };
                }
                let old_entry = &self.runtimes[k];
                let new_state = match old_entry.state {
                    RuntimeState::Running => RuntimeState::Installed,
                    s => s,
                };
                let entry = PhpRuntime {
                    version: old_entry.version.clone(),
                    state: new_state,
                    pool_config: match &old_entry.pool_config {
                        Some(s) => Some(s.clone()),
                        None => None,
                    },
                };
                let ghost s0 = self.runtimes@;
                self.runtimes.set(k, entry);
                proof {
                    let s1 = self.runtimes@;
                    lemma_find_rt_bounds(s0, version@, 0);
                    assert forall|i: int, j: int| 0 <= i < j < s1.len() implies s1[i].version@
                        != s1[j].version@ by {
                        if i != k as int && j != k as int {
                            assert(s1[i] == s0[i] && s1[j] == s0[j]);
                        } else if i == k as int {
                            assert(s0[j].version@ != s0[k as int].version@);
                        } else {
                            assert(s0[i].version@ != s0[k as int].version@);
                        }
                    }
                    assert(forall|i: int| 0 <= i < s1.len() && i != k as int ==> s1[i] == s0[i]);
                    lemma_find_rt_bounds(s1, version@, 0);
                    let k1 = find_rt(s1, version@, 0);
                    if k1 < k as int {
                        assert(s1[k1] == s0[k1]);
                        assert(s0[k1].version@ != version@);
                    }
                    if (k as int) < k1 {
                        assert(s1[k as int].version@ != version@);
                    }
                    assert(k1 == k as int);
                }
                Ok(())
            },
            None => Ok(()),
        }
    }
}

} // verus!
