//! Per-game profiles: the declarative profile record, its text format
//! (parsing and serializing, with an exact round trip), matching running
//! processes to profiles, and the active bindings whose emptying restores
//! the default tunables.

use vstd::prelude::*;

use vstd::string::StringExecFns;
use vstd::string::StringSliceAdditionalSpecFns;

use crate::text::string_bytes;
use crate::tunables::RuntimeTunables;

verus! {

/// Per-profile scheduling tunables.
#[derive(Debug, Clone, Copy, PartialEq, Eq, Structural)]
pub struct ProfileTunables {
    /// Burst detection threshold override, in nanoseconds.
    pub burst_threshold_ns: Option<u64>,
    /// Time slice override, in nanoseconds.
    pub slice_ns: Option<u64>,
}

impl Default for ProfileTunables {
    /// No overrides.
    fn default() -> (r: ProfileTunables)
        ensures
            r == (ProfileTunables { burst_threshold_ns: None::<u64>, slice_ns: None::<u64> }),
    {
        ProfileTunables { burst_threshold_ns: None, slice_ns: None }
    }
}

/// V-Cache preference of a profile.
#[derive(Debug, Clone, Copy, PartialEq, Eq, Structural)]
pub enum VCachePreference {
    /// Let the scheduler decide by workload.
    Auto,
    /// Prefer the stacked-cache cluster.
    Cache,
    /// Prefer the high-frequency cluster.
    Frequency,
}

impl Default for VCachePreference {
    fn default() -> (r: VCachePreference)
        ensures
            r == VCachePreference::Auto,
    {
        VCachePreference::Auto
    }
}

/// SMT preference of a profile.
#[derive(Debug, Clone, Copy, PartialEq, Eq, Structural)]
pub enum SmtPreference {
    /// Let the scheduler decide.
    Auto,
    /// Prefer CPUs with an idle sibling.
    PreferIdle,
    /// Allow shared physical cores.
    AllowShared,
}

impl Default for SmtPreference {
    fn default() -> (r: SmtPreference)
        ensures
            r == SmtPreference::Auto,
    {
        SmtPreference::Auto
    }
}

/// One game profile.
#[derive(Debug, Clone)]
pub struct GameProfile {
    /// Profile name.
    pub name: String,
    /// Executable name to match.
    pub exe_name: Option<String>,
    /// Game-store app id to match.
    pub steam_appid: Option<u32>,
    /// Command-name pattern.
    pub comm_pattern: Option<String>,
    /// Scheduling tunable overrides.
    pub tunables: ProfileTunables,
    /// V-Cache preference.
    pub vcache_preference: VCachePreference,
    /// SMT preference.
    pub smt_preference: SmtPreference,
}

/// The mathematical value of a profile: its text fields as byte strings.
pub struct ProfileView {
    pub name: Seq<u8>,
    pub exe_name: Option<Seq<u8>>,
    pub steam_appid: Option<u32>,
    pub comm_pattern: Option<Seq<u8>>,
    pub burst_threshold_ns: Option<u64>,
    pub slice_ns: Option<u64>,
    pub vcache_preference: VCachePreference,
    pub smt_preference: SmtPreference,
}

impl GameProfile {
    pub open spec fn view(&self) -> ProfileView {
        ProfileView {
            name: string_bytes(self.name@),
            exe_name: match self.exe_name {
                Some(s) => Some(string_bytes(s@)),
                None => None,
            },
            steam_appid: self.steam_appid,
            comm_pattern: match self.comm_pattern {
                Some(s) => Some(string_bytes(s@)),
                None => None,
            },
            burst_threshold_ns: self.tunables.burst_threshold_ns,
            slice_ns: self.tunables.slice_ns,
            vcache_preference: self.vcache_preference,
            smt_preference: self.smt_preference,
        }
    }
}

/// Apply a matched profile's overrides: only the fields the profile sets
/// change; everything else keeps its value.
pub fn apply_profile_tunables(t: &mut RuntimeTunables, p: &GameProfile)
    ensures
        final(t).burst_threshold_ns == (match p.tunables.burst_threshold_ns {
            Some(v) => v,
            None => old(t).burst_threshold_ns,
        }),
        final(t).slice_ns == (match p.tunables.slice_ns {
            Some(v) => v,
            None => old(t).slice_ns,
        }),
        final(t).gaming_mode == old(t).gaming_mode,
        final(t).work_mode == old(t).work_mode,
{
    if let Some(v) = p.tunables.burst_threshold_ns {
        t.burst_threshold_ns = v;
    }
    if let Some(v) = p.tunables.slice_ns {
        t.slice_ns = v;
    }
}

/// The PIDs currently bound to a profile. When the last binding goes, the
/// default tunables are restored.
pub struct ActiveProfileBindings {
    bindings: Vec<(u32, String)>,
}

impl ActiveProfileBindings {
    /// The bound PIDs.
    pub closed spec fn pids(&self) -> Seq<u32> {
        self.bindings@.map_values(|b: (u32, String)| b.0)
    }

    pub fn new() -> (r: ActiveProfileBindings)
        ensures
            r.pids().len() == 0,
    {
        let r = ActiveProfileBindings { bindings: Vec::new() };
        proof {
            assert(r.pids() =~= Seq::<u32>::empty());
        }
        r
    }

    /// Number of bound PIDs.
    pub fn len(&self) -> (r: usize)
        ensures
            r == self.pids().len(),
    {
        self.bindings.len()
    }

    /// Bind a PID to the named profile.
    pub fn bind(&mut self, pid: u32, profile_name: String)
        ensures
            final(self).pids() == old(self).pids().push(pid),
    {
        self.bindings.push((pid, profile_name));
        proof {
            assert(final(self).pids() =~= old(self).pids().push(pid));
        }
    }

    /// Drop every binding of this PID. When the bindings become empty the
    /// runtime tunables revert to the startup defaults.
    pub fn unbind(&mut self, pid: u32, t: &mut RuntimeTunables, defaults: RuntimeTunables)
        ensures
            forall|q: u32| final(self).pids().contains(q) <==> old(self).pids().contains(q) && q != pid,
            final(self).pids().len() == 0 ==> *final(t) == defaults,
            final(self).pids().len() > 0 ==> *final(t) == *old(t),
    {
        let ghost pre = self.bindings@;
        let n: usize = self.bindings.len();
        let mut kept: Vec<(u32, String)> = Vec::new();
        let mut i: usize = 0;
        while i < n
            invariant
                0 <= i <= n,
                n == pre.len(),
                self.bindings@ == pre,
                forall|t2: int| #![trigger kept@[t2]]
                    0 <= t2 < kept@.len() ==> kept@[t2].0 != pid && exists|j: int|
                        0 <= j < i && (#[trigger] pre[j]).0 == kept@[t2].0,
                forall|j: int| #![trigger pre[j]]
                    0 <= j < i && pre[j].0 != pid ==> exists|t2: int|
                        0 <= t2 < kept@.len() && (#[trigger] kept@[t2]).0 == pre[j].0,
            decreases n - i,
        {
            let ghost kept_pre = kept@;
            let e: &(u32, String) = &self.bindings[i];
            if e.0 != pid {
                kept.push((e.0, e.1.clone()));
                assert(kept@[kept@.len() - 1].0 == pre[i as int].0);
            }
            proof {
                assert forall|j: int| #![trigger pre[j]]
                    0 <= j < i + 1 && pre[j].0 != pid implies exists|t2: int|
                    0 <= t2 < kept@.len() && (#[trigger] kept@[t2]).0 == pre[j].0 by {
                    if j < i as int {
                        let t0 = choose|t0: int|
                            0 <= t0 < kept_pre.len() && (#[trigger] kept_pre[t0]).0 == pre[j].0;
                        assert(kept@[t0].0 == pre[j].0);
                    } else {
                        assert(kept@[kept@.len() - 1].0 == pre[j].0);
                    }
                }
            }
            i = i + 1;
        }
        let empty_now = kept.len() == 0;
        self.bindings = kept;
        if empty_now {
            t.burst_threshold_ns = defaults.burst_threshold_ns;
            t.slice_ns = defaults.slice_ns;
            t.gaming_mode = defaults.gaming_mode;
            t.work_mode = defaults.work_mode;
            assert(*t == defaults);
        }
        proof {
            assert forall|q: u32|
                final(self).pids().contains(q) <==> (old(self).pids().contains(q) && q
                    != pid) by {
                if final(self).pids().contains(q) {
                    let t2 = choose|t2: int|
                        0 <= t2 < final(self).pids().len() && final(self).pids()[t2] == q;
                    assert(self.bindings@[t2].0 == q);
                    let j = choose|j: int|
                        0 <= j < pre.len() && (#[trigger] pre[j]).0 == self.bindings@[t2].0;
                    assert(old(self).pids()[j] == q);
                }
                if old(self).pids().contains(q) && q != pid {
                    let j = choose|j: int|
                        0 <= j < old(self).pids().len() && old(self).pids()[j] == q;
                    assert(pre[j].0 == q);
                    let t2 = choose|t2: int|
                        0 <= t2 < self.bindings@.len() && (#[trigger] self.bindings@[t2]).0 == q;
                    assert(final(self).pids()[t2] == q);
                }
            }
        }
    }
}

/// Loads and matches game profiles.
pub struct ProfileManager {
    profiles: Vec<GameProfile>,
}

/// The index of the first profile whose name has these bytes.
pub open spec fn name_index_from(profiles: Seq<GameProfile>, name: Seq<u8>, from: int) -> Option<
    int,
>
    decreases profiles.len() - from,
{
    if from < 0 || from >= profiles.len() {
        None
    } else if string_bytes(profiles[from].name@) == name {
        Some(from)
    } else {
        name_index_from(profiles, name, from + 1)
    }
}

/// The index of the first profile with this app id.
pub open spec fn appid_match_from(profiles: Seq<GameProfile>, appid: u32, from: int) -> Option<int>
    decreases profiles.len() - from,
{
    if from < 0 || from >= profiles.len() {
        None
    } else if profiles[from].steam_appid == Some(appid) {
        Some(from)
    } else {
        appid_match_from(profiles, appid, from + 1)
    }
}

/// The index of the first profile whose executable name equals `exe`,
/// case-insensitively.
pub open spec fn exe_match_from(profiles: Seq<GameProfile>, exe_lower: Seq<u8>, from: int) -> Option<
    int,
>
    decreases profiles.len() - from,
{
    if from < 0 || from >= profiles.len() {
        None
    } else if profiles[from].exe_name matches Some(e) && crate::text::lower_seq(string_bytes(e@))
        == exe_lower {
        Some(from)
    } else {
        exe_match_from(profiles, exe_lower, from + 1)
    }
}

/// The index of the first profile whose executable name contains `exe` or
/// is contained in it, case-insensitively.
pub open spec fn partial_match_from(profiles: Seq<GameProfile>, exe_lower: Seq<u8>, from: int) -> Option<
    int,
>
    decreases profiles.len() - from,
{
    if from < 0 || from >= profiles.len() {
        None
    } else if profiles[from].exe_name matches Some(e) && (crate::text::contains_seq(
        exe_lower,
        crate::text::lower_seq(string_bytes(e@)),
    ) || crate::text::contains_seq(crate::text::lower_seq(string_bytes(e@)), exe_lower)) {
        Some(from)
    } else {
        partial_match_from(profiles, exe_lower, from + 1)
    }
}

/// The profile a process matches: an exact app-id hit first, then an
/// exact executable-name hit (case-insensitive), then a substring match
/// in either direction. The first profile in load order wins.
pub open spec fn spec_match(profiles: Seq<GameProfile>, exe_lower: Seq<u8>, appid: Option<u32>) -> Option<
    int,
> {
    let by_id = if appid is Some {
        appid_match_from(profiles, appid->0, 0)
    } else {
        None
    };
    if by_id is Some {
        by_id
    } else {
        let exact = exe_match_from(profiles, exe_lower, 0);
        if exact is Some {
            exact
        } else {
            partial_match_from(profiles, exe_lower, 0)
        }
    }
}

impl ProfileManager {
    /// The loaded profiles, in load order.
    pub closed spec fn view(&self) -> Seq<GameProfile> {
        self.profiles@
    }

    pub fn new() -> (r: ProfileManager)
        ensures
            r@.len() == 0,
    {
        ProfileManager { profiles: Vec::new() }
    }

    /// Add one profile. A profile with the same name replaces the one
    /// already loaded; otherwise the profile is appended.
    pub fn add_profile(&mut self, profile: GameProfile)
        ensures
            ({
                match name_index_from(old(self)@, string_bytes(profile.name@), 0) {
                    Some(j) => final(self)@ == old(self)@.update(j, profile),
                    None => final(self)@ == old(self)@.push(profile),
                }
            }),
    {
        let ghost pre = self.profiles@;
        let ghost nameb = string_bytes(profile.name@);
        let n: usize = self.profiles.len();
        let mut i: usize = 0;
        while i < n
            invariant
                0 <= i <= n,
                n == self.profiles@.len(),
                self.profiles@ == pre,
                pre == old(self)@,
                nameb == string_bytes(profile.name@),
                name_index_from(pre, nameb, 0) == name_index_from(pre, nameb, i as int),
            decreases n - i,
        {
            let same: bool = crate::text::eq_bytes(
                self.profiles[i].name.as_str().as_bytes(),
                profile.name.as_str().as_bytes(),
            );
            if same {
                proof {
                    assert(string_bytes(pre[i as int].name@) == nameb);
                    assert(name_index_from(pre, nameb, i as int) == Some(i as int));
                }
                self.profiles.set(i, profile);
                return ;
            }
            proof {
                assert(name_index_from(pre, nameb, i as int) == name_index_from(
                    pre,
                    nameb,
                    i + 1,
                ));
            }
            i = i + 1;
        }
        self.profiles.push(profile);
    }

    /// Number of loaded profiles.
    pub fn count(&self) -> (r: usize)
        ensures
            r == self@.len(),
    {
        self.profiles.len()
    }

    /// All loaded profiles.
    pub fn all_profiles(&self) -> (r: &Vec<GameProfile>)
        ensures
            r@ == self@,
    {
        &self.profiles
    }

    /// Match a process to a profile by executable name (case-insensitive)
    /// or app id: the app id wins, then an exact name hit, then a
    /// substring match either way.
    pub fn match_process(&self, exe_name: &str, steam_appid: Option<u32>) -> (r: Option<
        &GameProfile,
    >)
        ensures
            ({
                let idx = spec_match(
                    self@,
                    crate::text::lower_seq(exe_name.spec_bytes()),
                    steam_appid,
                );
                match r {
                    Some(p) => idx is Some && *p == self@[idx->0],
                    None => idx is None,
                }
            }),
    {
        let ghost exe_lower = crate::text::lower_seq(exe_name.spec_bytes());
        let n: usize = self.profiles.len();
        if let Some(appid) = steam_appid {
            let mut i: usize = 0;
            while i < n
                invariant
                    0 <= i <= n,
                    n == self.profiles@.len(),
                    steam_appid == Some(appid),
                    appid_match_from(self.profiles@, appid, 0) == appid_match_from(
                        self.profiles@,
                        appid,
                        i as int,
                    ),
                decreases n - i,
            {
                let hit: bool = match self.profiles[i].steam_appid {
                    Some(a) => a == appid,
                    None => false,
                };
                if hit {
                    proof {
                        assert(appid_match_from(self.profiles@, appid, i as int) == Some(i as int));
                    }
                    return Some(&self.profiles[i]);
                }
                proof {
                    assert(appid_match_from(self.profiles@, appid, i as int) == appid_match_from(
                        self.profiles@,
                        appid,
                        i + 1,
                    ));
                }
                i = i + 1;
            }
        }
        proof {
            if steam_appid is Some {
                assert(appid_match_from(self.profiles@, steam_appid->0, n as int) is None);
            }
        }
        let exe_lower_vec = crate::text::to_lower_bytes(exe_name.as_bytes());
        let mut i: usize = 0;
        while i < n
            invariant
                0 <= i <= n,
                n == self.profiles@.len(),
                exe_lower_vec@ == exe_lower,
                exe_lower == crate::text::lower_seq(exe_name.spec_bytes()),
                steam_appid is Some ==> appid_match_from(self.profiles@, steam_appid->0, 0)
                    is None,
                exe_match_from(self.profiles@, exe_lower, 0) == exe_match_from(
                    self.profiles@,
                    exe_lower,
                    i as int,
                ),
            decreases n - i,
        {
            let hit: bool = match &self.profiles[i].exe_name {
                Some(e) => {
                    let el = crate::text::to_lower_bytes(e.as_str().as_bytes());
                    crate::text::eq_bytes(el.as_slice(), exe_lower_vec.as_slice())
                },
                None => false,
            };
            if hit {
                proof {
                    assert(exe_match_from(self.profiles@, exe_lower, i as int) == Some(i as int));
                }
                return Some(&self.profiles[i]);
            }
            proof {
                assert(exe_match_from(self.profiles@, exe_lower, i as int) == exe_match_from(
                    self.profiles@,
                    exe_lower,
                    i + 1,
                ));
            }
            i = i + 1;
        }
        let mut i: usize = 0;
        while i < n
            invariant
                0 <= i <= n,
                n == self.profiles@.len(),
                exe_lower_vec@ == exe_lower,
                exe_lower == crate::text::lower_seq(exe_name.spec_bytes()),
                steam_appid is Some ==> appid_match_from(self.profiles@, steam_appid->0, 0)
                    is None,
                exe_match_from(self.profiles@, exe_lower, 0) is None,
                partial_match_from(self.profiles@, exe_lower, 0) == partial_match_from(
                    self.profiles@,
                    exe_lower,
                    i as int,
                ),
            decreases n - i,
        {
            let hit: bool = match &self.profiles[i].exe_name {
                Some(e) => {
                    let el = crate::text::to_lower_bytes(e.as_str().as_bytes());
                    crate::text::contains_bytes(exe_lower_vec.as_slice(), el.as_slice())
                        || crate::text::contains_bytes(el.as_slice(), exe_lower_vec.as_slice())
                },
                None => false,
            };
            if hit {
                proof {
                    assert(partial_match_from(self.profiles@, exe_lower, i as int) == Some(
                        i as int,
                    ));
                }
                return Some(&self.profiles[i]);
            }
            proof {
                assert(partial_match_from(self.profiles@, exe_lower, i as int)
                    == partial_match_from(self.profiles@, exe_lower, i + 1));
            }
            i = i + 1;
        }
        None
    }
}

} // verus!
