//! Container detection over the cgroup hierarchy: recognising container
//! cgroup names, extracting ids, classifying the contained processes,
//! GPU access, and a diff of container ids between scans.

use vstd::prelude::*;

use vstd::string::StringExecFns;
use vstd::string::StringSliceAdditionalSpecFns;

use crate::patterns::ai_container_patterns;
use crate::patterns::ai_container_pattern_vec;
use crate::patterns::compute_container_patterns;
use crate::patterns::compute_container_pattern_vec;
use crate::patterns::gaming_container_patterns;
use crate::patterns::gaming_container_pattern_vec;
use crate::text::contains_any;
use crate::text::contains_bytes;
use crate::text::contains_seq;
use crate::text::ends_with_seq;
use crate::text::lower_seq;
use crate::text::matches_any;
use crate::text::starts_with_seq;
use crate::text::string_bytes;
use crate::text::to_lower_bytes;
use crate::text::views_of;

verus! {

/// Container workload classification.
#[derive(Debug, Clone, Copy, PartialEq, Eq, Structural)]
pub enum ContainerWorkloadType {
    /// AI/ML workload: batch priority with GPU affinity.
    Ai,
    /// Containerized gaming: gaming priority.
    Gaming,
    /// GPU compute: batch priority.
    Compute,
    /// General container: batch priority.
    General,
}

impl ContainerWorkloadType {
    /// A short display name.
    pub fn as_str(self) -> (r: &'static str)
        ensures
            self is Ai ==> r@ == "AI"@,
            self is Gaming ==> r@ == "gaming"@,
            self is Compute ==> r@ == "compute"@,
            self is General ==> r@ == "general"@,
    {
        match self {
            ContainerWorkloadType::Ai => "AI",
            ContainerWorkloadType::Gaming => "gaming",
            ContainerWorkloadType::Compute => "compute",
            ContainerWorkloadType::General => "general",
        }
    }
}

/// An ASCII lower-case hex digit.
pub open spec fn is_lhex(b: u8) -> bool {
    (48 <= b && b <= 57) || (97 <= b && b <= 102) || (65 <= b && b <= 70)
}

pub open spec fn all_lhex(s: Seq<u8>) -> bool {
    forall|i: int| 0 <= i < s.len() ==> is_lhex(#[trigger] s[i])
}

/// The "docker-" prefix.
pub open spec fn docker_prefix() -> Seq<u8> {
    seq![100u8, 111u8, 99u8, 107u8, 101u8, 114u8, 45u8]
}

/// The "libpod-" prefix.
pub open spec fn libpod_prefix() -> Seq<u8> {
    seq![108u8, 105u8, 98u8, 112u8, 111u8, 100u8, 45u8]
}

/// The ".scope" suffix.
pub open spec fn scope_suffix() -> Seq<u8> {
    seq![46u8, 115u8, 99u8, 111u8, 112u8, 101u8]
}

/// A cgroup directory name that marks a container: a docker or podman
/// scope, or a bare 12- or 64-character hex id.
pub open spec fn spec_is_container_cgroup(name: Seq<u8>) -> bool {
    ||| (starts_with_seq(name, docker_prefix()) && ends_with_seq(name, scope_suffix()))
    ||| (starts_with_seq(name, libpod_prefix()) && ends_with_seq(name, scope_suffix()))
    ||| (name.len() == 64 && all_lhex(name))
    ||| (name.len() == 12 && all_lhex(name))
}

/// Whether a cgroup directory name looks like a container.
pub fn is_container_cgroup(name: &str) -> (r: bool)
    ensures
        r == spec_is_container_cgroup(name.spec_bytes()),
{
    let b = name.as_bytes();
    let docker: Vec<u8> = vec![100u8, 111u8, 99u8, 107u8, 101u8, 114u8, 45u8];  // docker-
    let libpod: Vec<u8> = vec![108u8, 105u8, 98u8, 112u8, 111u8, 100u8, 45u8];  // libpod-
    let scope: Vec<u8> = vec![46u8, 115u8, 99u8, 111u8, 112u8, 101u8];  // .scope
    proof {
        assert(docker@ =~= docker_prefix());
        assert(libpod@ =~= libpod_prefix());
        assert(scope@ =~= scope_suffix());
    }
    if crate::text::starts_with_bytes(b, docker.as_slice()) && crate::text::ends_with_bytes(
        b,
        scope.as_slice(),
    ) {
        return true;
    }
    if crate::text::starts_with_bytes(b, libpod.as_slice()) && crate::text::ends_with_bytes(
        b,
        scope.as_slice(),
    ) {
        return true;
    }
    let n: usize = b.len();
    if n == 64 || n == 12 {
        let mut i: usize = 0;
        while i < n
            invariant
                0 <= i <= n,
                n == b@.len(),
                b@ == name.spec_bytes(),
                !(starts_with_seq(name.spec_bytes(), docker_prefix()) && ends_with_seq(
                    name.spec_bytes(),
                    scope_suffix(),
                )),
                !(starts_with_seq(name.spec_bytes(), libpod_prefix()) && ends_with_seq(
                    name.spec_bytes(),
                    scope_suffix(),
                )),
                forall|j: int| 0 <= j < i ==> is_lhex(#[trigger] b@[j]),
            decreases n - i,
        {
            let c = b[i];
            if !((48 <= c && c <= 57) || (97 <= c && c <= 102) || (65 <= c && c <= 70)) {
                assert(!is_lhex(b@[i as int]));
                return false;
            }
            i = i + 1;
        }
        return true;
    }
    false
}

/// The short id a container cgroup name denotes: the first 12 characters
/// of the id in a docker or podman scope name (or the whole id when
/// shorter), the first 12 of a bare hex name, or the name itself.
pub open spec fn spec_extract_id(name: Seq<u8>) -> Seq<u8> {
    if starts_with_seq(name, docker_prefix()) && ends_with_seq(name, scope_suffix()) {
        let inner = name.subrange(7, name.len() - 6);
        inner.subrange(0, if inner.len() < 12 { inner.len() as int } else { 12 })
    } else if starts_with_seq(name, libpod_prefix()) && ends_with_seq(name, scope_suffix()) {
        let inner = name.subrange(7, name.len() - 6);
        inner.subrange(0, if inner.len() < 12 { inner.len() as int } else { 12 })
    } else if name.len() >= 12 && all_lhex(name.subrange(0, 12)) {
        name.subrange(0, 12)
    } else {
        name
    }
}

/// Extract the short container id from a cgroup name. For an ASCII name
/// the characters are exactly the extracted bytes.
pub fn extract_container_id(name: &str) -> (r: String)
    ensures
        (forall|i: int| 0 <= i < name.spec_bytes().len() ==> name.spec_bytes()[i] < 128)
            ==> string_bytes(r@) == spec_extract_id(name.spec_bytes()),
{
    let b = name.as_bytes();
    let docker: Vec<u8> = vec![100u8, 111u8, 99u8, 107u8, 101u8, 114u8, 45u8];  // docker-
    let libpod: Vec<u8> = vec![108u8, 105u8, 98u8, 112u8, 111u8, 100u8, 45u8];  // libpod-
    let scope: Vec<u8> = vec![46u8, 115u8, 99u8, 111u8, 112u8, 101u8];  // .scope
    proof {
        assert(docker@ =~= docker_prefix());
        assert(libpod@ =~= libpod_prefix());
        assert(scope@ =~= scope_suffix());
    }
    let n: usize = b.len();
    if (crate::text::starts_with_bytes(b, docker.as_slice()) || crate::text::starts_with_bytes(
        b,
        libpod.as_slice(),
    )) && crate::text::ends_with_bytes(b, scope.as_slice()) {
        let inner = crate::text::subvec(b, 7, n - 6);
        let take: usize = if inner.len() < 12 {
            inner.len()
        } else {
            12
        };
        let id = crate::text::subvec(inner.as_slice(), 0, take);
        return conv_id(&id);
    }
    if n >= 12 {
        let head = crate::text::subvec(b, 0, 12);
        let mut all_hex: bool = true;
        let mut i: usize = 0;
        while i < 12
            invariant
                0 <= i <= 12,
                head@.len() == 12,
                all_hex == forall|j: int| 0 <= j < i ==> is_lhex(#[trigger] head@[j]),
            decreases 12 - i,
        {
            let ghost pre = all_hex;
            let c = head[i];
            if !((48 <= c && c <= 57) || (97 <= c && c <= 102) || (65 <= c && c <= 70)) {
                all_hex = false;
            }
            proof {
                if all_hex {
                    assert(is_lhex(head@[i as int]));
                } else {
                    if pre && is_lhex(head@[i as int]) {
                        assert(false);
                    }
                }
            }
            i = i + 1;
        }
        if all_hex {
            return conv_id(&head);
        }
    }
    conv_id(&crate::text::subvec(b, 0, n))
}

/// Bytes to text, exact for ASCII.
fn conv_id(v: &Vec<u8>) -> (r: String)
    ensures
        (forall|i: int| 0 <= i < v@.len() ==> v@[i] < 128) ==> string_bytes(r@) == v@,
{
    let n: usize = v.len();
    let mut ascii: bool = true;
    let mut i: usize = 0;
    while i < n
        invariant
            0 <= i <= n,
            n == v@.len(),
            ascii == forall|j: int| 0 <= j < i ==> v@[j] < 128,
        decreases n - i,
    {
        let ghost pre = ascii;
        if v[i] >= 128 {
            ascii = false;
        }
        proof {
            if ascii {
                assert(v@[i as int] < 128);
            } else {
                if pre && v@[i as int] < 128 {
                    assert(false);
                }
            }
        }
        i = i + 1;
    }
    if ascii {
        crate::text::bytes_to_string_exact(v.as_slice())
    } else {
        crate::text::bytes_to_string(v.as_slice())
    }
}

/// What one contained process contributes to the classification.
pub struct ContainerProc {
    /// The process name.
    pub comm: Option<String>,
    /// The environment block.
    pub environ: Option<String>,
}

/// The "NVIDIA" marker.
pub open spec fn nvidia_word() -> Seq<u8> {
    seq![78u8, 86u8, 73u8, 68u8, 73u8, 65u8]
}

/// The "CUDA" marker.
pub open spec fn cuda_word() -> Seq<u8> {
    seq![67u8, 85u8, 68u8, 65u8]
}

/// The "OLLAMA" marker.
pub open spec fn ollama_word() -> Seq<u8> {
    seq![79u8, 76u8, 76u8, 65u8, 77u8, 65u8]
}

/// One process's effect on (class, gpu) so far: AI names win, then
/// gaming names; compute names only claim a still-general container; an
/// NVIDIA or CUDA variable grants GPU access and an OLLAMA variable makes
/// the container AI.
pub open spec fn proc_step(
    acc: (ContainerWorkloadType, bool),
    comm: Option<Seq<u8>>,
    environ: Option<Seq<u8>>,
) -> (ContainerWorkloadType, bool) {
    let c0 = acc.0;
    let c1 = match comm {
        Some(cm) => {
            let cl = lower_seq(cm);
            if matches_any(cl, ai_container_patterns()) {
                ContainerWorkloadType::Ai
            } else if matches_any(cl, gaming_container_patterns()) {
                ContainerWorkloadType::Gaming
            } else if matches_any(cl, compute_container_patterns()) && c0
                == ContainerWorkloadType::General {
                ContainerWorkloadType::Compute
            } else {
                c0
            }
        },
        None => c0,
    };
    match environ {
        Some(env) => {
            let gpu = acc.1 || contains_seq(env, nvidia_word()) || contains_seq(env, cuda_word());
            let c2 = if contains_seq(env, ollama_word()) {
                ContainerWorkloadType::Ai
            } else {
                c1
            };
            (c2, gpu)
        },
        None => (c1, acc.1),
    }
}

/// The classification after every process, in order.
pub open spec fn procs_fold(
    acc: (ContainerWorkloadType, bool),
    procs: Seq<ContainerProc>,
) -> (ContainerWorkloadType, bool)
    decreases procs.len(),
{
    if procs.len() == 0 {
        acc
    } else {
        procs_fold(
            proc_step(
                acc,
                match procs[0].comm {
                    Some(c) => Some(string_bytes(c@)),
                    None => None,
                },
                match procs[0].environ {
                    Some(e) => Some(string_bytes(e@)),
                    None => None,
                },
            ),
            procs.drop_first(),
        )
    }
}

/// The NVIDIA device majors in a devices list grant GPU access.
pub open spec fn spec_devices_gpu(devices: Option<Seq<u8>>) -> bool {
    match devices {
        Some(d) => contains_seq(d, seq![49u8, 57u8, 53u8, 58u8]) || contains_seq(
            d,
            seq![50u8, 51u8, 53u8, 58u8],
        ),
        None => false,
    }
}

/// Classify a container from its processes' names and environments and
/// its device list.
pub fn classify_container_workload(procs: &Vec<ContainerProc>, devices_list: Option<&str>) -> (r: (
    ContainerWorkloadType,
    bool,
))
    ensures
        ({
            let folded = procs_fold((ContainerWorkloadType::General, false), procs@);
            &&& r.0 == folded.0
            &&& r.1 == (folded.1 || spec_devices_gpu(
                match devices_list {
                    Some(d) => Some(d.spec_bytes()),
                    None => None,
                },
            ))
        }),
{
    let mut class = ContainerWorkloadType::General;
    let mut has_gpu = false;
    let ai = ai_container_pattern_vec();
    let gaming = gaming_container_pattern_vec();
    let compute = compute_container_pattern_vec();
    proof {
        assert(views_of(ai@) =~= ai_container_patterns());
        assert(views_of(gaming@) =~= gaming_container_patterns());
        assert(views_of(compute@) =~= compute_container_patterns());
    }
    let nvidia: Vec<u8> = vec![78u8, 86u8, 73u8, 68u8, 73u8, 65u8];  // NVIDIA
    let cuda: Vec<u8> = vec![67u8, 85u8, 68u8, 65u8];  // CUDA
    let ollama: Vec<u8> = vec![79u8, 76u8, 76u8, 65u8, 77u8, 65u8];  // OLLAMA
    proof {
        assert(nvidia@ =~= nvidia_word());
        assert(cuda@ =~= cuda_word());
        assert(ollama@ =~= ollama_word());
    }
    let n: usize = procs.len();
    let mut i: usize = 0;
    proof {
        assert(procs@.subrange(0, 0) =~= Seq::<ContainerProc>::empty());
    }
    while i < n
        invariant
            0 <= i <= n,
            n == procs@.len(),
            views_of(ai@) == ai_container_patterns(),
            views_of(gaming@) == gaming_container_patterns(),
            views_of(compute@) == compute_container_patterns(),
            nvidia@ == nvidia_word(),
            cuda@ == cuda_word(),
            ollama@ == ollama_word(),
            (class, has_gpu) == procs_fold(
                (ContainerWorkloadType::General, false),
                procs@.subrange(0, i as int),
            ),
        decreases n - i,
    {
        let ghost acc_pre = (class, has_gpu);
        let p: &ContainerProc = &procs[i];
        if let Some(cm) = &p.comm {
            let cl = to_lower_bytes(cm.as_str().as_bytes());
            if contains_any(cl.as_slice(), &ai) {
                class = ContainerWorkloadType::Ai;
            } else if contains_any(cl.as_slice(), &gaming) {
                class = ContainerWorkloadType::Gaming;
            } else if contains_any(cl.as_slice(), &compute) {
                let is_general: bool = match class {
                    ContainerWorkloadType::General => true,
                    _ => false,
                };
                if is_general {
                    class = ContainerWorkloadType::Compute;
                }
            }
        }
        if let Some(env) = &p.environ {
            let eb = env.as_str().as_bytes();
            if contains_bytes(eb, nvidia.as_slice()) || contains_bytes(eb, cuda.as_slice()) {
                has_gpu = true;
            }
            if contains_bytes(eb, ollama.as_slice()) {
                class = ContainerWorkloadType::Ai;
            }
        }
        proof {
            assert((class, has_gpu) == proc_step(
                acc_pre,
                match procs@[i as int].comm {
                    Some(c) => Some(string_bytes(c@)),
                    None => None,
                },
                match procs@[i as int].environ {
                    Some(e) => Some(string_bytes(e@)),
                    None => None,
                },
            ));
            assert(procs@.subrange(0, i + 1) =~= procs@.subrange(0, i as int).push(
                procs@[i as int],
            ));
            lemma_procs_fold_snoc(
                (ContainerWorkloadType::General, false),
                procs@.subrange(0, i as int),
                procs@[i as int],
            );
        }
        i = i + 1;
    }
    proof {
        assert(procs@.subrange(0, n as int) =~= procs@);
    }
    let dev_gpu: bool = match devices_list {
        Some(d) => {
            let maj195: Vec<u8> = vec![49u8, 57u8, 53u8, 58u8];  // 195:
            let maj235: Vec<u8> = vec![50u8, 51u8, 53u8, 58u8];  // 235:
            proof {
                assert(maj195@ =~= seq![49u8, 57u8, 53u8, 58u8]);
                assert(maj235@ =~= seq![50u8, 51u8, 53u8, 58u8]);
            }
            contains_bytes(d.as_bytes(), maj195.as_slice()) || contains_bytes(
                d.as_bytes(),
                maj235.as_slice(),
            )
        },
        None => false,
    };
    (class, has_gpu || dev_gpu)
}

proof fn lemma_procs_fold_snoc(
    acc: (ContainerWorkloadType, bool),
    procs: Seq<ContainerProc>,
    x: ContainerProc,
)
    ensures
        procs_fold(acc, procs.push(x)) == proc_step(
            procs_fold(acc, procs),
            match x.comm {
                Some(c) => Some(string_bytes(c@)),
                None => None,
            },
            match x.environ {
                Some(e) => Some(string_bytes(e@)),
                None => None,
            },
        ),
    decreases procs.len(),
{
    if procs.len() == 0 {
        assert(procs.push(x).drop_first() =~= Seq::<ContainerProc>::empty());
        assert(procs.push(x)[0] == x);
        let stepped = proc_step(
            acc,
            match x.comm {
                Some(c) => Some(string_bytes(c@)),
                None => None,
            },
            match x.environ {
                Some(e) => Some(string_bytes(e@)),
                None => None,
            },
        );
        assert(procs_fold(acc, procs.push(x)) == procs_fold(
            stepped,
            Seq::<ContainerProc>::empty(),
        ));
        assert(procs_fold(stepped, Seq::<ContainerProc>::empty()) == stepped);
        assert(procs_fold(acc, procs) == acc);
    } else {
        assert(procs.push(x).drop_first() =~= procs.drop_first().push(x));
        assert(procs.push(x)[0] == procs[0]);
        lemma_procs_fold_snoc(
            proc_step(
                acc,
                match procs[0].comm {
                    Some(c) => Some(string_bytes(c@)),
                    None => None,
                },
                match procs[0].environ {
                    Some(e) => Some(string_bytes(e@)),
                    None => None,
                },
            ),
            procs.drop_first(),
            x,
        );
    }
}

/// Information about a detected container.
#[derive(Debug, Clone)]
pub struct ContainerInfo {
    /// Container id (short form).
    pub id: String,
    /// Runtime name (docker, podman, containerd, unknown).
    pub runtime: String,
    /// Workload type.
    pub workload_type: ContainerWorkloadType,
    /// Main process PIDs in the container.
    pub pids: Vec<u32>,
    /// Whether the container has GPU access.
    pub has_gpu: bool,
    /// Cgroup path.
    pub cgroup_path: String,
}

/// Whether a process name names "ollama".
pub open spec fn spec_is_ollama_comm(comm: Seq<u8>) -> bool {
    contains_seq(
        lower_seq(crate::text::trim_seq(comm)),
        seq![111u8, 108u8, 108u8, 97u8, 109u8, 97u8],
    )
}

/// The table lists a process with this PID.
pub open spec fn procs_list_pid(procs: Seq<(u32, String)>, pid: u32) -> bool {
    exists|j: int| 0 <= j < procs.len() && (#[trigger] procs[j]).0 == pid
}

/// The (pid, name) pairs whose trimmed, lowered name names "ollama".
pub fn scan_ollama(procs: &Vec<(u32, String)>) -> (r: Vec<u32>)
    ensures
        forall|t: int| #![trigger r@[t]]
            0 <= t < r@.len() ==> procs_list_pid(procs@, r@[t]),
        forall|j: int| #![trigger procs@[j]]
            0 <= j < procs@.len() && spec_is_ollama_comm(string_bytes(procs@[j].1@))
                ==> r@.contains(procs@[j].0),
{
    let word: Vec<u8> = vec![111u8, 108u8, 108u8, 97u8, 109u8, 97u8];  // ollama
    proof {
        assert(word@ =~= seq![111u8, 108u8, 108u8, 97u8, 109u8, 97u8]);
    }
    let n: usize = procs.len();
    let mut out: Vec<u32> = Vec::new();
    let mut i: usize = 0;
    while i < n
        invariant
            0 <= i <= n,
            n == procs@.len(),
            word@ == seq![111u8, 108u8, 108u8, 97u8, 109u8, 97u8],
            forall|t: int| #![trigger out@[t]]
                0 <= t < out@.len() ==> procs_list_pid(procs@, out@[t]),
            forall|j: int| #![trigger procs@[j]]
                0 <= j < i && spec_is_ollama_comm(string_bytes(procs@[j].1@)) ==> out@.contains(
                    procs@[j].0,
                ),
        decreases n - i,
    {
        let ghost out_pre = out@;
        let e: &(u32, String) = &procs[i];
        let t = crate::text::trim_exact(e.1.as_str().as_bytes());
        let low = to_lower_bytes(t.as_slice());
        if contains_bytes(low.as_slice(), word.as_slice()) {
            out.push(e.0);
            assert(out@[out@.len() - 1] == procs@[i as int].0);
        }
        proof {
            assert forall|j: int| #![trigger procs@[j]]
                0 <= j < i + 1 && spec_is_ollama_comm(
                    string_bytes(procs@[j].1@),
                ) implies out@.contains(procs@[j].0) by {
                if j < i as int {
                    let t0 = choose|t0: int| 0 <= t0 < out_pre.len() && out_pre[t0] == procs@[j].0;
                    assert(out@[t0] == procs@[j].0);
                } else {
                    assert(out@[out@.len() - 1] == procs@[j].0);
                }
            }
        }
        i = i + 1;
    }
    out
}

impl ContainerInfo {
    /// Field-for-field copy.
    pub fn clone_info(&self) -> (r: ContainerInfo)
        ensures
            r.id@ == self.id@,
            r.workload_type == self.workload_type,
            r.pids@ == self.pids@,
            r.has_gpu == self.has_gpu,
            r.runtime@ == self.runtime@,
            r.cgroup_path@ == self.cgroup_path@,
    {
        let mut pids: Vec<u32> = Vec::new();
        let n: usize = self.pids.len();
        let mut i: usize = 0;
        while i < n
            invariant
                0 <= i <= n,
                n == self.pids@.len(),
                pids@ =~= self.pids@.subrange(0, i as int),
            decreases n - i,
        {
            pids.push(self.pids[i]);
            proof {
                assert(pids@ =~= self.pids@.subrange(0, i + 1));
            }
            i = i + 1;
        }
        proof {
            assert(pids@ =~= self.pids@);
        }
        ContainerInfo {
            id: self.id.clone(),
            runtime: self.runtime.clone(),
            workload_type: self.workload_type,
            pids,
            has_gpu: self.has_gpu,
            cgroup_path: self.cgroup_path.clone(),
        }
    }
}

/// The id list holds this id text.
pub open spec fn ids_have(rs: Seq<String>, id: Seq<char>) -> bool {
    exists|t: int| 0 <= t < rs.len() && (#[trigger] rs[t])@ == id
}

/// The container list holds a container with this id text.
pub open spec fn added_have_id(cs: Seq<ContainerInfo>, id: Seq<char>) -> bool {
    exists|t: int| 0 <= t < cs.len() && (#[trigger] cs[t]).id@ == id
}

/// The list holds a container with this id text.
pub open spec fn containers_have_id(cs: Seq<ContainerInfo>, id: Seq<char>) -> bool {
    exists|j: int| 0 <= j < cs.len() && (#[trigger] cs[j]).id@ == id
}

/// Tracks containers between scans, keyed by container id.
pub struct ContainerMonitor {
    containers: Vec<ContainerInfo>,
    nvidia_available: bool,
    ollama_pids: Vec<u32>,
}

impl ContainerMonitor {
    /// The containers of the last scan.
    pub closed spec fn view(&self) -> Seq<ContainerInfo> {
        self.containers@
    }

    /// Whether the NVIDIA container runtime was found at startup.
    pub closed spec fn nvidia(&self) -> bool {
        self.nvidia_available
    }

    /// The ollama PIDs of the last scan.
    pub closed spec fn ollama(&self) -> Seq<u32> {
        self.ollama_pids@
    }

    /// A monitor over the startup readings.
    pub fn new(containers: Vec<ContainerInfo>, nvidia_available: bool, ollama_pids: Vec<u32>) -> (
        r: ContainerMonitor)
        ensures
            r@ == containers@,
            r.nvidia() == nvidia_available,
            r.ollama() == ollama_pids@,
    {
        ContainerMonitor { containers, nvidia_available, ollama_pids }
    }

    /// Whether a container list holds this id.
    fn id_in(cs: &Vec<ContainerInfo>, id: &String) -> (r: bool)
        ensures
            r == containers_have_id(cs@, id@),
    {
        let n: usize = cs.len();
        let mut i: usize = 0;
        while i < n
            invariant
                0 <= i <= n,
                n == cs@.len(),
                forall|j: int| 0 <= j < i ==> (#[trigger] cs@[j]).id@ != id@,
            decreases n - i,
        {
            if crate::text::eq_bytes(
                cs[i].id.as_str().as_bytes(),
                id.as_str().as_bytes(),
            ) {
                proof {
                    crate::text::lemma_string_bytes_eq(cs@[i as int].id@, id@);
                }
                return true;
            }
            proof {
                if cs@[i as int].id@ == id@ {
                    assert(string_bytes(cs@[i as int].id@) == string_bytes(id@));
                    assert(false);
                }
            }
            i = i + 1;
        }
        false
    }

    /// Take a fresh scan with its ollama PIDs: the containers whose id is
    /// new, and the ids that went away; the scan becomes the state.
    pub fn rescan(&mut self, current: Vec<ContainerInfo>, ollama_pids: Vec<u32>) -> (r: (
        Vec<ContainerInfo>,
        Vec<String>,
    ))
        ensures
            final(self)@ == current@,
            final(self).ollama() == ollama_pids@,
            final(self).nvidia() == old(self).nvidia(),
            forall|t: int| #![trigger r.0@[t]]
                0 <= t < r.0@.len() ==> !containers_have_id(old(self)@, r.0@[t].id@)
                    && containers_have_id(current@, r.0@[t].id@),
            forall|j: int| #![trigger current@[j]]
                0 <= j < current@.len() && !containers_have_id(old(self)@, current@[j].id@)
                    ==> added_have_id(r.0@, current@[j].id@),
            forall|t: int| #![trigger r.1@[t]]
                0 <= t < r.1@.len() ==> containers_have_id(old(self)@, r.1@[t]@)
                    && !containers_have_id(current@, r.1@[t]@),
            forall|j: int| #![trigger old(self)@[j]]
                0 <= j < old(self)@.len() && !containers_have_id(current@, old(self)@[j].id@)
                    ==> ids_have(r.1@, old(self)@[j].id@),
    {
        let ghost pre = self.containers@;
        let ghost cur = current@;
        let mut added: Vec<ContainerInfo> = Vec::new();
        let n: usize = current.len();
        let mut i: usize = 0;
        while i < n
            invariant
                0 <= i <= n,
                n == current@.len(),
                self.containers@ == pre,
                forall|t: int| #![trigger added@[t]]
                    0 <= t < added@.len() ==> !containers_have_id(pre, added@[t].id@)
                        && containers_have_id(current@, added@[t].id@),
                forall|j: int| #![trigger current@[j]]
                    0 <= j < i && !containers_have_id(pre, current@[j].id@) ==> added_have_id(
                        added@,
                        current@[j].id@,
                    ),
            decreases n - i,
        {
            let ghost added_pre = added@;
            let c: &ContainerInfo = &current[i];
            if !Self::id_in(&self.containers, &c.id) {
                added.push(c.clone_info());
                proof {
                    assert(added@[added@.len() - 1].id@ == current@[i as int].id@);
                    assert(containers_have_id(current@, current@[i as int].id@));
                }
            }
            proof {
                assert forall|j: int| #![trigger current@[j]]
                    0 <= j < i + 1 && !containers_have_id(pre, current@[j].id@) implies added_have_id(
                    added@,
                    current@[j].id@,
                ) by {
                    if j < i as int {
                        let t0 = choose|t0: int|
                            0 <= t0 < added_pre.len() && (#[trigger] added_pre[t0]).id@
                                == current@[j].id@;
                        assert(added@[t0].id@ == current@[j].id@);
                    } else {
                        assert(added@[added@.len() - 1].id@ == current@[j].id@);
                    }
                }
            }
            i = i + 1;
        }
        let mut removed: Vec<String> = Vec::new();
        let m: usize = self.containers.len();
        let mut t: usize = 0;
        while t < m
            invariant
                0 <= t <= m,
                m == pre.len(),
                self.containers@ == pre,
                forall|a: int| #![trigger removed@[a]]
                    0 <= a < removed@.len() ==> containers_have_id(pre, removed@[a]@)
                        && !containers_have_id(current@, removed@[a]@),
                forall|j: int| #![trigger pre[j]]
                    0 <= j < t && !containers_have_id(current@, pre[j].id@) ==> ids_have(
                        removed@,
                        pre[j].id@,
                    ),
            decreases m - t,
        {
            let ghost removed_pre = removed@;
            let id = self.containers[t].id.clone();
            if !Self::id_in(&current, &id) {
                removed.push(id);
                proof {
                    assert(removed@[removed@.len() - 1]@ == pre[t as int].id@);
                    assert(containers_have_id(pre, pre[t as int].id@));
                }
            }
            proof {
                assert forall|j: int| #![trigger pre[j]]
                    0 <= j < t + 1 && !containers_have_id(current@, pre[j].id@) implies ids_have(
                    removed@,
                    pre[j].id@,
                ) by {
                    if j < t as int {
                        let a0 = choose|a0: int|
                            0 <= a0 < removed_pre.len() && (#[trigger] removed_pre[a0])@
                                == pre[j].id@;
                        assert(removed@[a0]@ == pre[j].id@);
                    } else {
                        assert(removed@[removed@.len() - 1]@ == pre[j].id@);
                    }
                }
            }
            t = t + 1;
        }
        self.containers = current;
        self.ollama_pids = ollama_pids;
        proof {
            assert(old(self)@ == pre);
            assert forall|j: int| #![trigger old(self)@[j]]
                0 <= j < old(self)@.len() && !containers_have_id(
                    cur,
                    old(self)@[j].id@,
                ) implies ids_have(removed@, old(self)@[j].id@) by {
                assert(old(self)@[j] == pre[j]);
            }
        }
        (added, removed)
    }

    /// Every PID of every tracked container, each with its own
    /// container's workload class: one pair per contained PID, in
    /// container order.
    pub fn all_pids(&self) -> (r: Vec<(u32, ContainerWorkloadType)>)
        ensures
            r@.len() == pids_total(self@, self@.len() as int),
            forall|t: int| #![trigger r@[t]]
                0 <= t < r@.len() ==> container_lists_pid(self@, r@[t].0, r@[t].1),
            forall|j: int, p: int|
                #![trigger self@[j].pids@[p]]
                0 <= j < self@.len() && 0 <= p < self@[j].pids@.len() ==> container_pair_listed(
                    r@,
                    self@[j].pids@[p],
                    self@[j].workload_type,
                ),
    {
        let n: usize = self.containers.len();
        let mut out: Vec<(u32, ContainerWorkloadType)> = Vec::new();
        let mut i: usize = 0;
        while i < n
            invariant
                0 <= i <= n,
                n == self.containers@.len(),
                out@.len() == pids_total(self.containers@, i as int),
                forall|t: int| #![trigger out@[t]]
                    0 <= t < out@.len() ==> container_lists_pid(
                        self.containers@,
                        out@[t].0,
                        out@[t].1,
                    ),
                forall|j: int, p: int|
                    #![trigger self.containers@[j].pids@[p]]
                    0 <= j < i && 0 <= p < self.containers@[j].pids@.len()
                        ==> container_pair_listed(
                        out@,
                        self.containers@[j].pids@[p],
                        self.containers@[j].workload_type,
                    ),
            decreases n - i,
        {
            let c: &ContainerInfo = &self.containers[i];
            let pn: usize = c.pids.len();
            let mut p: usize = 0;
            while p < pn
                invariant
                    0 <= p <= pn,
                    0 <= i < n,
                    n == self.containers@.len(),
                    pn == self.containers@[i as int].pids@.len(),
                    c == &self.containers[i as int],
                    out@.len() == pids_total(self.containers@, i as int) + p,
                    forall|t: int| #![trigger out@[t]]
                        0 <= t < out@.len() ==> container_lists_pid(
                            self.containers@,
                            out@[t].0,
                            out@[t].1,
                        ),
                    forall|j: int, p2: int|
                        #![trigger self.containers@[j].pids@[p2]]
                        0 <= j < i && 0 <= p2 < self.containers@[j].pids@.len()
                            ==> container_pair_listed(
                            out@,
                            self.containers@[j].pids@[p2],
                            self.containers@[j].workload_type,
                        ),
                    forall|p2: int| #![trigger self.containers@[i as int].pids@[p2]]
                        0 <= p2 < p ==> container_pair_listed(
                            out@,
                            self.containers@[i as int].pids@[p2],
                            self.containers@[i as int].workload_type,
                        ),
                decreases pn - p,
            {
                let ghost out_pre = out@;
                out.push((c.pids[p], c.workload_type));
                proof {
                    assert(self.containers@[i as int].pids@.contains(
                        self.containers@[i as int].pids@[p as int],
                    ));
                    assert(out@[out@.len() - 1] == (
                        self.containers@[i as int].pids@[p as int],
                        self.containers@[i as int].workload_type,
                    ));
                    assert forall|j: int, p2: int|
                        #![trigger self.containers@[j].pids@[p2]]
                        0 <= j < i && 0 <= p2
                            < self.containers@[j].pids@.len() implies container_pair_listed(
                        out@,
                        self.containers@[j].pids@[p2],
                        self.containers@[j].workload_type,
                    ) by {
                        let t0 = choose|t0: int|
                            0 <= t0 < out_pre.len() && #[trigger] out_pre[t0] == (
                                self.containers@[j].pids@[p2],
                                self.containers@[j].workload_type,
                            );
                        assert(out@[t0] == out_pre[t0]);
                    }
                    assert forall|p2: int|
                        #![trigger self.containers@[i as int].pids@[p2]]
                        0 <= p2 < p + 1 implies container_pair_listed(
                        out@,
                        self.containers@[i as int].pids@[p2],
                        self.containers@[i as int].workload_type,
                    ) by {
                        if p2 < p as int {
                            let t0 = choose|t0: int|
                                0 <= t0 < out_pre.len() && #[trigger] out_pre[t0] == (
                                    self.containers@[i as int].pids@[p2],
                                    self.containers@[i as int].workload_type,
                                );
                            assert(out@[t0] == out_pre[t0]);
                        } else {
                            assert(out@[out@.len() - 1] == (
                                self.containers@[i as int].pids@[p2],
                                self.containers@[i as int].workload_type,
                            ));
                        }
                    }
                }
                p = p + 1;
            }
            i = i + 1;
        }
        out
    }

    /// Every container PID with its class, as `all_pids`.
    pub fn get_container_workloads(&self) -> (r: Vec<(u32, ContainerWorkloadType)>)
        ensures
            r@.len() == pids_total(self@, self@.len() as int),
            forall|t: int| #![trigger r@[t]]
                0 <= t < r@.len() ==> container_lists_pid(self@, r@[t].0, r@[t].1),
            forall|j: int, p: int|
                #![trigger self@[j].pids@[p]]
                0 <= j < self@.len() && 0 <= p < self@[j].pids@.len() ==> container_pair_listed(
                    r@,
                    self@[j].pids@[p],
                    self@[j].workload_type,
                ),
    {
        self.all_pids()
    }

    /// Number of AI containers.
    pub fn ai_container_count(&self) -> (r: usize) {
        let n: usize = self.containers.len();
        let mut count: usize = 0;
        let mut i: usize = 0;
        while i < n
            invariant
                0 <= i <= n,
                count <= i,
                n == self.containers@.len(),
            decreases n - i,
        {
            let is_ai: bool = match self.containers[i].workload_type {
                ContainerWorkloadType::Ai => true,
                _ => false,
            };
            if is_ai {
                count = count + 1;
            }
            i = i + 1;
        }
        count
    }

    /// Number of containers with GPU access.
    pub fn gpu_container_count(&self) -> (r: usize) {
        let n: usize = self.containers.len();
        let mut count: usize = 0;
        let mut i: usize = 0;
        while i < n
            invariant
                0 <= i <= n,
                count <= i,
                n == self.containers@.len(),
            decreases n - i,
        {
            if self.containers[i].has_gpu {
                count = count + 1;
            }
            i = i + 1;
        }
        count
    }

    /// Number of containers seen by the last scan.
    pub fn container_count(&self) -> (r: usize)
        ensures
            r == self@.len(),
    {
        self.containers.len()
    }

    /// Whether the NVIDIA container runtime was found at startup.
    pub fn has_nvidia_runtime(&self) -> (r: bool)
        ensures
            r == self.nvidia(),
    {
        self.nvidia_available
    }

    /// Number of ollama processes seen by the last scan.
    pub fn ollama_count(&self) -> (r: usize)
        ensures
            r == self.ollama().len(),
    {
        self.ollama_pids.len()
    }
}

/// The pair list holds this (PID, class) pair.
pub open spec fn container_pair_listed(
    r: Seq<(u32, ContainerWorkloadType)>,
    pid: u32,
    class: ContainerWorkloadType,
) -> bool {
    exists|t: int| 0 <= t < r.len() && #[trigger] r[t] == (pid, class)
}

/// The total PID count of the first `upto` containers.
pub open spec fn pids_total(cs: Seq<ContainerInfo>, upto: int) -> int
    decreases upto,
{
    if upto <= 0 {
        0
    } else {
        pids_total(cs, upto - 1) + cs[upto - 1].pids@.len()
    }
}

/// Some container of the list holds this PID with this class.
pub open spec fn container_lists_pid(
    cs: Seq<ContainerInfo>,
    pid: u32,
    class: ContainerWorkloadType,
) -> bool {
    exists|j: int|
        0 <= j < cs.len() && (#[trigger] cs[j]).pids@.contains(pid) && cs[j].workload_type == class
}


/// Everything read about one container-candidate cgroup directory.
pub struct ContainerScanEntry {
    /// The directory name.
    pub name: String,
    /// The full cgroup path, for runtime detection.
    pub cgroup_path: String,
    /// The PIDs in the cgroup.
    pub pids: Vec<u32>,
    /// Per-process name and environment readings.
    pub procs: Vec<ContainerProc>,
    /// The cgroup's device list, where present.
    pub devices_list: Option<String>,
}

/// The runtime a cgroup path names.
pub open spec fn spec_runtime_of(path: Seq<u8>) -> int {
    if contains_seq(path, seq![100u8, 111u8, 99u8, 107u8, 101u8, 114u8]) {
        0int
    } else if contains_seq(path, seq![108u8, 105u8, 98u8, 112u8, 111u8, 100u8]) || contains_seq(
        path,
        seq![112u8, 111u8, 100u8, 109u8, 97u8, 110u8],
    ) {
        1int
    } else if contains_seq(
        path,
        seq![99u8, 111u8, 110u8, 116u8, 97u8, 105u8, 110u8, 101u8, 114u8, 100u8],
    ) {
        2int
    } else {
        3int
    }
}

/// The runtime name a cgroup path shows: docker, podman, containerd, or
/// unknown.
fn runtime_of(path: &str) -> (r: String) {
    let docker: Vec<u8> = vec![100u8, 111u8, 99u8, 107u8, 101u8, 114u8];  // docker
    let libpod: Vec<u8> = vec![108u8, 105u8, 98u8, 112u8, 111u8, 100u8];  // libpod
    let podman: Vec<u8> = vec![112u8, 111u8, 100u8, 109u8, 97u8, 110u8];  // podman
    let containerd: Vec<u8> = vec![
        99u8, 111u8, 110u8, 116u8, 97u8, 105u8, 110u8, 101u8, 114u8, 100u8,
    ];  // containerd
    let b = path.as_bytes();
    if contains_bytes(b, docker.as_slice()) {
        String::from_str("docker")
    } else if contains_bytes(b, libpod.as_slice()) || contains_bytes(b, podman.as_slice()) {
        String::from_str("podman")
    } else if contains_bytes(b, containerd.as_slice()) {
        String::from_str("containerd")
    } else {
        String::from_str("unknown")
    }
}

/// Scan container-candidate cgroups: every entry whose name marks a
/// container and that holds at least one PID becomes a container, with
/// its id, runtime, classification and GPU access.
pub fn scan_containers(entries: Vec<ContainerScanEntry>) -> (r: Vec<ContainerInfo>)
    ensures
        r@.len() <= entries@.len(),
        forall|t: int| #![trigger r@[t]]
            0 <= t < r@.len() ==> r@[t].pids@.len() > 0,
{
    let n: usize = entries.len();
    let mut out: Vec<ContainerInfo> = Vec::new();
    let mut i: usize = 0;
    while i < n
        invariant
            0 <= i <= n,
            n == entries@.len(),
            out@.len() <= i,
            forall|t: int| #![trigger out@[t]] 0 <= t < out@.len() ==> out@[t].pids@.len() > 0,
        decreases n - i,
    {
        let e: &ContainerScanEntry = &entries[i];
        if is_container_cgroup(e.name.as_str()) && e.pids.len() > 0 {
            let id = extract_container_id(e.name.as_str());
            let runtime = runtime_of(e.cgroup_path.as_str());
            let devices_ref: Option<&str> = match &e.devices_list {
                Some(d) => Some(d.as_str()),
                None => None,
            };
            let (workload_type, has_gpu) = classify_container_workload(&e.procs, devices_ref);
            let mut pids: Vec<u32> = Vec::new();
            let pn: usize = e.pids.len();
            let mut p: usize = 0;
            while p < pn
                invariant
                    0 <= p <= pn,
                    pn == e.pids@.len(),
                    pids@.len() == p,
                decreases pn - p,
            {
                pids.push(e.pids[p]);
                p = p + 1;
            }
            out.push(
                ContainerInfo {
                    id,
                    runtime,
                    workload_type,
                    pids,
                    has_gpu,
                    cgroup_path: e.cgroup_path.clone(),
                },
            );
        }
        i = i + 1;
    }
    out
}

} // verus!
