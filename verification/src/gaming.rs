//! Gaming and AI process detection: a process is classified by the resolved
//! executable path and, failing that, by its environment block. A detector
//! keeps the sets of known gaming and AI PIDs and reports a diff per scan.

use vstd::prelude::*;

use vstd::string::StringSliceAdditionalSpecFns;

use crate::patterns::ai_env_patterns;
use crate::patterns::ai_env_pattern_vec;
use crate::patterns::ai_exe_strict_patterns;
use crate::patterns::ai_exe_strict_pattern_vec;
use crate::patterns::gaming_env_patterns;
use crate::patterns::gaming_env_pattern_vec;
use crate::patterns::gaming_exe_patterns;
use crate::patterns::gaming_exe_pattern_vec;
use crate::text::contains_any;
use crate::text::contains_bytes;
use crate::text::contains_seq;
use crate::text::ends_with_bytes;
use crate::text::ends_with_seq;
use crate::text::lower_seq;
use crate::text::matches_any;
use crate::text::to_lower_bytes;
use crate::text::views_of;
use crate::workload::WORKLOAD_AI;
use crate::workload::WORKLOAD_GAMING;

verus! {

/// The ".exe" suffix that marks Windows binaries run under a translator.
pub open spec fn exe_suffix() -> Seq<u8> {
    seq![46u8, 101u8, 120u8, 101u8]
}

/// The "python" interpreter name: an executable-path match on it alone is
/// not accepted; the environment must confirm an AI workload.
pub open spec fn python_pat() -> Seq<u8> {
    seq![112u8, 121u8, 116u8, 104u8, 111u8, 110u8]
}

/// Class taken from the executable path alone: gaming patterns or the
/// ".exe" suffix give gaming; AI program names give AI; a bare interpreter
/// match is deferred to the environment check.
pub open spec fn spec_check_exe_path(exe: Seq<u8>) -> Option<u32> {
    let lower = lower_seq(exe);
    if matches_any(lower, gaming_exe_patterns()) {
        Some(WORKLOAD_GAMING)
    } else if ends_with_seq(lower, exe_suffix()) {
        Some(WORKLOAD_GAMING)
    } else if matches_any(lower, ai_exe_strict_patterns()) {
        Some(WORKLOAD_AI)
    } else {
        None
    }
}

/// Class taken from the environment block: gaming variables win over AI
/// variables. Variable names are matched case-sensitively.
pub open spec fn spec_check_environ(environ: Seq<u8>) -> Option<u32> {
    if matches_any(environ, gaming_env_patterns()) {
        Some(WORKLOAD_GAMING)
    } else if matches_any(environ, ai_env_patterns()) {
        Some(WORKLOAD_AI)
    } else {
        None
    }
}

/// Class of a process given what could be read of it: the executable path
/// wins over the environment.
pub open spec fn spec_classify_process(exe: Option<Seq<u8>>, environ: Option<Seq<u8>>) -> Option<
    u32,
> {
    let from_exe = if exe is Some {
        spec_check_exe_path(exe->0)
    } else {
        None
    };
    if from_exe is Some {
        from_exe
    } else if environ is Some {
        spec_check_environ(environ->0)
    } else {
        None
    }
}

/// Classify by the resolved executable path.
pub fn check_exe_path(exe: &str) -> (r: Option<u32>)
    ensures
        r == spec_check_exe_path(exe.spec_bytes()),
{
    let lower = to_lower_bytes(exe.as_bytes());
    let gaming = gaming_exe_pattern_vec();
    proof {
        assert(views_of(gaming@) =~= gaming_exe_patterns());
    }
    if contains_any(lower.as_slice(), &gaming) {
        return Some(WORKLOAD_GAMING);
    }
    let suffix: Vec<u8> = vec![46u8, 101u8, 120u8, 101u8];  // .exe
    proof {
        assert(suffix@ =~= exe_suffix());
    }
    if ends_with_bytes(lower.as_slice(), suffix.as_slice()) {
        return Some(WORKLOAD_GAMING);
    }
    let ai = ai_exe_strict_pattern_vec();
    proof {
        assert(views_of(ai@) =~= ai_exe_strict_patterns());
    }
    if contains_any(lower.as_slice(), &ai) {
        return Some(WORKLOAD_AI);
    }
    None
}

/// Classify by the environment block.
pub fn check_environ(environ: &str) -> (r: Option<u32>)
    ensures
        r == spec_check_environ(environ.spec_bytes()),
{
    let b = environ.as_bytes();
    let gaming = gaming_env_pattern_vec();
    proof {
        assert(views_of(gaming@) =~= gaming_env_patterns());
    }
    if contains_any(b, &gaming) {
        return Some(WORKLOAD_GAMING);
    }
    let ai = ai_env_pattern_vec();
    proof {
        assert(views_of(ai@) =~= ai_env_patterns());
    }
    if contains_any(b, &ai) {
        return Some(WORKLOAD_AI);
    }
    None
}

/// Classify one process from what the caller could read of it.
pub fn classify_process(exe: Option<&str>, environ: Option<&str>) -> (r: Option<u32>)
    ensures
        r == spec_classify_process(
            match exe {
                Some(e) => Some(e.spec_bytes()),
                None => None,
            },
            match environ {
                Some(e) => Some(e.spec_bytes()),
                None => None,
            },
        ),
{
    if let Some(e) = exe {
        if let Some(c) = check_exe_path(e) {
            return Some(c);
        }
    }
    if let Some(e) = environ {
        if let Some(c) = check_environ(e) {
            return Some(c);
        }
    }
    None
}

/// One process as read from the process table: its PID and, where readable,
/// the resolved executable path and the environment block.
pub struct ProcEntry {
    pub pid: u32,
    pub exe: Option<String>,
    pub environ: Option<String>,
}

/// The byte strings of an optionally read text.
pub open spec fn opt_bytes(s: Option<String>) -> Option<Seq<u8>> {
    match s {
        Some(t) => Some(crate::text::string_bytes(t@)),
        None => None,
    }
}

/// The process table holds a process with this PID that classifies to
/// this class.
pub open spec fn classified_in(procs: Seq<ProcEntry>, p: u32, c: u32) -> bool {
    exists|j: int|
        0 <= j < procs.len() && (#[trigger] procs[j]).pid == p && spec_classify_process(
            opt_bytes(procs[j].exe),
            opt_bytes(procs[j].environ),
        ) == Some(c)
}

/// The pair list holds an entry for this PID.
pub open spec fn listed_pid(r: Seq<(u32, u32)>, p: u32) -> bool {
    exists|t: int| 0 <= t < r.len() && (#[trigger] r[t]).0 == p
}

/// The pair list holds this (pid, class) pair.
pub open spec fn listed_pair(r: Seq<(u32, u32)>, p: u32, c: u32) -> bool {
    exists|t: int| 0 <= t < r.len() && #[trigger] r[t] == (p, c)
}

/// Scan a process table for gaming and AI processes.
/// Returns the (pid, class) pairs of the processes that classify.
pub fn scan_gaming_pids(procs: &Vec<ProcEntry>) -> (r: Vec<(u32, u32)>)
    ensures
        forall|t: int| #![trigger r@[t]]
            0 <= t < r@.len() ==> classified_in(procs@, r@[t].0, r@[t].1),
        forall|j: int| #![trigger procs@[j]]
            0 <= j < procs@.len() && spec_classify_process(
                opt_bytes(procs@[j].exe),
                opt_bytes(procs@[j].environ),
            ) is Some ==> listed_pid(r@, procs@[j].pid),
{
    let n: usize = procs.len();
    let mut out: Vec<(u32, u32)> = Vec::new();
    let mut i: usize = 0;
    while i < n
        invariant
            0 <= i <= n,
            n == procs@.len(),
            forall|t: int| #![trigger out@[t]]
                0 <= t < out@.len() ==> classified_in(procs@, out@[t].0, out@[t].1),
            forall|j: int| #![trigger procs@[j]]
                0 <= j < i && spec_classify_process(
                    opt_bytes(procs@[j].exe),
                    opt_bytes(procs@[j].environ),
                ) is Some ==> listed_pid(out@, procs@[j].pid),
        decreases n - i,
    {
        let ghost out_pre = out@;
        let e: &ProcEntry = &procs[i];
        let exe_ref: Option<&str> = match &e.exe {
            Some(s) => Some(s.as_str()),
            None => None,
        };
        let env_ref: Option<&str> = match &e.environ {
            Some(s) => Some(s.as_str()),
            None => None,
        };
        if let Some(class) = classify_process(exe_ref, env_ref) {
            out.push((e.pid, class));
            assert(procs@[i as int].pid == out@[out@.len() - 1].0);
        }
        proof {
            assert forall|j: int| #![trigger procs@[j]]
                0 <= j < i + 1 && spec_classify_process(
                    opt_bytes(procs@[j].exe),
                    opt_bytes(procs@[j].environ),
                ) is Some implies listed_pid(out@, procs@[j].pid) by {
                if j < i as int {
                    let t0 = choose|t0: int|
                        0 <= t0 < out_pre.len() && (#[trigger] out_pre[t0]).0 == procs@[j].pid;
                    assert(out@[t0].0 == procs@[j].pid);
                } else {
                    assert(out@[out@.len() - 1].0 == procs@[j].pid);
                }
            }
        }
        i = i + 1;
    }
    out
}


/// Whether `p` occurs in the PID list.
fn pid_in(v: &Vec<u32>, p: u32) -> (r: bool)
    ensures
        r == v@.contains(p),
{
    let n: usize = v.len();
    let mut i: usize = 0;
    while i < n
        invariant
            0 <= i <= n,
            n == v@.len(),
            forall|j: int| 0 <= j < i ==> v@[j] != p,
        decreases n - i,
    {
        if v[i] == p {
            assert(v@[i as int] == p);
            return true;
        }
        i = i + 1;
    }
    false
}

/// Split a scan into its gaming PIDs and its AI PIDs.
fn partition_scan(scan: &Vec<(u32, u32)>) -> (r: (Vec<u32>, Vec<u32>))
    requires
        forall|a: int, b: int|
            0 <= a < b < scan@.len() ==> (#[trigger] scan@[a]).0 != (#[trigger] scan@[b]).0,
    ensures
        forall|p: u32| r.0@.contains(p) <==> listed_pair(scan@, p, WORKLOAD_GAMING),
        forall|p: u32| r.1@.contains(p) <==> listed_pair(scan@, p, WORKLOAD_AI),
        forall|a: int, b: int| 0 <= a < b < r.0@.len() ==> r.0@[a] != r.0@[b],
        forall|a: int, b: int| 0 <= a < b < r.1@.len() ==> r.1@[a] != r.1@[b],
        forall|p: u32| r.0@.contains(p) ==> !r.1@.contains(p),
{
    let n: usize = scan.len();
    let mut cur_g: Vec<u32> = Vec::new();
    let mut cur_a: Vec<u32> = Vec::new();
    let mut i: usize = 0;
    while i < n
        invariant
            0 <= i <= n,
            n == scan@.len(),
            forall|a: int, b: int|
                0 <= a < b < scan@.len() ==> (#[trigger] scan@[a]).0 != (#[trigger] scan@[b]).0,
            forall|p: u32|
                cur_g@.contains(p) <==> listed_pair(scan@.subrange(0, i as int), p, WORKLOAD_GAMING),
            forall|p: u32|
                cur_a@.contains(p) <==> listed_pair(scan@.subrange(0, i as int), p, WORKLOAD_AI),
            forall|a: int| #![trigger cur_g@[a]]
                0 <= a < cur_g@.len() ==> exists|j: int|
                    0 <= j < i && (#[trigger] scan@[j]).0 == cur_g@[a],
            forall|a: int| #![trigger cur_a@[a]]
                0 <= a < cur_a@.len() ==> exists|j: int|
                    0 <= j < i && (#[trigger] scan@[j]).0 == cur_a@[a],
            forall|a: int, b: int| 0 <= a < b < cur_g@.len() ==> cur_g@[a] != cur_g@[b],
            forall|a: int, b: int| 0 <= a < b < cur_a@.len() ==> cur_a@[a] != cur_a@[b],
        decreases n - i,
    {
        let ghost g_pre = cur_g@;
        let ghost a_pre = cur_a@;
        let e = scan[i];
        if e.1 == WORKLOAD_GAMING {
            proof {
                if g_pre.contains(e.0) {
                    let a = choose|a: int| 0 <= a < g_pre.len() && g_pre[a] == e.0;
                    let j = choose|j: int| 0 <= j < i && (#[trigger] scan@[j]).0 == g_pre[a];
                    assert(scan@[j].0 == scan@[i as int].0);
                    assert(false);
                }
            }
            cur_g.push(e.0);
        } else if e.1 == WORKLOAD_AI {
            proof {
                if a_pre.contains(e.0) {
                    let a = choose|a: int| 0 <= a < a_pre.len() && a_pre[a] == e.0;
                    let j = choose|j: int| 0 <= j < i && (#[trigger] scan@[j]).0 == a_pre[a];
                    assert(scan@[j].0 == scan@[i as int].0);
                    assert(false);
                }
            }
            cur_a.push(e.0);
        }
        proof {
            let sub1 = scan@.subrange(0, i + 1);
            assert(sub1 =~= scan@.subrange(0, i as int).push(scan@[i as int]));
            assert forall|p: u32| cur_g@.contains(p) implies listed_pair(
                sub1,
                p,
                WORKLOAD_GAMING,
            ) by {
                if g_pre.contains(p) {
                    let t = choose|t: int|
                        0 <= t < scan@.subrange(0, i as int).len() && #[trigger] scan@.subrange(
                            0,
                            i as int,
                        )[t] == (p, WORKLOAD_GAMING);
                    assert(sub1[t] == (p, WORKLOAD_GAMING));
                } else {
                    assert(cur_g@[cur_g@.len() - 1] == p);
                    assert(sub1[i as int] == (p, WORKLOAD_GAMING));
                }
            }
            assert forall|p: u32|
                listed_pair(sub1, p, WORKLOAD_GAMING) implies cur_g@.contains(p) by {
                let t = choose|t: int| 0 <= t < sub1.len() && #[trigger] sub1[t] == (
                    p,
                    WORKLOAD_GAMING,
                );
                if t < i as int {
                    assert(scan@.subrange(0, i as int)[t] == (p, WORKLOAD_GAMING));
                    assert(g_pre.contains(p));
                    let a = choose|a: int| 0 <= a < g_pre.len() && g_pre[a] == p;
                    assert(cur_g@[a] == p);
                } else {
                    assert(cur_g@[cur_g@.len() - 1] == p);
                }
            }
            assert forall|p: u32| cur_a@.contains(p) implies listed_pair(sub1, p, WORKLOAD_AI) by {
                if a_pre.contains(p) {
                    let t = choose|t: int|
                        0 <= t < scan@.subrange(0, i as int).len() && #[trigger] scan@.subrange(
                            0,
                            i as int,
                        )[t] == (p, WORKLOAD_AI);
                    assert(sub1[t] == (p, WORKLOAD_AI));
                } else {
                    assert(cur_a@[cur_a@.len() - 1] == p);
                    assert(sub1[i as int] == (p, WORKLOAD_AI));
                }
            }
            assert forall|p: u32| listed_pair(sub1, p, WORKLOAD_AI) implies cur_a@.contains(p) by {
                let t = choose|t: int| 0 <= t < sub1.len() && #[trigger] sub1[t] == (
                    p,
                    WORKLOAD_AI,
                );
                if t < i as int {
                    assert(scan@.subrange(0, i as int)[t] == (p, WORKLOAD_AI));
                    assert(a_pre.contains(p));
                    let a = choose|a: int| 0 <= a < a_pre.len() && a_pre[a] == p;
                    assert(cur_a@[a] == p);
                } else {
                    assert(cur_a@[cur_a@.len() - 1] == p);
                }
            }
        }
        i = i + 1;
    }
    proof {
        assert(scan@.subrange(0, n as int) =~= scan@);
        assert forall|p: u32| cur_g@.contains(p) implies !cur_a@.contains(p) by {
            if cur_a@.contains(p) {
                let t1 = choose|t1: int| 0 <= t1 < scan@.len() && #[trigger] scan@[t1] == (
                    p,
                    WORKLOAD_GAMING,
                );
                let t2 = choose|t2: int| 0 <= t2 < scan@.len() && #[trigger] scan@[t2] == (
                    p,
                    WORKLOAD_AI,
                );
                assert(scan@[t1].0 == scan@[t2].0 && t1 != t2);
                assert(false);
            }
        }
    }
    (cur_g, cur_a)
}

/// The PIDs of `cur` that are not in `known`, each paired with `class`.
fn missing_pairs(cur: &Vec<u32>, known: &Vec<u32>, class: u32) -> (out: Vec<(u32, u32)>)
    requires
        forall|a: int, b: int| 0 <= a < b < cur@.len() ==> cur@[a] != cur@[b],
    ensures
        forall|t: int| #![trigger out@[t]]
            0 <= t < out@.len() ==> out@[t].1 == class && cur@.contains(out@[t].0)
                && !known@.contains(out@[t].0),
        forall|p: u32| cur@.contains(p) && !known@.contains(p) ==> listed_pair(out@, p, class),
        forall|a: int, b: int| 0 <= a < b < out@.len() ==> (#[trigger] out@[a]).0 != (
        #[trigger] out@[b]).0,
{
    let n: usize = cur.len();
    let mut out: Vec<(u32, u32)> = Vec::new();
    let mut i: usize = 0;
    while i < n
        invariant
            0 <= i <= n,
            n == cur@.len(),
            forall|a: int, b: int| 0 <= a < b < cur@.len() ==> cur@[a] != cur@[b],
            forall|t: int| #![trigger out@[t]]
                0 <= t < out@.len() ==> out@[t].1 == class && cur@.contains(out@[t].0)
                    && !known@.contains(out@[t].0),
            forall|j: int| #![trigger cur@[j]]
                0 <= j < i && !known@.contains(cur@[j]) ==> listed_pair(out@, cur@[j], class),
            forall|a: int, b: int| 0 <= a < b < out@.len() ==> (#[trigger] out@[a]).0 != (
            #[trigger] out@[b]).0,
            forall|t: int| #![trigger out@[t]]
                0 <= t < out@.len() ==> exists|j: int|
                    0 <= j < i && (#[trigger] cur@[j]) == out@[t].0,
        decreases n - i,
    {
        let ghost out_pre = out@;
        let p = cur[i];
        if !pid_in(known, p) {
            proof {
                assert forall|t: int| 0 <= t < out_pre.len() implies (#[trigger] out_pre[t]).0
                    != p by {
                    let j = choose|j: int| 0 <= j < i && (#[trigger] cur@[j]) == out_pre[t].0;
                    if out_pre[t].0 == p {
                        assert(cur@[j] == cur@[i as int] && j < i as int);
                        assert(false);
                    }
                }
            }
            out.push((p, class));
            assert(cur@[i as int] == out@[out@.len() - 1].0);
        }
        proof {
            assert(cur@.contains(cur@[i as int]));
            assert forall|j: int| #![trigger cur@[j]]
                0 <= j < i + 1 && !known@.contains(cur@[j]) implies listed_pair(
                out@,
                cur@[j],
                class,
            ) by {
                if j < i as int {
                    let t = choose|t: int| 0 <= t < out_pre.len() && #[trigger] out_pre[t] == (
                        cur@[j],
                        class,
                    );
                    assert(out@[t] == (cur@[j], class));
                } else {
                    assert(out@[out@.len() - 1] == (cur@[j], class));
                }
            }
        }
        i = i + 1;
    }
    proof {
        assert forall|p: u32| cur@.contains(p) && !known@.contains(p) implies listed_pair(
            out@,
            p,
            class,
        ) by {
            let j = choose|j: int| 0 <= j < cur@.len() && cur@[j] == p;
        }
    }
    out
}

/// The PIDs of `known` that are not in `cur`.
fn departed_pids(known: &Vec<u32>, cur: &Vec<u32>) -> (out: Vec<u32>)
    ensures
        forall|t: int| #![trigger out@[t]]
            0 <= t < out@.len() ==> known@.contains(out@[t]) && !cur@.contains(out@[t]),
        forall|p: u32| known@.contains(p) && !cur@.contains(p) ==> out@.contains(p),
{
    let n: usize = known.len();
    let mut out: Vec<u32> = Vec::new();
    let mut i: usize = 0;
    while i < n
        invariant
            0 <= i <= n,
            n == known@.len(),
            forall|t: int| #![trigger out@[t]]
                0 <= t < out@.len() ==> known@.contains(out@[t]) && !cur@.contains(out@[t]),
            forall|j: int| #![trigger known@[j]]
                0 <= j < i && !cur@.contains(known@[j]) ==> out@.contains(known@[j]),
        decreases n - i,
    {
        let ghost out_pre = out@;
        let p = known[i];
        if !pid_in(cur, p) {
            out.push(p);
            assert(known@[i as int] == out@[out@.len() - 1]);
        }
        proof {
            assert(known@.contains(known@[i as int]));
            assert forall|j: int| #![trigger known@[j]]
                0 <= j < i + 1 && !cur@.contains(known@[j]) implies out@.contains(known@[j]) by {
                if j < i as int {
                    let t = choose|t: int| 0 <= t < out_pre.len() && out_pre[t] == known@[j];
                    assert(out@[t] == known@[j]);
                } else {
                    assert(out@[out@.len() - 1] == known@[j]);
                }
            }
        }
        i = i + 1;
    }
    proof {
        assert forall|p: u32| known@.contains(p) && !cur@.contains(p) implies out@.contains(p) by {
            let j = choose|j: int| 0 <= j < known@.len() && known@[j] == p;
        }
    }
    out
}

/// Append `more` to `base`.
fn extend_pairs(base: &mut Vec<(u32, u32)>, more: Vec<(u32, u32)>)
    ensures
        final(base)@ == old(base)@ + more@,
{
    let n: usize = more.len();
    let mut i: usize = 0;
    while i < n
        invariant
            0 <= i <= n,
            n == more@.len(),
            base@ == old(base)@ + more@.subrange(0, i as int),
        decreases n - i,
    {
        base.push(more[i]);
        proof {
            assert(base@ =~= old(base)@ + more@.subrange(0, i + 1));
        }
        i = i + 1;
    }
    proof {
        assert(more@.subrange(0, n as int) =~= more@);
    }
}

/// Append `more` to `base`.
fn extend_pids(base: &mut Vec<u32>, more: Vec<u32>)
    ensures
        final(base)@ == old(base)@ + more@,
{
    let n: usize = more.len();
    let mut i: usize = 0;
    while i < n
        invariant
            0 <= i <= n,
            n == more@.len(),
            base@ == old(base)@ + more@.subrange(0, i as int),
        decreases n - i,
    {
        base.push(more[i]);
        proof {
            assert(base@ =~= old(base)@ + more@.subrange(0, i + 1));
        }
        i = i + 1;
    }
    proof {
        assert(more@.subrange(0, n as int) =~= more@);
    }
}

/// Tracks the gaming and AI PIDs seen by the last scan and reports, for a
/// new scan, which PIDs appeared and which went away.
pub struct GamingDetector {
    known_gaming: Vec<u32>,
    known_ai: Vec<u32>,
}

impl GamingDetector {
    /// Each set is duplicate-free and the two are disjoint.
    pub closed spec fn wf(&self) -> bool {
        &&& forall|a: int, b: int|
            0 <= a < b < self.known_gaming@.len() ==> self.known_gaming@[a] != self.known_gaming@[b]
        &&& forall|a: int, b: int|
            0 <= a < b < self.known_ai@.len() ==> self.known_ai@[a] != self.known_ai@[b]
        &&& forall|p: u32| self.known_gaming@.contains(p) ==> !self.known_ai@.contains(p)
    }

    /// The set of gaming PIDs seen by the last scan.
    pub closed spec fn gaming_pids(&self) -> Seq<u32> {
        self.known_gaming@
    }

    /// The set of AI PIDs seen by the last scan.
    pub closed spec fn ai_pids(&self) -> Seq<u32> {
        self.known_ai@
    }

    pub fn new() -> (r: GamingDetector)
        ensures
            r.wf(),
            r.gaming_pids() == Seq::<u32>::empty(),
            r.ai_pids() == Seq::<u32>::empty(),
    {
        let r = GamingDetector { known_gaming: Vec::new(), known_ai: Vec::new() };
        proof {
            assert(r.gaming_pids() =~= Seq::<u32>::empty());
            assert(r.ai_pids() =~= Seq::<u32>::empty());
        }
        r
    }

    /// Feed a fresh scan (each PID at most once): returns the PIDs that are
    /// newly gaming or AI, with their class, and the PIDs that dropped out
    /// of their class, and adopts the scan as the current state.
    pub fn scan_changes(&mut self, scan: &Vec<(u32, u32)>) -> (r: (Vec<(u32, u32)>, Vec<u32>))
        requires
            old(self).wf(),
            forall|a: int, b: int|
                0 <= a < b < scan@.len() ==> (#[trigger] scan@[a]).0 != (#[trigger] scan@[b]).0,
        ensures
            final(self).wf(),
            forall|p: u32|
                final(self).gaming_pids().contains(p) <==> listed_pair(scan@, p, WORKLOAD_GAMING),
            forall|p: u32|
                final(self).ai_pids().contains(p) <==> listed_pair(scan@, p, WORKLOAD_AI),
            forall|t: int| #![trigger r.0@[t]]
                0 <= t < r.0@.len() ==> {
                    ||| (r.0@[t].1 == WORKLOAD_GAMING && listed_pair(
                        scan@,
                        r.0@[t].0,
                        WORKLOAD_GAMING,
                    ) && !old(self).gaming_pids().contains(r.0@[t].0))
                    ||| (r.0@[t].1 == WORKLOAD_AI && listed_pair(scan@, r.0@[t].0, WORKLOAD_AI)
                        && !old(self).ai_pids().contains(r.0@[t].0))
                },
            forall|p: u32|
                listed_pair(scan@, p, WORKLOAD_GAMING) && !old(self).gaming_pids().contains(p)
                    ==> listed_pair(r.0@, p, WORKLOAD_GAMING),
            forall|p: u32|
                listed_pair(scan@, p, WORKLOAD_AI) && !old(self).ai_pids().contains(p)
                    ==> listed_pair(r.0@, p, WORKLOAD_AI),
            forall|i: int, j: int|
                0 <= i < j < r.0@.len() ==> (#[trigger] r.0@[i]).0 != (#[trigger] r.0@[j]).0,
            forall|t: int| #![trigger r.1@[t]]
                0 <= t < r.1@.len() ==> {
                    ||| (old(self).gaming_pids().contains(r.1@[t]) && !listed_pair(
                        scan@,
                        r.1@[t],
                        WORKLOAD_GAMING,
                    ))
                    ||| (old(self).ai_pids().contains(r.1@[t]) && !listed_pair(
                        scan@,
                        r.1@[t],
                        WORKLOAD_AI,
                    ))
                },
            forall|p: u32|
                old(self).gaming_pids().contains(p) && !listed_pair(scan@, p, WORKLOAD_GAMING)
                    ==> r.1@.contains(p),
            forall|p: u32|
                old(self).ai_pids().contains(p) && !listed_pair(scan@, p, WORKLOAD_AI)
                    ==> r.1@.contains(p),
    {
        let (cur_g, cur_a) = partition_scan(scan);
        let mut added = missing_pairs(&cur_g, &self.known_gaming, WORKLOAD_GAMING);
        let added_ai = missing_pairs(&cur_a, &self.known_ai, WORKLOAD_AI);
        let ghost added_g_view = added@;
        let ghost added_ai_view = added_ai@;
        extend_pairs(&mut added, added_ai);
        let mut removed = departed_pids(&self.known_gaming, &cur_g);
        let removed_ai = departed_pids(&self.known_ai, &cur_a);
        let ghost removed_g_view = removed@;
        let ghost removed_ai_view = removed_ai@;
        extend_pids(&mut removed, removed_ai);
        proof {
            assert forall|p: u32|
                listed_pair(scan@, p, WORKLOAD_GAMING) && !old(self).gaming_pids().contains(
                    p,
                ) implies listed_pair(added@, p, WORKLOAD_GAMING) by {
                assert(cur_g@.contains(p));
                let t = choose|t: int|
                    0 <= t < added_g_view.len() && #[trigger] added_g_view[t] == (
                        p,
                        WORKLOAD_GAMING,
                    );
                assert(added@[t] == (p, WORKLOAD_GAMING));
            }
            assert forall|p: u32|
                listed_pair(scan@, p, WORKLOAD_AI) && !old(self).ai_pids().contains(
                    p,
                ) implies listed_pair(added@, p, WORKLOAD_AI) by {
                assert(cur_a@.contains(p));
                let t = choose|t: int|
                    0 <= t < added_ai_view.len() && #[trigger] added_ai_view[t] == (
                        p,
                        WORKLOAD_AI,
                    );
                assert(added@[added_g_view.len() + t] == (p, WORKLOAD_AI));
            }
            assert forall|p: u32|
                old(self).gaming_pids().contains(p) && !listed_pair(
                    scan@,
                    p,
                    WORKLOAD_GAMING,
                ) implies removed@.contains(p) by {
                assert(!cur_g@.contains(p));
                let t = choose|t: int| 0 <= t < removed_g_view.len() && removed_g_view[t] == p;
                assert(removed@[t] == p);
            }
            assert forall|p: u32|
                old(self).ai_pids().contains(p) && !listed_pair(
                    scan@,
                    p,
                    WORKLOAD_AI,
                ) implies removed@.contains(p) by {
                assert(!cur_a@.contains(p));
                let t = choose|t: int| 0 <= t < removed_ai_view.len() && removed_ai_view[t] == p;
                assert(removed@[removed_g_view.len() + t] == p);
            }
        }
        proof {
            assert forall|i: int, j: int|
                0 <= i < j < added@.len() implies (#[trigger] added@[i]).0 != (
            #[trigger] added@[j]).0 by {
                let gl = added_g_view.len() as int;
                if j < gl {
                    assert(added@[i] == added_g_view[i] && added@[j] == added_g_view[j]);
                } else if i >= gl {
                    assert(added@[i] == added_ai_view[i - gl]);
                    assert(added@[j] == added_ai_view[j - gl]);
                } else {
                    assert(added@[i] == added_g_view[i] && added@[j] == added_ai_view[j - gl]);
                    assert(cur_g@.contains(added_g_view[i].0));
                    assert(cur_a@.contains(added_ai_view[j - gl].0));
                }
            }
        }
        self.known_gaming = cur_g;
        self.known_ai = cur_a;
        (added, removed)
    }

    /// How many gaming and AI PIDs the last scan held.
    pub fn counts(&self) -> (r: (usize, usize))
        ensures
            r.0 == self.gaming_pids().len(),
            r.1 == self.ai_pids().len(),
    {
        (self.known_gaming.len(), self.known_ai.len())
    }
}

} // verus!
