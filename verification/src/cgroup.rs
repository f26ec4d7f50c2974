//! Cgroup-based workload classification: a cgroup path fragment is mapped to
//! a workload class by fixed pattern tables, and a monitor keeps the set of
//! classified cgroup ids, reporting a diff against the previous scan.

use vstd::prelude::*;

use vstd::string::StringSliceAdditionalSpecFns;

use crate::maps::ClassMap;
use crate::patterns::ai_cgroup_patterns;
use crate::patterns::ai_cgroup_pattern_vec;
use crate::patterns::batch_cgroup_patterns;
use crate::patterns::batch_cgroup_pattern_vec;
use crate::patterns::container_cgroup_patterns;
use crate::patterns::container_cgroup_pattern_vec;
use crate::patterns::gaming_cgroup_patterns;
use crate::patterns::gaming_cgroup_pattern_vec;
use crate::patterns::vm_cgroup_patterns;
use crate::patterns::vm_cgroup_pattern_vec;
use crate::text::contains_any;
use crate::text::lower_seq;
use crate::text::matches_any;
use crate::text::to_lower_bytes;
use crate::text::views_of;
use crate::workload::WORKLOAD_AI;
use crate::workload::WORKLOAD_BATCH;
use crate::workload::WORKLOAD_CONTAINER;
use crate::workload::WORKLOAD_GAMING;

verus! {

/// The class a cgroup path fragment gets. Gaming patterns win, then AI,
/// containers, VM slices (treated as batch), and system/background slices
/// (batch); anything else is left unclassified (0).
pub open spec fn spec_classify_cgroup_path(path: Seq<u8>) -> u32 {
    let lower = lower_seq(path);
    if matches_any(lower, gaming_cgroup_patterns()) {
        WORKLOAD_GAMING
    } else if matches_any(lower, ai_cgroup_patterns()) {
        WORKLOAD_AI
    } else if matches_any(lower, container_cgroup_patterns()) {
        WORKLOAD_CONTAINER
    } else if matches_any(lower, vm_cgroup_patterns()) {
        WORKLOAD_BATCH
    } else if matches_any(lower, batch_cgroup_patterns()) {
        WORKLOAD_BATCH
    } else {
        0
    }
}

/// Classify a cgroup by its path relative to the cgroup root.
pub fn classify_cgroup_path(path: &str) -> (c: u32)
    ensures
        c == spec_classify_cgroup_path(path.spec_bytes()),
{
    let lower = to_lower_bytes(path.as_bytes());
    let gaming = gaming_cgroup_pattern_vec();
    proof {
        assert(views_of(gaming@) =~= gaming_cgroup_patterns());
    }
    if contains_any(lower.as_slice(), &gaming) {
        return WORKLOAD_GAMING;
    }
    let ai = ai_cgroup_pattern_vec();
    proof {
        assert(views_of(ai@) =~= ai_cgroup_patterns());
    }
    if contains_any(lower.as_slice(), &ai) {
        return WORKLOAD_AI;
    }
    let container = container_cgroup_pattern_vec();
    proof {
        assert(views_of(container@) =~= container_cgroup_patterns());
    }
    if contains_any(lower.as_slice(), &container) {
        return WORKLOAD_CONTAINER;
    }
    let vm = vm_cgroup_pattern_vec();
    proof {
        assert(views_of(vm@) =~= vm_cgroup_patterns());
    }
    if contains_any(lower.as_slice(), &vm) {
        return WORKLOAD_BATCH;
    }
    let batch = batch_cgroup_pattern_vec();
    proof {
        assert(views_of(batch@) =~= batch_cgroup_patterns());
    }
    if contains_any(lower.as_slice(), &batch) {
        return WORKLOAD_BATCH;
    }
    0
}

/// A name that must not be descended into while walking the cgroup tree:
/// controller pseudo-entries rather than child cgroups.
pub open spec fn spec_is_pseudo_cgroup_name(name: Seq<u8>) -> bool {
    ||| crate::text::starts_with_seq(name, seq![99u8, 103u8, 114u8, 111u8, 117u8, 112u8, 46u8])
    ||| crate::text::starts_with_seq(name, seq![99u8, 112u8, 117u8, 46u8])
    ||| crate::text::starts_with_seq(name, seq![109u8, 101u8, 109u8, 111u8, 114u8, 121u8, 46u8])
    ||| crate::text::starts_with_seq(name, seq![105u8, 111u8, 46u8])
    ||| crate::text::starts_with_seq(name, seq![112u8, 105u8, 100u8, 115u8, 46u8])
}

/// Whether a directory name is a controller pseudo-entry ("cgroup.",
/// "cpu.", "memory.", "io.", "pids." prefixes) that the walk skips.
pub fn is_pseudo_cgroup_name(name: &str) -> (r: bool)
    ensures
        r == spec_is_pseudo_cgroup_name(name.spec_bytes()),
{
    let b = name.as_bytes();
    let p0: Vec<u8> = vec![99u8, 103u8, 114u8, 111u8, 117u8, 112u8, 46u8];  // cgroup.
    let p1: Vec<u8> = vec![99u8, 112u8, 117u8, 46u8];  // cpu.
    let p2: Vec<u8> = vec![109u8, 101u8, 109u8, 111u8, 114u8, 121u8, 46u8];  // memory.
    let p3: Vec<u8> = vec![105u8, 111u8, 46u8];  // io.
    let p4: Vec<u8> = vec![112u8, 105u8, 100u8, 115u8, 46u8];  // pids.
    crate::text::starts_with_bytes(b, p0.as_slice()) || crate::text::starts_with_bytes(
        b,
        p1.as_slice(),
    ) || crate::text::starts_with_bytes(b, p2.as_slice()) || crate::text::starts_with_bytes(
        b,
        p3.as_slice(),
    ) || crate::text::starts_with_bytes(b, p4.as_slice())
}

/// A classified cgroup.
pub struct CgroupInfo {
    /// Path relative to the cgroup root.
    pub path: String,
    /// Kernel cgroup id (directory inode on fallback).
    pub id: u64,
    /// Workload class, one of the `WORKLOAD_` values; never 0 here.
    pub workload_class: u32,
}

/// Classify a scanned cgroup tree: keep the entries that get a class.
/// The caller walks the hierarchy and hands in each directory's relative
/// path with its cgroup id.
pub fn scan_cgroups(entries: Vec<(String, u64)>) -> (r: Vec<CgroupInfo>)
    ensures
        forall|i: int|
            0 <= i < r@.len() ==> {
                &&& (#[trigger] r@[i]).workload_class == spec_classify_cgroup_path(
                    crate::text::string_bytes(r@[i].path@),
                )
                &&& r@[i].workload_class != 0
            },
{
    let n: usize = entries.len();
    let mut out: Vec<CgroupInfo> = Vec::new();
    let mut i: usize = 0;
    while i < n
        invariant
            0 <= i <= n,
            n == entries@.len(),
            forall|j: int|
                0 <= j < out@.len() ==> {
                    &&& (#[trigger] out@[j]).workload_class == spec_classify_cgroup_path(
                        crate::text::string_bytes(out@[j].path@),
                    )
                    &&& out@[j].workload_class != 0
                },
        decreases n - i,
    {
        let e: &(String, u64) = &entries[i];
        let path: String = e.0.clone();
        let id: u64 = e.1;
        let class = classify_cgroup_path(path.as_str());
        if class > 0 {
            out.push(CgroupInfo { path, id, workload_class: class });
        }
        i = i + 1;
    }
    out
}

/// The pairs (cgroup id, class) of a scan.
pub open spec fn scan_pairs(s: Seq<CgroupInfo>) -> Seq<(u64, u32)> {
    s.map_values(|c: CgroupInfo| (c.id, c.workload_class))
}

/// The scan holds an entry with this cgroup id.
pub open spec fn scan_has_key(s: Seq<CgroupInfo>, id: u64) -> bool {
    exists|j: int| 0 <= j < s.len() && (#[trigger] s[j]).id == id
}

/// The scan holds an entry with this cgroup id and class.
pub open spec fn scan_has(s: Seq<CgroupInfo>, id: u64, class: u32) -> bool {
    exists|j: int| 0 <= j < s.len() && (#[trigger] s[j]).id == id && s[j].workload_class == class
}

/// Field-for-field copy of a classified cgroup.
fn copy_info(e: &CgroupInfo) -> (r: CgroupInfo)
    ensures
        r.path@ == e.path@,
        r.id == e.id,
        r.workload_class == e.workload_class,
{
    CgroupInfo { path: e.path.clone(), id: e.id, workload_class: e.workload_class }
}

/// Whether a scan holds an entry for cgroup id `k`.
fn scan_find(s: &Vec<CgroupInfo>, k: u64) -> (r: bool)
    ensures
        r == scan_has_key(s@, k),
{
    let n: usize = s.len();
    let mut i: usize = 0;
    while i < n
        invariant
            0 <= i <= n,
            n == s@.len(),
            forall|j: int| 0 <= j < i ==> (#[trigger] s@[j]).id != k,
        decreases n - i,
    {
        if s[i].id == k {
            return true;
        }
        i = i + 1;
    }
    false
}

/// On a scan without repeated ids, having a key is the same for the scan
/// and for the map it denotes, and the value is the entry's class.
pub proof fn lemma_scan_map_agree(s: Seq<CgroupInfo>, id: u64, class: u32)
    requires
        crate::maps::entries_wf(scan_pairs(s)),
    ensures
        scan_has_key(s, id) == crate::maps::map_of(scan_pairs(s)).contains_key(id),
        scan_has(s, id, class) && crate::maps::entries_wf(scan_pairs(s)) ==> crate::maps::map_of(
            scan_pairs(s),
        )[id] == class,
{
    let pairs = scan_pairs(s);
    let m = crate::maps::map_of(pairs);
    if scan_has_key(s, id) {
        let j = choose|j: int| 0 <= j < s.len() && (#[trigger] s[j]).id == id;
        assert(pairs[j].0 == id);
        assert(m.contains_key(id));
    }
    if m.contains_key(id) {
        let j = choose|j: int| 0 <= j < pairs.len() && (#[trigger] pairs[j]).0 == id;
        assert(s[j].id == id);
        assert(scan_has_key(s, id));
    }
    if scan_has(s, id, class) {
        let j = choose|j: int|
            0 <= j < s.len() && (#[trigger] s[j]).id == id && s[j].workload_class == class;
        assert(pairs[j].0 == id);
        let j2 = choose|j2: int| 0 <= j2 < pairs.len() && (#[trigger] pairs[j2]).0 == id;
        assert(pairs[j2].0 == pairs[j].0);
        assert(j2 == j);
        assert(m[id] == pairs[j].1);
    }
}

/// Tracks the classified cgroups between scans, keyed by cgroup id.
pub struct CgroupMonitor {
    classifications: ClassMap,
}

impl CgroupMonitor {
    pub closed spec fn wf(&self) -> bool {
        self.classifications.wf()
    }

    /// The map of cgroup id to class this monitor has seen last.
    pub closed spec fn view(&self) -> Map<u64, u32> {
        self.classifications@
    }

    /// Start from one initial scan.
    pub fn new(scan: &Vec<CgroupInfo>) -> (r: CgroupMonitor)
        requires
            crate::maps::entries_wf(scan_pairs(scan@)),
        ensures
            r.wf(),
            r@ == crate::maps::map_of(scan_pairs(scan@)),
    {
        let mut m = CgroupMonitor { classifications: ClassMap::new() };
        m.reset_to(scan);
        m
    }

    /// Replace the state with the given scan.
    fn reset_to(&mut self, scan: &Vec<CgroupInfo>)
        requires
            crate::maps::entries_wf(scan_pairs(scan@)),
        ensures
            final(self).wf(),
            final(self)@ == crate::maps::map_of(scan_pairs(scan@)),
    {
        let ghost pairs = scan_pairs(scan@);
        let mut m = ClassMap::new();
        let n: usize = scan.len();
        let mut i: usize = 0;
        proof {
            assert(m@ =~= crate::maps::map_of(pairs.take(0)));
        }
        while i < n
            invariant
                0 <= i <= n,
                n == scan@.len(),
                pairs == scan_pairs(scan@),
                crate::maps::entries_wf(pairs),
                m.wf(),
                m@ == crate::maps::map_of(pairs.take(i as int)),
            decreases n - i,
        {
            let e: &CgroupInfo = &scan[i];
            m.upsert(e.id, e.workload_class);
            proof {
                assert(pairs.take(i + 1) =~= pairs.take(i as int).push(pairs[i as int]));
                crate::maps::lemma_map_of_push(pairs.take(i as int), pairs[i as int]);
            }
            i = i + 1;
        }
        proof {
            assert(pairs.take(n as int) =~= pairs);
        }
        self.classifications = m;
    }

    /// Cgroups of the scan whose id this monitor has not seen.
    fn collect_added(&self, current: &Vec<CgroupInfo>) -> (added: Vec<CgroupInfo>)
        requires
            self.wf(),
        ensures
            forall|t: int| #![trigger added@[t]]
                0 <= t < added@.len() ==> !self@.contains_key(added@[t].id) && scan_has(
                    current@,
                    added@[t].id,
                    added@[t].workload_class,
                ),
            forall|j: int| #![trigger current@[j]]
                0 <= j < current@.len() && !self@.contains_key(current@[j].id) ==> scan_has_key(
                    added@,
                    current@[j].id,
                ),
    {
        let mut added: Vec<CgroupInfo> = Vec::new();
        let n: usize = current.len();
        let mut i: usize = 0;
        while i < n
            invariant
                0 <= i <= n,
                n == current@.len(),
                self.wf(),
                forall|t: int| #![trigger added@[t]]
                    0 <= t < added@.len() ==> !self@.contains_key(added@[t].id) && scan_has(
                        current@,
                        added@[t].id,
                        added@[t].workload_class,
                    ),
                forall|j: int| #![trigger current@[j]]
                    0 <= j < i && !self@.contains_key(current@[j].id) ==> scan_has_key(
                        added@,
                        current@[j].id,
                    ),
            decreases n - i,
        {
            let ghost added_pre = added@;
            let e: &CgroupInfo = &current[i];
            if self.classifications.lookup(e.id).is_none() {
                let c = copy_info(e);
                added.push(c);
                assert(current@[i as int].id == added@[added@.len() - 1].id);
            }
            proof {
                assert forall|j: int| #![trigger current@[j]]
                    0 <= j < i + 1 && !self@.contains_key(current@[j].id) implies scan_has_key(
                    added@,
                    current@[j].id,
                ) by {
                    if j == i as int {
                        assert(added@[added@.len() - 1].id == current@[j].id);
                    } else {
                        let tt = choose|tt: int|
                            0 <= tt < added_pre.len() && (#[trigger] added_pre[tt]).id
                                == current@[j].id;
                        assert(added@[tt].id == current@[j].id);
                    }
                }
            }
            i = i + 1;
        }
        added
    }

    /// Previously seen cgroup ids that the scan no longer holds, each once.
    fn collect_removed(&self, current: &Vec<CgroupInfo>) -> (removed: Vec<u64>)
        requires
            self.wf(),
        ensures
            forall|a: int| #![trigger removed@[a]]
                0 <= a < removed@.len() ==> self@.contains_key(removed@[a]) && !scan_has_key(
                    current@,
                    removed@[a],
                ),
            forall|k: u64|
                self@.contains_key(k) && !scan_has_key(current@, k) ==> removed@.contains(k),
            forall|a: int, b: int| 0 <= a < b < removed@.len() ==> removed@[a] != removed@[b],
    {
        let ghost pre = self@;
        let olds = self.classifications.entries_vec();
        let mut removed: Vec<u64> = Vec::new();
        let m: usize = olds.len();
        let mut t: usize = 0;
        while t < m
            invariant
                0 <= t <= m,
                m == olds@.len(),
                pre == self@,
                forall|a: int, b: int|
                    0 <= a < b < olds@.len() ==> (#[trigger] olds@[a]).0 != (#[trigger] olds@[b]).0,
                forall|a: int| 0 <= a < olds@.len() ==> pre.contains_key((#[trigger] olds@[a]).0),
                forall|k: u64| #[trigger] pre.contains_key(k) ==> exists|a: int|
                    0 <= a < olds@.len() && (#[trigger] olds@[a]).0 == k,
                forall|a: int| #![trigger removed@[a]]
                    0 <= a < removed@.len() ==> pre.contains_key(removed@[a]) && !scan_has_key(
                        current@,
                        removed@[a],
                    ),
                forall|a: int| #![trigger olds@[a]]
                    0 <= a < t && !scan_has_key(current@, olds@[a].0) ==> removed@.contains(
                        olds@[a].0,
                    ),
                forall|a: int, b: int| 0 <= a < b < removed@.len() ==> removed@[a] != removed@[b],
                forall|a: int| #![trigger removed@[a]]
                    0 <= a < removed@.len() ==> exists|b: int|
                        0 <= b < t && (#[trigger] olds@[b]).0 == removed@[a],
            decreases m - t,
        {
            let ghost removed_pre = removed@;
            let k = olds[t].0;
            if !scan_find(current, k) {
                proof {
                    if removed@.contains(k) {
                        let a = choose|a: int| 0 <= a < removed@.len() && removed@[a] == k;
                        let b = choose|b: int| 0 <= b < t && (#[trigger] olds@[b]).0 == removed@[a];
                        assert(olds@[b].0 == olds@[t as int].0 && b < t as int);
                        assert(false);
                    }
                }
                removed.push(k);
            }
            proof {
                assert forall|a: int| #![trigger olds@[a]]
                    0 <= a < t + 1 && !scan_has_key(current@, olds@[a].0) implies removed@.contains(
                    olds@[a].0,
                ) by {
                    if a == t as int {
                        assert(removed@[removed@.len() - 1] == olds@[a].0);
                    } else {
                        let w = choose|w: int|
                            0 <= w < removed_pre.len() && removed_pre[w] == olds@[a].0;
                        assert(removed@[w] == olds@[a].0);
                    }
                }
                assert forall|a: int| #![trigger removed@[a]]
                    0 <= a < removed@.len() implies exists|b: int|
                    0 <= b < t + 1 && (#[trigger] olds@[b]).0 == removed@[a] by {
                    if a < removed_pre.len() {
                        let b = choose|b: int|
                            0 <= b < t && (#[trigger] olds@[b]).0 == removed_pre[a];
                        assert(removed@[a] == removed_pre[a]);
                        assert(olds@[b].0 == removed@[a]);
                    } else {
                        assert(olds@[t as int].0 == removed@[a]);
                    }
                }
            }
            t = t + 1;
        }
        proof {
            assert forall|k: u64|
                pre.contains_key(k) && !scan_has_key(current@, k) implies removed@.contains(k) by {
                let a = choose|a: int| 0 <= a < olds@.len() && (#[trigger] olds@[a]).0 == k;
            }
        }
        removed
    }

    /// Take a fresh scan: report the cgroups whose id is new and the ids
    /// that went away, and adopt the scan as the current state.
    pub fn rescan(&mut self, current: &Vec<CgroupInfo>) -> (r: (Vec<CgroupInfo>, Vec<u64>))
        requires
            old(self).wf(),
            crate::maps::entries_wf(scan_pairs(current@)),
        ensures
            final(self).wf(),
            final(self)@ == crate::maps::map_of(scan_pairs(current@)),
            forall|i: int| #![trigger r.0@[i]]
                0 <= i < r.0@.len() ==> {
                    &&& !old(self)@.contains_key(r.0@[i].id)
                    &&& final(self)@.contains_key(r.0@[i].id)
                    &&& final(self)@[r.0@[i].id] == r.0@[i].workload_class
                },
            forall|j: int| #![trigger current@[j]]
                0 <= j < current@.len() && !old(self)@.contains_key(current@[j].id)
                    ==> scan_has_key(r.0@, current@[j].id),
            forall|i: int| #![trigger r.1@[i]]
                0 <= i < r.1@.len() ==> old(self)@.contains_key(r.1@[i])
                    && !final(self)@.contains_key(r.1@[i]),
            forall|k: u64|
                old(self)@.contains_key(k) && !final(self)@.contains_key(k) ==> r.1@.contains(k),
            forall|i: int, j: int| 0 <= i < j < r.1@.len() ==> r.1@[i] != r.1@[j],
    {
        let added = self.collect_added(current);
        let removed = self.collect_removed(current);
        self.reset_to(current);
        proof {
            assert forall|ti: int| #![trigger added@[ti]]
                0 <= ti < added@.len() implies final(self)@.contains_key(added@[ti].id)
                && final(self)@[added@[ti].id] == added@[ti].workload_class by {
                lemma_scan_map_agree(current@, added@[ti].id, added@[ti].workload_class);
            }
            assert forall|i: int| #![trigger removed@[i]]
                0 <= i < removed@.len() implies !final(self)@.contains_key(removed@[i]) by {
                lemma_scan_map_agree(current@, removed@[i], 0);
            }
            assert forall|k: u64|
                old(self)@.contains_key(k) && !final(self)@.contains_key(
                    k,
                ) implies removed@.contains(k) by {
                lemma_scan_map_agree(current@, k, 0);
            }
        }
        (added, removed)
    }

    /// All current classifications, one record per cgroup id.
    pub fn get_classifications(&self) -> (r: Vec<(u64, u32)>)
        requires
            self.wf(),
        ensures
            forall|i: int, j: int|
                0 <= i < j < r@.len() ==> (#[trigger] r@[i]).0 != (#[trigger] r@[j]).0,
            forall|i: int|
                0 <= i < r@.len() ==> self@.contains_key((#[trigger] r@[i]).0) && self@[r@[i].0]
                    == r@[i].1,
            forall|k: u64| #[trigger] self@.contains_key(k) ==> exists|i: int|
                0 <= i < r@.len() && (#[trigger] r@[i]).0 == k,
    {
        self.classifications.entries_vec()
    }

    /// Number of classified cgroups.
    pub fn classified_count(&self) -> (r: usize)
        requires
            self.wf(),
        ensures
            r == self@.dom().len(),
    {
        self.classifications.len()
    }

    /// Number of cgroups classified with the given class.
    fn count_class(&self, class: u32) -> (r: usize)
        requires
            self.wf(),
        ensures
            r == self@.dom().filter(|k: u64| self@[k] == class).len(),
    {
        self.classifications.count_value(class)
    }

    /// Number of gaming cgroups.
    pub fn gaming_count(&self) -> (r: usize)
        requires
            self.wf(),
        ensures
            r == self@.dom().filter(|k: u64| self@[k] == WORKLOAD_GAMING).len(),
    {
        self.count_class(WORKLOAD_GAMING)
    }

    /// Number of container cgroups.
    pub fn container_count(&self) -> (r: usize)
        requires
            self.wf(),
        ensures
            r == self@.dom().filter(|k: u64| self@[k] == WORKLOAD_CONTAINER).len(),
    {
        self.count_class(WORKLOAD_CONTAINER)
    }

    /// Number of AI cgroups.
    pub fn ai_count(&self) -> (r: usize)
        requires
            self.wf(),
        ensures
            r == self@.dom().filter(|k: u64| self@[k] == WORKLOAD_AI).len(),
    {
        self.count_class(WORKLOAD_AI)
    }
}

} // verus!
