//! Preferred-core rankings and per-CPU energy/performance preference
//! hints: the startup snapshot, change-tracked writes, and the restore
//! plan that puts every CPU back to its startup value.

use vstd::prelude::*;

use vstd::string::StringExecFns;
use vstd::string::StringSliceAdditionalSpecFns;

use crate::text::string_bytes;
use crate::text::trim_seq;
use crate::textnum::all_digits;
use crate::textnum::dec_value;

verus! {

/// Preferred-core ranking information.
pub struct PrefcoreInfo {
    /// Whether the preferred-core ranking is enabled system-wide.
    pub enabled: bool,
    /// Per-CPU rankings (higher is preferred).
    pub rankings: Vec<u32>,
    /// Highest ranking value found.
    pub max_ranking: u32,
    /// CPUs that carry the highest ranking.
    pub preferred_cpus: Vec<u32>,
}

impl PrefcoreInfo {
    /// The inert value: ranking disabled, all rankings zero.
    pub fn new(nr_cpus: u32) -> (r: PrefcoreInfo)
        ensures
            !r.enabled,
            r.rankings@.len() == nr_cpus,
            forall|i: int| 0 <= i < nr_cpus ==> #[trigger] r.rankings@[i] == 0,
            r.max_ranking == 0,
            r.preferred_cpus@.len() == 0,
    {
        let mut rankings: Vec<u32> = Vec::new();
        let mut i: u32 = 0;
        while i < nr_cpus
            invariant
                0 <= i <= nr_cpus,
                rankings@.len() == i,
                forall|j: int| 0 <= j < i ==> #[trigger] rankings@[j] == 0,
            decreases nr_cpus - i,
        {
            rankings.push(0);
            i = i + 1;
        }
        PrefcoreInfo { enabled: false, rankings, max_ranking: 0, preferred_cpus: Vec::new() }
    }
}

/// The bytes "enabled".
pub open spec fn enabled_word() -> Seq<u8> {
    seq![101u8, 110u8, 97u8, 98u8, 108u8, 101u8, 100u8]
}

/// The ranking a per-CPU ranking file denotes: its trimmed decimal value,
/// zero when missing or malformed.
pub open spec fn spec_ranking_of(s: Option<Seq<u8>>) -> u32 {
    match s {
        Some(raw) => {
            let t = trim_seq(raw);
            if t.len() > 0 && all_digits(t) && dec_value(t) <= u32::MAX {
                dec_value(t) as u32
            } else {
                0u32
            }
        },
        None => 0u32,
    }
}

/// The highest ranking among the first `upto` CPUs.
pub open spec fn max_rank_upto(ranks: Seq<u32>, upto: int) -> u32
    decreases upto,
{
    if upto <= 0 {
        0u32
    } else if ranks[upto - 1] > max_rank_upto(ranks, upto - 1) {
        ranks[upto - 1]
    } else {
        max_rank_upto(ranks, upto - 1)
    }
}

/// The CPUs among the first `upto` whose ranking equals `max`, ascending.
pub open spec fn preferred_upto(ranks: Seq<u32>, max: u32, upto: int) -> Seq<u32>
    decreases upto,
{
    if upto <= 0 {
        Seq::<u32>::empty()
    } else if ranks[upto - 1] == max {
        preferred_upto(ranks, max, upto - 1).push((upto - 1) as u32)
    } else {
        preferred_upto(ranks, max, upto - 1)
    }
}

/// Read the preferred-core state from the status file's text and the
/// per-CPU ranking file texts. When the feature is off the result is
/// inert.
pub fn detect_prefcore(nr_cpus: u32, status: Option<&str>, rankings_raw: &Vec<Option<String>>) -> (
    r: PrefcoreInfo)
    ensures
        r.enabled == (match status {
            Some(s) => trim_seq(s.spec_bytes()) == enabled_word(),
            None => false,
        }),
        !r.enabled ==> r.max_ranking == 0 && r.preferred_cpus@.len() == 0,
        r.rankings@.len() == nr_cpus,
        r.enabled ==> {
            &&& forall|i: int| #![trigger r.rankings@[i]]
                0 <= i < nr_cpus ==> r.rankings@[i] == spec_ranking_of(
                    if 0 <= i < rankings_raw@.len() && rankings_raw@[i] is Some {
                        Some(string_bytes(rankings_raw@[i]->0@))
                    } else {
                        None
                    },
                )
            &&& r.max_ranking == max_rank_upto(r.rankings@, nr_cpus as int)
            &&& (r.max_ranking > 0 ==> r.preferred_cpus@ == preferred_upto(
                r.rankings@,
                r.max_ranking,
                nr_cpus as int,
            ))
            &&& (r.max_ranking == 0 ==> r.preferred_cpus@.len() == 0)
        },
{
    let enabled: bool = match status {
        Some(s) => {
            let t = crate::text::trim_exact(s.as_bytes());
            let word: Vec<u8> = vec![101u8, 110u8, 97u8, 98u8, 108u8, 101u8, 100u8];  // enabled
            proof {
                assert(word@ =~= enabled_word());
            }
            crate::text::eq_bytes(t.as_slice(), word.as_slice())
        },
        None => false,
    };
    if !enabled {
        return PrefcoreInfo::new(nr_cpus);
    }
    let mut rankings: Vec<u32> = Vec::new();
    let mut max_ranking: u32 = 0;
    let mut cpu: u32 = 0;
    while cpu < nr_cpus
        invariant
            0 <= cpu <= nr_cpus,
            rankings@.len() == cpu,
            forall|i: int| #![trigger rankings@[i]]
                0 <= i < cpu ==> rankings@[i] == spec_ranking_of(
                    if 0 <= i < rankings_raw@.len() && rankings_raw@[i] is Some {
                        Some(string_bytes(rankings_raw@[i]->0@))
                    } else {
                        None
                    },
                ),
            max_ranking == max_rank_upto(rankings@, cpu as int),
        decreases nr_cpus - cpu,
    {
        let ghost ranks_pre = rankings@;
        let idx = cpu as usize;
        let rank: u32 = if idx < rankings_raw.len() {
            match &rankings_raw[idx] {
                Some(content) => {
                    let t = crate::text::trim_exact(content.as_str().as_bytes());
                    match crate::textnum::parse_u32(t.as_slice()) {
                        Some(v) => v,
                        None => 0,
                    }
                },
                None => 0,
            }
        } else {
            0
        };
        rankings.push(rank);
        if rank > max_ranking {
            max_ranking = rank;
        }
        proof {
            assert forall|j: int| 0 <= j <= cpu implies max_rank_upto(rankings@, j) == max_rank_upto(
                ranks_pre,
                j,
            ) by {
                lemma_max_rank_prefix(ranks_pre, rankings@, j);
            }
        }
        cpu = cpu + 1;
    }
    let mut preferred_cpus: Vec<u32> = Vec::new();
    if max_ranking > 0 {
        let mut cpu2: u32 = 0;
        while cpu2 < nr_cpus
            invariant
                0 <= cpu2 <= nr_cpus,
                nr_cpus == rankings@.len(),
                preferred_cpus@ == preferred_upto(rankings@, max_ranking, cpu2 as int),
            decreases nr_cpus - cpu2,
        {
            if rankings[cpu2 as usize] == max_ranking {
                preferred_cpus.push(cpu2);
            }
            cpu2 = cpu2 + 1;
        }
    }
    PrefcoreInfo { enabled: true, rankings, max_ranking, preferred_cpus }
}

/// The running maximum only reads the prefix, so an extension leaves it.
proof fn lemma_max_rank_prefix(a: Seq<u32>, b: Seq<u32>, upto: int)
    requires
        upto <= a.len(),
        a.len() <= b.len(),
        forall|i: int| 0 <= i < a.len() ==> a[i] == b[i],
    ensures
        max_rank_upto(a, upto) == max_rank_upto(b, upto),
    decreases upto,
{
    if upto > 0 {
        lemma_max_rank_prefix(a, b, upto - 1);
    }
}

/// Tracks per-CPU EPP values: the startup snapshot, the mirror of what
/// stands written now, and whether anything was changed.
pub struct EppManager {
    original_epp: Vec<Option<String>>,
    current_epp: Vec<Option<String>>,
    modified: bool,
}

impl EppManager {
    /// The startup snapshot, one slot per CPU.
    pub closed spec fn originals(&self) -> Seq<Option<String>> {
        self.original_epp@
    }

    /// The mirror of the values written now.
    pub closed spec fn currents(&self) -> Seq<Option<String>> {
        self.current_epp@
    }

    /// Whether any EPP value was changed since startup.
    pub closed spec fn is_modified(&self) -> bool {
        self.modified
    }

    /// A manager for `nr_cpus` CPUs with nothing snapshotted yet.
    pub fn new(nr_cpus: u32) -> (r: EppManager)
        ensures
            r.originals().len() == nr_cpus,
            r.currents().len() == nr_cpus,
            forall|i: int| 0 <= i < nr_cpus ==> (#[trigger] r.originals()[i]) is None,
            forall|i: int| 0 <= i < nr_cpus ==> (#[trigger] r.currents()[i]) is None,
            !r.is_modified(),
    {
        let mut original_epp: Vec<Option<String>> = Vec::new();
        let mut current_epp: Vec<Option<String>> = Vec::new();
        let mut i: u32 = 0;
        while i < nr_cpus
            invariant
                0 <= i <= nr_cpus,
                original_epp@.len() == i,
                current_epp@.len() == i,
                forall|j: int| 0 <= j < i ==> (#[trigger] original_epp@[j]) is None,
                forall|j: int| 0 <= j < i ==> (#[trigger] current_epp@[j]) is None,
            decreases nr_cpus - i,
        {
            original_epp.push(None);
            current_epp.push(None);
            i = i + 1;
        }
        EppManager { original_epp, current_epp, modified: false }
    }

    /// Snapshot the values read at startup: slot `i` takes `values[i]`
    /// where one was read.
    pub fn save_original(&mut self, values: &Vec<Option<String>>)
        ensures
            final(self).originals().len() == old(self).originals().len(),
            final(self).currents().len() == old(self).currents().len(),
            forall|i: int| #![trigger final(self).originals()[i]]
                0 <= i < final(self).originals().len() ==> final(self).originals()[i] == (if 0 <= i
                    < values@.len() && values@[i] is Some {
                    values@[i]
                } else {
                    old(self).originals()[i]
                }),
            forall|i: int| #![trigger final(self).currents()[i]]
                0 <= i < final(self).currents().len() ==> final(self).currents()[i] == (if 0 <= i
                    < values@.len() && values@[i] is Some && i < final(self).originals().len() {
                    values@[i]
                } else {
                    old(self).currents()[i]
                }),
            final(self).is_modified() == old(self).is_modified(),
    {
        let n: usize = self.original_epp.len();
        let mut i: usize = 0;
        while i < n
            invariant
                0 <= i <= n,
                n == self.original_epp@.len(),
                self.current_epp@.len() == old(self).current_epp@.len(),
                self.modified == old(self).modified,
                n == old(self).original_epp@.len(),
                forall|j: int| #![trigger self.original_epp@[j]]
                    0 <= j < i ==> self.original_epp@[j] == (if 0 <= j < values@.len()
                        && values@[j] is Some {
                        values@[j]
                    } else {
                        old(self).original_epp@[j]
                    }),
                forall|j: int| #![trigger self.original_epp@[j]]
                    i <= j < n ==> self.original_epp@[j] == old(self).original_epp@[j],
                forall|j: int| #![trigger self.current_epp@[j]]
                    0 <= j < self.current_epp@.len() ==> self.current_epp@[j] == (if 0 <= j < i
                        && j < values@.len() && values@[j] is Some {
                        values@[j]
                    } else {
                        old(self).current_epp@[j]
                    }),
            decreases n - i,
        {
            if i < values.len() {
                if let Some(v) = &values[i] {
                    let copy: String = v.clone();
                    let copy2: String = v.clone();
                    self.original_epp.set(i, Some(copy));
                    if i < self.current_epp.len() {
                        self.current_epp.set(i, Some(copy2));
                        assert(self.current_epp@[i as int] == values@[i as int]);
                    }
                }
            }
            i = i + 1;
        }
    }

    /// Whether writing `epp` for `cpu` would change anything: the mirror
    /// holds a different value. The caller performs the sysfs write first
    /// and records it with `set_epp` only when the write succeeded.
    pub fn epp_write_needed(&self, cpu: u32, epp: &str) -> (r: bool)
        requires
            (cpu as int) < self.currents().len(),
        ensures
            r == !(self.currents()[cpu as int] matches Some(c) && string_bytes(c@)
                == epp.spec_bytes()),
    {
        let idx = cpu as usize;
        match &self.current_epp[idx] {
            Some(c) => !crate::text::eq_bytes(c.as_str().as_bytes(), epp.as_bytes()),
            None => true,
        }
    }

    /// Record that `cpu` should run with `epp`. Returns true when the
    /// value differs from the mirror, in which case the caller performs
    /// the sysfs write; a repeated value needs no write.
    pub fn set_epp(&mut self, cpu: u32, epp: &str) -> (write_needed: bool)
        requires
            (cpu as int) < old(self).currents().len(),
        ensures
            final(self).originals() == old(self).originals(),
            final(self).currents().len() == old(self).currents().len(),
            write_needed == !(old(self).currents()[cpu as int] matches Some(c) && string_bytes(c@)
                == epp.spec_bytes()),
            !write_needed ==> *final(self) == *old(self),
            write_needed ==> {
                &&& final(self).currents()[cpu as int] matches Some(c) && c@ == epp@
                &&& final(self).is_modified()
                &&& forall|j: int|
                    0 <= j < final(self).currents().len() && j != cpu as int
                        ==> final(self).currents()[j] == old(self).currents()[j]
            },
    {
        let idx = cpu as usize;
        let same: bool = match &self.current_epp[idx] {
            Some(c) => crate::text::eq_bytes(c.as_str().as_bytes(), epp.as_bytes()),
            None => false,
        };
        if same {
            return false;
        }
        self.current_epp.set(idx, Some(String::from_str(epp)));
        self.modified = true;
        true
    }

    /// The restore plan for shutdown: one write per CPU whose startup
    /// value was snapshotted, carrying exactly that startup value, in CPU
    /// order. Empty when nothing was ever modified (nothing needs
    /// restoring). Applying the plan leaves every CPU's EPP equal to the
    /// value observed at startup.
    pub fn restore_original(&self) -> (writes: Vec<(u32, String)>)
        requires
            self.originals().len() <= u32::MAX,
        ensures
            !self.is_modified() ==> writes@.len() == 0,
            self.is_modified() ==> {
                &&& forall|t: int| #![trigger writes@[t]]
                    0 <= t < writes@.len() ==> 0 <= writes@[t].0 < self.originals().len() && (
                    self.originals()[writes@[t].0 as int] matches Some(v) && writes@[t].1@ == v@)
                &&& forall|i: int| #![trigger self.originals()[i]]
                    0 <= i < self.originals().len() && self.originals()[i] is Some ==> exists|
                        t: int,
                    |
                        0 <= t < writes@.len() && (#[trigger] writes@[t]).0 == i
                &&& forall|t1: int, t2: int|
                    0 <= t1 < t2 < writes@.len() ==> (#[trigger] writes@[t1]).0 < (
                    #[trigger] writes@[t2]).0
            },
    {
        let mut writes: Vec<(u32, String)> = Vec::new();
        if !self.modified {
            return writes;
        }
        let n: usize = self.original_epp.len();
        let mut i: usize = 0;
        while i < n
            invariant
                0 <= i <= n,
                n == self.original_epp@.len(),
                n <= u32::MAX,
                forall|t: int| #![trigger writes@[t]]
                    0 <= t < writes@.len() ==> 0 <= writes@[t].0 < i && (
                    self.original_epp@[writes@[t].0 as int] matches Some(v) && writes@[t].1@
                        == v@),
                forall|j: int| #![trigger self.original_epp@[j]]
                    0 <= j < i && self.original_epp@[j] is Some ==> exists|t: int|
                        0 <= t < writes@.len() && (#[trigger] writes@[t]).0 == j,
                forall|t1: int, t2: int|
                    0 <= t1 < t2 < writes@.len() ==> (#[trigger] writes@[t1]).0 < (
                    #[trigger] writes@[t2]).0,
            decreases n - i,
        {
            let ghost writes_pre = writes@;
            if let Some(v) = &self.original_epp[i] {
                writes.push((i as u32, v.clone()));
                assert(writes@[writes@.len() - 1].0 == i);
            }
            proof {
                assert forall|j: int| #![trigger self.original_epp@[j]]
                    0 <= j < i + 1 && self.original_epp@[j] is Some implies exists|t: int|
                    0 <= t < writes@.len() && (#[trigger] writes@[t]).0 == j by {
                    if j < i as int {
                        let t0 = choose|t0: int|
                            0 <= t0 < writes_pre.len() && (#[trigger] writes_pre[t0]).0 == j;
                        assert(writes@[t0].0 == j);
                    } else {
                        assert(writes@[writes@.len() - 1].0 == j);
                    }
                }
            }
            i = i + 1;
        }
        writes
    }
}

/// Restoring is faithful: every write of the shutdown plan carries the
/// EPP value observed at startup for its CPU, and every CPU that had a
/// value observed at startup is written. With one write per CPU, after
/// the plan runs each CPU's EPP equals its startup value.
pub proof fn lemma_restore_matches_startup(m: EppManager, writes: Seq<(u32, String)>)
    requires
        m.is_modified(),
        forall|t: int| #![trigger writes[t]]
            0 <= t < writes.len() ==> 0 <= writes[t].0 < m.originals().len() && (
            m.originals()[writes[t].0 as int] matches Some(v) && writes[t].1@ == v@),
        forall|i: int| #![trigger m.originals()[i]]
            0 <= i < m.originals().len() && m.originals()[i] is Some ==> exists|t: int|
                0 <= t < writes.len() && (#[trigger] writes[t]).0 == i,
        forall|t1: int, t2: int|
            0 <= t1 < t2 < writes.len() ==> (#[trigger] writes[t1]).0 < (#[trigger] writes[t2]).0,
    ensures
        forall|i: int| #![trigger m.originals()[i]]
            0 <= i < m.originals().len() && m.originals()[i] is Some ==> exists|t: int|
                0 <= t < writes.len() && (#[trigger] writes[t]).0 == i && writes[t].1@
                    == m.originals()[i]->0@,
        forall|t1: int, t2: int|
            0 <= t1 < t2 < writes.len() ==> (#[trigger] writes[t1]).0 != (#[trigger] writes[t2]).0,
{
    assert forall|i: int| #![trigger m.originals()[i]]
        0 <= i < m.originals().len() && m.originals()[i] is Some implies exists|t: int|
        0 <= t < writes.len() && (#[trigger] writes[t]).0 == i && writes[t].1@ == m.originals()[i]
        ->0@ by {
        let t = choose|t: int| 0 <= t < writes.len() && (#[trigger] writes[t]).0 == i;
        assert(writes[t].1@ == m.originals()[i]->0@);
    }
}


/// The platform frequency driver's operating mode.
#[derive(Debug, Clone, Copy, PartialEq, Eq, Structural)]
pub enum PstateMode {
    /// The driver applies energy/performance hints itself.
    Active,
    /// The kernel governor drives the frequency.
    Passive,
    /// Guided autonomous selection.
    Guided,
    Unknown,
}

/// The mode the driver's status text denotes, whitespace trimmed; with
/// no status file, an AMD scaling driver name still marks the driver as
/// present but its mode unknown.
pub open spec fn spec_pstate_mode(status: Option<Seq<u8>>) -> PstateMode {
    match status {
        Some(s) => {
            let t = trim_seq(s);
            if t == seq![97u8, 99u8, 116u8, 105u8, 118u8, 101u8] {
                PstateMode::Active
            } else if t == seq![112u8, 97u8, 115u8, 115u8, 105u8, 118u8, 101u8] {
                PstateMode::Passive
            } else if t == seq![103u8, 117u8, 105u8, 100u8, 101u8, 100u8] {
                PstateMode::Guided
            } else {
                PstateMode::Unknown
            }
        },
        None => PstateMode::Unknown,
    }
}

/// Read the frequency driver's mode from its status text.
pub fn detect_pstate_mode(status: Option<&str>) -> (r: PstateMode)
    ensures
        r == spec_pstate_mode(
            match status {
                Some(s) => Some(s.spec_bytes()),
                None => None,
            },
        ),
{
    match status {
        Some(s) => {
            let t = crate::text::trim_exact(s.as_bytes());
            let active: Vec<u8> = vec![97u8, 99u8, 116u8, 105u8, 118u8, 101u8];  // active
            let passive: Vec<u8> = vec![112u8, 97u8, 115u8, 115u8, 105u8, 118u8, 101u8];  // passive
            let guided: Vec<u8> = vec![103u8, 117u8, 105u8, 100u8, 101u8, 100u8];  // guided
            proof {
                assert(active@ =~= seq![97u8, 99u8, 116u8, 105u8, 118u8, 101u8]);
                assert(passive@ =~= seq![112u8, 97u8, 115u8, 115u8, 105u8, 118u8, 101u8]);
                assert(guided@ =~= seq![103u8, 117u8, 105u8, 100u8, 101u8, 100u8]);
            }
            let tb = t.as_slice();
            if crate::text::eq_bytes(tb, active.as_slice()) {
                PstateMode::Active
            } else if crate::text::eq_bytes(tb, passive.as_slice()) {
                PstateMode::Passive
            } else if crate::text::eq_bytes(tb, guided.as_slice()) {
                PstateMode::Guided
            } else {
                PstateMode::Unknown
            }
        },
        None => PstateMode::Unknown,
    }
}

} // verus!
