//! V-Cache mode control: the platform node's mode values, the switching
//! strategies, a rate limit on reads, and the hysteresis that admits at
//! most one mode switch per stability window.

use vstd::prelude::*;

use vstd::string::StringSliceAdditionalSpecFns;

use crate::text::lower_seq;
use crate::text::trim_seq;

verus! {

/// V-Cache operating mode.
#[derive(Debug, Clone, Copy, PartialEq, Eq, Structural)]
pub enum VCacheMode {
    /// Optimized for cache (gaming): prefer the stacked-cache cluster.
    Cache,
    /// Optimized for frequency (productivity): prefer the faster cluster.
    Frequency,
    /// Unknown or unsupported.
    Unknown,
}

/// The bytes "cache".
pub open spec fn cache_word() -> Seq<u8> {
    seq![99u8, 97u8, 99u8, 104u8, 101u8]
}

/// The bytes "frequency".
pub open spec fn frequency_word() -> Seq<u8> {
    seq![102u8, 114u8, 101u8, 113u8, 117u8, 101u8, 110u8, 99u8, 121u8]
}

/// The bytes "freq".
pub open spec fn freq_word() -> Seq<u8> {
    seq![102u8, 114u8, 101u8, 113u8]
}

/// The mode a sysfs string denotes, case-insensitively, whitespace
/// trimmed; anything unrecognised is Unknown.
pub open spec fn spec_mode_from(s: Seq<u8>) -> VCacheMode {
    let t = lower_seq(trim_seq(s));
    if t == cache_word() {
        VCacheMode::Cache
    } else if t == frequency_word() || t == freq_word() {
        VCacheMode::Frequency
    } else {
        VCacheMode::Unknown
    }
}

impl VCacheMode {
    /// Parse the mode from its sysfs string.
    pub fn from_str(s: &str) -> (r: VCacheMode)
        ensures
            r == spec_mode_from(s.spec_bytes()),
    {
        let t = crate::text::trim_exact(s.as_bytes());
        let lower = crate::text::to_lower_bytes(t.as_slice());
        let cache: Vec<u8> = vec![99u8, 97u8, 99u8, 104u8, 101u8];  // cache
        let frequency: Vec<u8> = vec![
            102u8,
            114u8,
            101u8,
            113u8,
            117u8,
            101u8,
            110u8,
            99u8,
            121u8,
        ];  // frequency
        let freq: Vec<u8> = vec![102u8, 114u8, 101u8, 113u8];  // freq
        proof {
            assert(cache@ =~= cache_word());
            assert(frequency@ =~= frequency_word());
            assert(freq@ =~= freq_word());
        }
        if crate::text::eq_bytes(lower.as_slice(), cache.as_slice()) {
            VCacheMode::Cache
        } else if crate::text::eq_bytes(lower.as_slice(), frequency.as_slice())
            || crate::text::eq_bytes(lower.as_slice(), freq.as_slice()) {
            VCacheMode::Frequency
        } else {
            VCacheMode::Unknown
        }
    }

    /// The string written to the sysfs node; the unknown mode writes the
    /// cache default.
    pub fn to_sysfs_str(self) -> (r: &'static str)
        ensures
            self is Cache ==> r@ == "cache"@,
            self is Frequency ==> r@ == "frequency"@,
            self is Unknown ==> r@ == "cache"@,
    {
        match self {
            VCacheMode::Cache => "cache",
            VCacheMode::Frequency => "frequency",
            VCacheMode::Unknown => "cache",
        }
    }

    /// The gaming-mode flag the mode maps to: only the frequency mode
    /// turns it off.
    pub fn to_gaming_mode(self) -> (r: bool)
        ensures
            r == !(self is Frequency),
    {
        match self {
            VCacheMode::Cache => true,
            VCacheMode::Frequency => false,
            VCacheMode::Unknown => true,
        }
    }
}

/// V-Cache switching strategy.
#[derive(Debug, Clone, Copy, PartialEq, Eq, Structural)]
pub enum SwitchingStrategy {
    /// The user controls the mode; only observe.
    Manual,
    /// Decide from the observed workload counts.
    Automatic { gaming_threshold: u32, batch_threshold: u32 },
    /// React to external mode changes only.
    FollowExternal,
}

impl Default for SwitchingStrategy {
    /// Following the external switcher is the default.
    fn default() -> (r: SwitchingStrategy)
        ensures
            r == SwitchingStrategy::FollowExternal,
    {
        SwitchingStrategy::FollowExternal
    }
}

/// The hysteresis state: a candidate mode only takes effect after it has
/// been the candidate continuously for the whole window.
pub struct Hysteresis {
    /// The candidate mode awaiting stability.
    pub pending_mode: Option<VCacheMode>,
    /// When the candidate became stable.
    pub stable_since: Option<u64>,
    /// The stability window in nanoseconds.
    pub window_ns: u64,
}

/// One hysteresis decision: what the state becomes and whether a switch
/// is granted now.
pub open spec fn spec_hyst_step(h: Hysteresis, current: VCacheMode, now: u64, target: VCacheMode) -> (
    Hysteresis,
    Option<VCacheMode>,
) {
    if target == current {
        (Hysteresis { pending_mode: None, stable_since: None, window_ns: h.window_ns }, None)
    } else if h.pending_mode == Some(target) && h.stable_since is Some && h.stable_since->0
        + h.window_ns <= now {
        (
            Hysteresis { pending_mode: None, stable_since: None, window_ns: h.window_ns },
            Some(target),
        )
    } else if h.pending_mode != Some(target) {
        (
            Hysteresis { pending_mode: Some(target), stable_since: Some(now), window_ns: h.window_ns },
            None,
        )
    } else {
        (h, None)
    }
}

/// Apply one hysteresis decision.
fn hyst_step(h: &mut Hysteresis, current: VCacheMode, now: u64, target: VCacheMode) -> (r: Option<
    VCacheMode,
>)
    ensures
        (*final(h), r) == spec_hyst_step(*old(h), current, now, target),
{
    if target == current {
        h.pending_mode = None;
        h.stable_since = None;
        return None;
    }
    let pending_is_target = match h.pending_mode {
        Some(p) => p == target,
        None => false,
    };
    if pending_is_target {
        if let Some(since) = h.stable_since {
            if now >= h.window_ns && since <= now - h.window_ns {
                h.pending_mode = None;
                h.stable_since = None;
                return Some(target);
            }
        }
        None
    } else {
        h.pending_mode = Some(target);
        h.stable_since = Some(now);
        None
    }
}

/// The steps of a run: at each time, the current mode and the candidate.
pub struct HystInput {
    pub now: u64,
    pub current: VCacheMode,
    pub target: VCacheMode,
}

/// The times at which a run of hysteresis decisions grants a switch.
pub open spec fn grant_times(h: Hysteresis, steps: Seq<HystInput>) -> Seq<u64>
    decreases steps.len(),
{
    if steps.len() == 0 {
        Seq::<u64>::empty()
    } else {
        let (h1, r) = spec_hyst_step(h, steps[0].current, steps[0].now, steps[0].target);
        if r is Some {
            seq![steps[0].now] + grant_times(h1, steps.drop_first())
        } else {
            grant_times(h1, steps.drop_first())
        }
    }
}

/// Grants spaced at least `w` apart, the first no earlier than `lo + w`.
pub open spec fn spaced(g: Seq<u64>, w: u64, lo: u64) -> bool
    decreases g.len(),
{
    if g.len() == 0 {
        true
    } else {
        lo + w <= g[0] && spaced(g.drop_first(), w, g[0])
    }
}

/// The hysteresis never grants more than one switch per window: over any
/// run with nondecreasing times, each granted switch comes at least one
/// full window after the previous one (and after any pending candidate's
/// start).
pub proof fn lemma_one_switch_per_window(h: Hysteresis, steps: Seq<HystInput>, lo: u64)
    requires
        h.stable_since is Some ==> lo <= h.stable_since->0,
        forall|i: int| 0 <= i < steps.len() ==> lo <= (#[trigger] steps[i]).now,
        forall|i: int, j: int|
            0 <= i < j < steps.len() ==> (#[trigger] steps[i]).now <= (#[trigger] steps[j]).now,
    ensures
        spaced(grant_times(h, steps), h.window_ns, lo),
    decreases steps.len(),
{
    if steps.len() > 0 {
        let s0 = steps[0];
        let (h1, r) = spec_hyst_step(h, s0.current, s0.now, s0.target);
        let rest = steps.drop_first();
        assert(h1.window_ns == h.window_ns);
        assert forall|i: int, j: int|
            0 <= i < j < rest.len() implies (#[trigger] rest[i]).now <= (
        #[trigger] rest[j]).now by {
            assert(rest[i] == steps[i + 1] && rest[j] == steps[j + 1]);
        }
        if r is Some {
            // A switch is granted now: the candidate was stable since a
            // time at or after `lo`, a full window ago.
            assert(h.stable_since->0 + h.window_ns <= s0.now);
            assert(lo + h.window_ns <= s0.now);
            assert(h1.stable_since is None);
            assert forall|i: int| 0 <= i < rest.len() implies s0.now <= (
            #[trigger] rest[i]).now by {
                assert(rest[i] == steps[i + 1]);
            }
            lemma_one_switch_per_window(h1, rest, s0.now);
            let g = grant_times(h, steps);
            assert(g == seq![s0.now] + grant_times(h1, rest));
            assert(g[0] == s0.now);
            assert(g.drop_first() =~= grant_times(h1, rest));
        } else {
            // No switch: the candidate start can only move forward.
            assert(h1.stable_since is Some ==> lo <= h1.stable_since->0);
            assert forall|i: int| 0 <= i < rest.len() implies lo <= (#[trigger] rest[i]).now by {
                assert(rest[i] == steps[i + 1]);
            }
            lemma_one_switch_per_window(h1, rest, lo);
            assert(grant_times(h, steps) == grant_times(h1, rest));
        }
    }
}

/// Coordination with the external V-Cache mode switcher: observes the
/// platform node's mode at a bounded rate, records externally made
/// changes, and (under the automatic strategy) asks for switches of its
/// own, damped by the hysteresis.
pub struct VCacheController {
    available: bool,
    current_mode: VCacheMode,
    strategy: SwitchingStrategy,
    last_check_ns: u64,
    check_interval_ns: u64,
    hysteresis: Hysteresis,
}

impl VCacheController {
    /// The mode most recently observed or written.
    pub closed spec fn mode(&self) -> VCacheMode {
        self.current_mode
    }

    /// Whether a platform node was found at all.
    pub closed spec fn spec_available(&self) -> bool {
        self.available
    }

    pub closed spec fn spec_strategy(&self) -> SwitchingStrategy {
        self.strategy
    }

    pub closed spec fn spec_hysteresis(&self) -> Hysteresis {
        self.hysteresis
    }

    pub closed spec fn spec_last_check(&self) -> u64 {
        self.last_check_ns
    }

    pub closed spec fn spec_check_interval(&self) -> u64 {
        self.check_interval_ns
    }

    /// A controller over a node observed (or missed) at startup: reads
    /// rate-limited to one per 500 ms, switches damped by a 5 s window.
    pub fn new(available: bool, initial_mode: VCacheMode, now_ns: u64) -> (r: VCacheController)
        ensures
            r.spec_available() == available,
            r.mode() == initial_mode,
            r.spec_strategy() == SwitchingStrategy::FollowExternal,
            r.spec_check_interval() == 500_000_000u64,
            r.spec_hysteresis().window_ns == 5_000_000_000u64,
            r.spec_hysteresis().pending_mode is None,
            r.spec_hysteresis().stable_since is None,
            r.spec_last_check() == now_ns,
    {
        VCacheController {
            available,
            current_mode: initial_mode,
            strategy: SwitchingStrategy::FollowExternal,
            last_check_ns: now_ns,
            check_interval_ns: 500_000_000,
            hysteresis: Hysteresis {
                pending_mode: None,
                stable_since: None,
                window_ns: 5_000_000_000,
            },
        }
    }

    /// Whether V-Cache switching is available.
    pub fn is_available(&self) -> (r: bool)
        ensures
            r == self.spec_available(),
    {
        self.available
    }

    /// The current V-Cache mode.
    pub fn current_mode(&self) -> (r: VCacheMode)
        ensures
            r == self.mode(),
    {
        self.current_mode
    }

    /// Set the switching strategy.
    pub fn set_strategy(&mut self, strategy: SwitchingStrategy)
        ensures
            final(self).spec_strategy() == strategy,
            final(self).mode() == old(self).mode(),
            final(self).spec_available() == old(self).spec_available(),
            final(self).spec_hysteresis() == old(self).spec_hysteresis(),
            final(self).spec_last_check() == old(self).spec_last_check(),
            final(self).spec_check_interval() == old(self).spec_check_interval(),
    {
        self.strategy = strategy;
    }

    /// Whether the node is due to be read again: at most one read per
    /// check interval.
    pub fn read_due(&self, now_ns: u64) -> (r: bool)
        ensures
            r == (self.spec_available() && self.spec_last_check() + self.spec_check_interval()
                <= now_ns),
    {
        if !self.available {
            return false;
        }
        now_ns >= self.check_interval_ns && self.last_check_ns <= now_ns - self.check_interval_ns
    }

    /// Take note of a freshly observed mode. Returns the new mode when it
    /// differs from the recorded one (an external change); returns None
    /// and changes nothing when the read was not yet due.
    pub fn poll_changes(&mut self, now_ns: u64, observed: VCacheMode) -> (r: Option<VCacheMode>)
        ensures
            ({
                let due = old(self).spec_available() && old(self).spec_last_check() + old(
                    self,
                ).spec_check_interval() <= now_ns;
                &&& !due ==> r is None && *final(self) == *old(self)
                &&& due ==> final(self).spec_last_check() == now_ns && final(self).mode()
                    == observed && (r == if observed != old(self).mode() {
                    Some(observed)
                } else {
                    None::<VCacheMode>
                })
                &&& final(self).spec_available() == old(self).spec_available()
                &&& final(self).spec_strategy() == old(self).spec_strategy()
                &&& final(self).spec_hysteresis() == old(self).spec_hysteresis()
                &&& final(self).spec_check_interval() == old(self).spec_check_interval()
            }),
    {
        if !self.read_due(now_ns) {
            return None;
        }
        self.last_check_ns = now_ns;
        if !mode_eq(observed, self.current_mode) {
            self.current_mode = observed;
            return Some(observed);
        }
        None
    }

    /// Record a mode the caller has just written to the node. Returns
    /// whether the node is available at all; with no node nothing is
    /// recorded and the caller must not write.
    pub fn request_mode(&mut self, mode: VCacheMode) -> (r: bool)
        ensures
            r == old(self).spec_available(),
            r ==> final(self).mode() == mode,
            !r ==> *final(self) == *old(self),
            final(self).spec_available() == old(self).spec_available(),
            final(self).spec_strategy() == old(self).spec_strategy(),
            final(self).spec_hysteresis() == old(self).spec_hysteresis(),
            final(self).spec_last_check() == old(self).spec_last_check(),
            final(self).spec_check_interval() == old(self).spec_check_interval(),
    {
        if !self.available {
            return false;
        }
        self.current_mode = mode;
        true
    }

    /// The target the automatic strategy picks from the workload counts:
    /// gaming tasks at or above their threshold ask for the cache mode;
    /// batch work alone at or above its threshold asks for frequency.
    pub open spec fn spec_auto_target(
        strategy: SwitchingStrategy,
        nr_gaming: u64,
        nr_batch: u64,
    ) -> Option<VCacheMode> {
        match strategy {
            SwitchingStrategy::Automatic { gaming_threshold, batch_threshold } => {
                if nr_gaming >= gaming_threshold {
                    Some(VCacheMode::Cache)
                } else if nr_batch >= batch_threshold && nr_gaming == 0 {
                    Some(VCacheMode::Frequency)
                } else {
                    None
                }
            },
            _ => None,
        }
    }

    /// Decide whether to switch modes for the observed workload. Only the
    /// automatic strategy ever asks for a switch, and only after its
    /// target has survived the hysteresis window.
    pub fn evaluate_switch(&mut self, now_ns: u64, nr_gaming_tasks: u64, nr_batch_tasks: u64) -> (r:
        Option<VCacheMode>)
        ensures
            final(self).spec_available() == old(self).spec_available(),
            final(self).spec_strategy() == old(self).spec_strategy(),
            final(self).mode() == old(self).mode(),
            final(self).spec_last_check() == old(self).spec_last_check(),
            final(self).spec_check_interval() == old(self).spec_check_interval(),
            ({
                let target = Self::spec_auto_target(
                    old(self).spec_strategy(),
                    nr_gaming_tasks,
                    nr_batch_tasks,
                );
                match target {
                    None => r is None && final(self).spec_hysteresis() == old(
                        self,
                    ).spec_hysteresis(),
                    Some(t) => (final(self).spec_hysteresis(), r) == spec_hyst_step(
                        old(self).spec_hysteresis(),
                        old(self).mode(),
                        now_ns,
                        t,
                    ),
                }
            }),
    {
        let (gaming_threshold, batch_threshold) = match self.strategy {
            SwitchingStrategy::Automatic { gaming_threshold, batch_threshold } => (
                gaming_threshold,
                batch_threshold,
            ),
            _ => {
                return None;
            },
        };
        let target = if nr_gaming_tasks >= gaming_threshold as u64 {
            VCacheMode::Cache
        } else if nr_batch_tasks >= batch_threshold as u64 && nr_gaming_tasks == 0 {
            VCacheMode::Frequency
        } else {
            return None;
        };
        let current = self.current_mode;
        hyst_step(&mut self.hysteresis, current, now_ns, target)
    }
}

/// The two modes are the same.
fn mode_eq(a: VCacheMode, b: VCacheMode) -> (r: bool)
    ensures
        r == (a == b),
{
    match (a, b) {
        (VCacheMode::Cache, VCacheMode::Cache) => true,
        (VCacheMode::Frequency, VCacheMode::Frequency) => true,
        (VCacheMode::Unknown, VCacheMode::Unknown) => true,
        _ => false,
    }
}

} // verus!
