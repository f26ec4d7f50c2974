//! Discrete GPU state: the PCI power state, resizable-BAR detection,
//! BAR1 sizing from the PCI resource file, GPU-feeding thread names, and
//! a monitor that tracks power-state transitions.

use vstd::prelude::*;

use vstd::string::StringExecFns;
use vstd::string::StringSliceAdditionalSpecFns;

use crate::patterns::gpu_thread_patterns;
use crate::patterns::gpu_thread_pattern_vec;
use crate::text::contains_any;
use crate::text::contains_bytes;
use crate::text::contains_seq;
use crate::text::lower_seq;
use crate::text::matches_any;
use crate::text::sep_pos_from;
use crate::text::split_seq;
use crate::text::string_bytes;
use crate::text::to_lower_bytes;
use crate::text::trim_seq;
use crate::text::views_of;
use crate::textnum::all_hex;
use crate::textnum::hex_value;

verus! {

/// GPU power state.
#[derive(Debug, Clone, Copy, PartialEq, Eq, Structural)]
pub enum GpuPowerState {
    /// Fully on.
    D0,
    /// Light sleep.
    D1,
    /// Deep sleep.
    D2,
    /// Powered but suspended.
    D3Hot,
    /// Powered off.
    D3Cold,
    Unknown,
}

impl GpuPowerState {
    /// A short display name.
    pub fn as_str(self) -> (r: &'static str)
        ensures
            self is D0 ==> r@ == "D0 (active)"@,
            self is D1 ==> r@ == "D1"@,
            self is D2 ==> r@ == "D2"@,
            self is D3Hot ==> r@ == "D3hot"@,
            self is D3Cold ==> r@ == "D3cold"@,
            self is Unknown ==> r@ == "unknown"@,
    {
        match self {
            GpuPowerState::D0 => "D0 (active)",
            GpuPowerState::D1 => "D1",
            GpuPowerState::D2 => "D2",
            GpuPowerState::D3Hot => "D3hot",
            GpuPowerState::D3Cold => "D3cold",
            GpuPowerState::Unknown => "unknown",
        }
    }
}

/// The state a PCI `power_state` text denotes, whitespace trimmed.
pub open spec fn spec_power_state_from(s: Seq<u8>) -> GpuPowerState {
    let t = trim_seq(s);
    if t == seq![68u8, 48u8] {
        GpuPowerState::D0
    } else if t == seq![68u8, 49u8] {
        GpuPowerState::D1
    } else if t == seq![68u8, 50u8] {
        GpuPowerState::D2
    } else if t == seq![68u8, 51u8, 104u8, 111u8, 116u8] {
        GpuPowerState::D3Hot
    } else if t == seq![68u8, 51u8, 99u8, 111u8, 108u8, 100u8] {
        GpuPowerState::D3Cold
    } else {
        GpuPowerState::Unknown
    }
}

/// The driver's power text pins the device active when it reports the
/// runtime-suspend feature as off.
pub open spec fn spec_driver_reports_active(power: Seq<u8>) -> bool {
    &&& contains_seq(
        power,
        seq![
            82u8, 117u8, 110u8, 116u8, 105u8, 109u8, 101u8, 32u8, 68u8, 51u8, 32u8, 115u8, 116u8,
            97u8, 116u8, 117u8, 115u8, 58u8,
        ],
    )
    &&& (contains_seq(power, seq![68u8, 105u8, 115u8, 97u8, 98u8, 108u8, 101u8, 100u8])
        || contains_seq(
        power,
        seq![
            78u8, 111u8, 116u8, 32u8, 115u8, 117u8, 112u8, 112u8, 111u8, 114u8, 116u8, 101u8,
            100u8,
        ],
    ))
}

/// The power state of a GPU from the driver's power text and the PCI
/// `power_state` text: a driver that reports runtime suspend off means
/// active; otherwise the PCI state decides.
pub fn read_gpu_power_state(driver_power: Option<&str>, pci_state: Option<&str>) -> (r:
    GpuPowerState)
    ensures
        r == spec_gpu_power_state(
            match driver_power {
                Some(p) => Some(p.spec_bytes()),
                None => None,
            },
            match pci_state {
                Some(p) => Some(p.spec_bytes()),
                None => None,
            },
        ),
{
    if let Some(p) = driver_power {
        let status: Vec<u8> = vec![
            82u8, 117u8, 110u8, 116u8, 105u8, 109u8, 101u8, 32u8, 68u8, 51u8, 32u8, 115u8, 116u8,
            97u8, 116u8, 117u8, 115u8, 58u8,
        ];  // Runtime D3 status:
        let disabled: Vec<u8> = vec![68u8, 105u8, 115u8, 97u8, 98u8, 108u8, 101u8, 100u8];  // Disabled
        let notsup: Vec<u8> = vec![
            78u8, 111u8, 116u8, 32u8, 115u8, 117u8, 112u8, 112u8, 111u8, 114u8, 116u8, 101u8,
            100u8,
        ];  // Not supported
        proof {
            assert(status@ =~= seq![
                82u8, 117u8, 110u8, 116u8, 105u8, 109u8, 101u8, 32u8, 68u8, 51u8, 32u8, 115u8,
                116u8, 97u8, 116u8, 117u8, 115u8, 58u8,
            ]);
            assert(disabled@ =~= seq![68u8, 105u8, 115u8, 97u8, 98u8, 108u8, 101u8, 100u8]);
            assert(notsup@ =~= seq![
                78u8, 111u8, 116u8, 32u8, 115u8, 117u8, 112u8, 112u8, 111u8, 114u8, 116u8, 101u8,
                100u8,
            ]);
        }
        let pb = p.as_bytes();
        if contains_bytes(pb, status.as_slice()) && (contains_bytes(pb, disabled.as_slice())
            || contains_bytes(pb, notsup.as_slice())) {
            return GpuPowerState::D0;
        }
    }
    match pci_state {
        Some(st) => {
            let t = crate::text::trim_exact(st.as_bytes());
            let d0: Vec<u8> = vec![68u8, 48u8];  // D0
            let d1: Vec<u8> = vec![68u8, 49u8];  // D1
            let d2: Vec<u8> = vec![68u8, 50u8];  // D2
            let d3h: Vec<u8> = vec![68u8, 51u8, 104u8, 111u8, 116u8];  // D3hot
            let d3c: Vec<u8> = vec![68u8, 51u8, 99u8, 111u8, 108u8, 100u8];  // D3cold
            proof {
                assert(d0@ =~= seq![68u8, 48u8]);
                assert(d1@ =~= seq![68u8, 49u8]);
                assert(d2@ =~= seq![68u8, 50u8]);
                assert(d3h@ =~= seq![68u8, 51u8, 104u8, 111u8, 116u8]);
                assert(d3c@ =~= seq![68u8, 51u8, 99u8, 111u8, 108u8, 100u8]);
            }
            let tb = t.as_slice();
            if crate::text::eq_bytes(tb, d0.as_slice()) {
                GpuPowerState::D0
            } else if crate::text::eq_bytes(tb, d1.as_slice()) {
                GpuPowerState::D1
            } else if crate::text::eq_bytes(tb, d2.as_slice()) {
                GpuPowerState::D2
            } else if crate::text::eq_bytes(tb, d3h.as_slice()) {
                GpuPowerState::D3Hot
            } else if crate::text::eq_bytes(tb, d3c.as_slice()) {
                GpuPowerState::D3Cold
            } else {
                GpuPowerState::Unknown
            }
        },
        None => GpuPowerState::Unknown,
    }
}

/// The power state the two readings denote.
pub open spec fn spec_gpu_power_state(
    driver_power: Option<Seq<u8>>,
    pci_state: Option<Seq<u8>>,
) -> GpuPowerState {
    if driver_power matches Some(p) && spec_driver_reports_active(p) {
        GpuPowerState::D0
    } else {
        match pci_state {
            Some(st) => spec_power_state_from(st),
            None => GpuPowerState::Unknown,
        }
    }
}

/// The first line starting with the resizable-BAR key decides, and it
/// enables the feature when it names "1".
pub open spec fn rebar_from(lines: Seq<Seq<u8>>, from: int) -> bool
    decreases lines.len() - from,
{
    if from < 0 || from >= lines.len() {
        false
    } else if crate::text::starts_with_seq(lines[from], rebar_key()) {
        contains_seq(lines[from], seq![49u8])
    } else {
        rebar_from(lines, from + 1)
    }
}

/// The bytes "EnableResizableBar:".
pub open spec fn rebar_key() -> Seq<u8> {
    seq![
        69u8, 110u8, 97u8, 98u8, 108u8, 101u8, 82u8, 101u8, 115u8, 105u8, 122u8, 97u8, 98u8,
        108u8, 101u8, 66u8, 97u8, 114u8, 58u8,
    ]
}

/// Whether the driver parameter text shows resizable BAR enabled.
pub fn check_rebar_enabled(params: &str) -> (r: bool)
    ensures
        r == rebar_from(split_seq(params.spec_bytes(), 10), 0),
{
    let lines = crate::text::split_at_seps(params.as_bytes(), 10);
    let m: usize = lines.len();
    let key: Vec<u8> = vec![
        69u8, 110u8, 97u8, 98u8, 108u8, 101u8, 82u8, 101u8, 115u8, 105u8, 122u8, 97u8, 98u8,
        108u8, 101u8, 66u8, 97u8, 114u8, 58u8,
    ];  // EnableResizableBar:
    let one: Vec<u8> = vec![49u8];  // 1
    proof {
        assert(key@ =~= rebar_key());
        assert(one@ =~= seq![49u8]);
    }
    let mut k: usize = 0;
    while k < m
        invariant
            0 <= k <= m,
            m == lines@.len(),
            key@ == rebar_key(),
            one@ == seq![49u8],
            views_of(lines@) == split_seq(params.spec_bytes(), 10),
            rebar_from(views_of(lines@), 0) == rebar_from(views_of(lines@), k as int),
        decreases m - k,
    {
        let line: &Vec<u8> = &lines[k];
        if crate::text::starts_with_bytes(line.as_slice(), key.as_slice()) {
            proof {
                assert(crate::text::starts_with_seq(views_of(lines@)[k as int], rebar_key()));
            }
            return contains_bytes(line.as_slice(), one.as_slice());
        }
        proof {
            assert(rebar_from(views_of(lines@), k as int) == rebar_from(
                views_of(lines@),
                k + 1,
            ));
        }
        k = k + 1;
    }
    false
}

/// The non-empty whitespace-separated tokens of a line, in order.
pub open spec fn tokens_of(pieces: Seq<Seq<u8>>) -> Seq<Seq<u8>>
    decreases pieces.len(),
{
    if pieces.len() == 0 {
        Seq::<Seq<u8>>::empty()
    } else if pieces[0].len() > 0 {
        seq![pieces[0]] + tokens_of(pieces.drop_first())
    } else {
        tokens_of(pieces.drop_first())
    }
}

proof fn lemma_tokens_of_snoc(pieces: Seq<Seq<u8>>, x: Seq<u8>)
    ensures
        tokens_of(pieces.push(x)) == tokens_of(pieces) + (if x.len() > 0 {
            seq![x]
        } else {
            Seq::<Seq<u8>>::empty()
        }),
    decreases pieces.len(),
{
    let tail: Seq<Seq<u8>> = if x.len() > 0 {
        seq![x]
    } else {
        Seq::<Seq<u8>>::empty()
    };
    if pieces.len() == 0 {
        assert(pieces.push(x).drop_first() =~= Seq::<Seq<u8>>::empty());
        assert(pieces.push(x)[0] == x);
        assert(tokens_of(Seq::<Seq<u8>>::empty()) =~= Seq::<Seq<u8>>::empty());
        if x.len() > 0 {
            assert(tokens_of(pieces.push(x)) == seq![x] + tokens_of(Seq::<Seq<u8>>::empty()));
            assert(seq![x] + Seq::<Seq<u8>>::empty() =~= seq![x]);
            assert(Seq::<Seq<u8>>::empty() + seq![x] =~= seq![x]);
        } else {
            assert(tokens_of(pieces) + tail =~= Seq::<Seq<u8>>::empty());
        }
    } else {
        assert(pieces.push(x).drop_first() =~= pieces.drop_first().push(x));
        assert(pieces.push(x)[0] == pieces[0]);
        lemma_tokens_of_snoc(pieces.drop_first(), x);
        assert(tokens_of(pieces.push(x)) =~= tokens_of(pieces) + tail);
    }
}

/// The whitespace-separated tokens of a line (split on spaces, empty
/// pieces dropped).
pub fn line_tokens(line: &Vec<u8>) -> (r: Vec<Vec<u8>>)
    ensures
        views_of(r@) == tokens_of(split_seq(line@, 32)),
{
    let pieces = crate::text::split_at_seps(line.as_slice(), 32);
    let m: usize = pieces.len();
    let mut out: Vec<Vec<u8>> = Vec::new();
    let mut k: usize = 0;
    proof {
        assert(views_of(pieces@).subrange(0, 0) =~= Seq::<Seq<u8>>::empty());
        assert(views_of(out@) =~= tokens_of(views_of(pieces@).subrange(0, 0)));
    }
    while k < m
        invariant
            0 <= k <= m,
            m == pieces@.len(),
            views_of(pieces@) == split_seq(line@, 32),
            views_of(out@) == tokens_of(views_of(pieces@).subrange(0, k as int)),
        decreases m - k,
    {
        let piece: &Vec<u8> = &pieces[k];
        if piece.len() > 0 {
            let c = crate::text::subvec(piece.as_slice(), 0, piece.len());
            proof {
                assert(c@ =~= pieces@[k as int]@);
            }
            out.push(c);
        }
        proof {
            assert(views_of(pieces@).subrange(0, k + 1) =~= views_of(pieces@).subrange(
                0,
                k as int,
            ).push(views_of(pieces@)[k as int]));
            lemma_tokens_of_snoc(
                views_of(pieces@).subrange(0, k as int),
                views_of(pieces@)[k as int],
            );
            assert(views_of(out@) =~= tokens_of(views_of(pieces@).subrange(0, k + 1)));
        }
        k = k + 1;
    }
    proof {
        assert(views_of(pieces@).subrange(0, m as int) =~= views_of(pieces@));
    }
    out
}

/// The hex value a resource token denotes, with its "0x" prefix removed.
pub open spec fn spec_resource_word(tok: Seq<u8>) -> Option<u64> {
    let h = if crate::text::starts_with_seq(tok, seq![48u8, 120u8]) {
        tok.subrange(2, tok.len() as int)
    } else {
        tok
    };
    if h.len() > 0 && all_hex(h) && hex_value(h) <= u64::MAX {
        Some(hex_value(h) as u64)
    } else {
        None
    }
}

/// The BAR1 size the PCI resource text shows: on its second line, the
/// first two tokens are the start and end addresses; a window with
/// end > start is end - start + 1 bytes, anything else counts zero.
pub open spec fn spec_bar1_size(s: Seq<u8>) -> u64 {
    let lines = split_seq(s, 10);
    if lines.len() < 2 {
        0u64
    } else {
        let toks = tokens_of(split_seq(lines[1], 32));
        if toks.len() < 2 {
            0u64
        } else {
            match (spec_resource_word(toks[0]), spec_resource_word(toks[1])) {
                (Some(start), Some(end)) => {
                    if end > start && end - start < u64::MAX {
                        (end - start + 1) as u64
                    } else {
                        0u64
                    }
                },
                _ => 0u64,
            }
        }
    }
}

/// Parse one resource token as hex, stripping a "0x" prefix.
fn resource_word(tok: &Vec<u8>) -> (r: Option<u64>)
    ensures
        r == spec_resource_word(tok@),
{
    let prefix: Vec<u8> = vec![48u8, 120u8];  // 0x
    proof {
        assert(prefix@ =~= seq![48u8, 120u8]);
    }
    let h: Vec<u8> = if crate::text::starts_with_bytes(tok.as_slice(), prefix.as_slice()) {
        crate::text::subvec(tok.as_slice(), 2, tok.len())
    } else {
        crate::text::subvec(tok.as_slice(), 0, tok.len())
    };
    proof {
        if !crate::text::starts_with_seq(tok@, seq![48u8, 120u8]) {
            assert(h@ =~= tok@);
        }
    }
    crate::textnum::parse_hex_u64(h.as_slice())
}

/// The BAR1 (VRAM-mapped) window size from the PCI resource text.
pub fn read_bar1_size(resource: &str) -> (r: u64)
    ensures
        r == spec_bar1_size(resource.spec_bytes()),
{
    let lines = crate::text::split_at_seps(resource.as_bytes(), 10);
    if lines.len() < 2 {
        return 0;
    }
    proof {
        assert(views_of(lines@)[1] == split_seq(resource.spec_bytes(), 10)[1]);
    }
    let toks = line_tokens(&lines[1]);
    if toks.len() < 2 {
        return 0;
    }
    let start = resource_word(&toks[0]);
    let end = resource_word(&toks[1]);
    proof {
        assert(toks@[0]@ == tokens_of(split_seq(views_of(lines@)[1], 32))[0]);
        assert(toks@[1]@ == tokens_of(split_seq(views_of(lines@)[1], 32))[1]);
    }
    match (start, end) {
        (Some(s), Some(e)) => {
            if e > s && e - s < 0xffff_ffff_ffff_ffff {
                e - s + 1
            } else {
                0
            }
        },
        _ => 0,
    }
}

/// Whether a thread name marks a GPU-feeding thread.
pub open spec fn spec_is_gpu_thread(name: Seq<u8>) -> bool {
    matches_any(lower_seq(name), gpu_thread_patterns())
}

/// Check whether a thread name looks like a GPU-feeding thread.
pub fn is_gpu_thread_name(name: &str) -> (r: bool)
    ensures
        r == spec_is_gpu_thread(name.spec_bytes()),
{
    let lower = to_lower_bytes(name.as_bytes());
    let pats = gpu_thread_pattern_vec();
    proof {
        assert(views_of(pats@) =~= gpu_thread_patterns());
    }
    contains_any(lower.as_slice(), &pats)
}

/// One discrete GPU.
#[derive(Debug, Clone)]
pub struct NvidiaGpuInfo {
    /// PCI device address.
    pub pci_address: String,
    /// GPU model name.
    pub model: String,
    /// GPU UUID, when the driver exposes one.
    pub uuid: Option<String>,
    /// Whether resizable BAR is enabled.
    pub rebar_enabled: bool,
    /// BAR1 (VRAM-mapped) size in bytes.
    pub bar1_size: u64,
    /// Current power state.
    pub power_state: GpuPowerState,
    /// NUMA node, -1 when unassigned.
    pub numa_node: i32,
    /// PCI link speed text.
    pub pcie_speed: String,
    /// PCI link width text.
    pub pcie_width: String,
}

/// Some GPU of the list sits in the fully-on state.
pub open spec fn any_active(gpus: Seq<NvidiaGpuInfo>) -> bool {
    exists|i: int| 0 <= i < gpus.len() && (#[trigger] gpus[i]).power_state == GpuPowerState::D0
}

/// Some GPU of the list has resizable BAR on.
pub open spec fn any_rebar(gpus: Seq<NvidiaGpuInfo>) -> bool {
    exists|i: int| 0 <= i < gpus.len() && (#[trigger] gpus[i]).rebar_enabled
}

/// The total BAR1 size of the first `upto` GPUs.
pub open spec fn bar1_total_upto(gpus: Seq<NvidiaGpuInfo>, upto: int) -> int
    decreases upto,
{
    if upto <= 0 {
        0
    } else {
        bar1_total_upto(gpus, upto - 1) + gpus[upto - 1].bar1_size
    }
}

/// Tracks the discrete GPUs and their power states.
pub struct GpuMonitor {
    gpus: Vec<NvidiaGpuInfo>,
}

impl GpuMonitor {
    /// The GPUs as last observed.
    pub closed spec fn view(&self) -> Seq<NvidiaGpuInfo> {
        self.gpus@
    }

    /// A monitor over the GPUs found at startup.
    pub fn new(gpus: Vec<NvidiaGpuInfo>) -> (r: GpuMonitor)
        ensures
            r@ == gpus@,
    {
        GpuMonitor { gpus }
    }

    /// Whether any GPU is fully on.
    pub fn any_gpu_active(&self) -> (r: bool)
        ensures
            r == any_active(self@),
    {
        let n: usize = self.gpus.len();
        let mut i: usize = 0;
        while i < n
            invariant
                0 <= i <= n,
                n == self.gpus@.len(),
                forall|j: int|
                    0 <= j < i ==> (#[trigger] self.gpus@[j]).power_state != GpuPowerState::D0,
            decreases n - i,
        {
            let is_d0: bool = match self.gpus[i].power_state {
                GpuPowerState::D0 => true,
                _ => false,
            };
            if is_d0 {
                assert(self.gpus@[i as int].power_state == GpuPowerState::D0);
                return true;
            }
            i = i + 1;
        }
        false
    }

    /// Whether any GPU has resizable BAR on.
    pub fn rebar_enabled(&self) -> (r: bool)
        ensures
            r == any_rebar(self@),
    {
        let n: usize = self.gpus.len();
        let mut i: usize = 0;
        while i < n
            invariant
                0 <= i <= n,
                n == self.gpus@.len(),
                forall|j: int| 0 <= j < i ==> !(#[trigger] self.gpus@[j]).rebar_enabled,
            decreases n - i,
        {
            if self.gpus[i].rebar_enabled {
                assert(self.gpus@[i as int].rebar_enabled);
                return true;
            }
            i = i + 1;
        }
        false
    }

    /// The total BAR1 window size over all GPUs, held at the maximum
    /// only on overflow.
    pub fn total_bar1_size(&self) -> (r: u64)
        ensures
            bar1_total_upto(self@, self@.len() as int) <= u64::MAX ==> r == bar1_total_upto(
                self@,
                self@.len() as int,
            ),
            bar1_total_upto(self@, self@.len() as int) > u64::MAX ==> r == u64::MAX,
    {
        let n: usize = self.gpus.len();
        let mut total: u64 = 0;
        let mut i: usize = 0;
        while i < n
            invariant
                0 <= i <= n,
                n == self.gpus@.len(),
                bar1_total_upto(self.gpus@, i as int) <= u64::MAX ==> total == bar1_total_upto(
                    self.gpus@,
                    i as int,
                ),
                bar1_total_upto(self.gpus@, i as int) > u64::MAX ==> total == u64::MAX,
            decreases n - i,
        {
            let add = self.gpus[i].bar1_size;
            if total <= u64::MAX - add {
                total = total + add;
            } else {
                total = u64::MAX;
            }
            i = i + 1;
        }
        total
    }

    /// Adopt freshly observed power states, one per GPU in order; any
    /// extra entries are ignored. Returns whether any state changed.
    pub fn update_power_states(&mut self, observed: &Vec<GpuPowerState>) -> (changed: bool)
        ensures
            final(self)@.len() == old(self)@.len(),
            forall|i: int| #![trigger final(self)@[i]]
                0 <= i < final(self)@.len() ==> final(self)@[i] == (if i < observed@.len() {
                    NvidiaGpuInfo { power_state: observed@[i], ..old(self)@[i] }
                } else {
                    old(self)@[i]
                }),
            changed == exists|i: int|
                0 <= i < old(self)@.len() && i < observed@.len() && (#[trigger] old(
                    self,
                )@[i]).power_state != observed@[i],
    {
        let ghost pre = self.gpus@;
        let n: usize = self.gpus.len();
        let mut changed: bool = false;
        let mut i: usize = 0;
        while i < n
            invariant
                0 <= i <= n,
                n == self.gpus@.len(),
                n == pre.len(),
                forall|j: int| #![trigger self.gpus@[j]]
                    0 <= j < i ==> self.gpus@[j] == (if j < observed@.len() {
                        NvidiaGpuInfo { power_state: observed@[j], ..pre[j] }
                    } else {
                        pre[j]
                    }),
                forall|j: int| #![trigger self.gpus@[j]] i <= j < n ==> self.gpus@[j] == pre[j],
                changed == exists|j: int|
                    0 <= j < i && j < observed@.len() && (#[trigger] pre[j]).power_state
                        != observed@[j],
            decreases n - i,
        {
            let ghost changed_pre = changed;
            if i < observed.len() {
                let new_state = observed[i];
                let same: bool = match (self.gpus[i].power_state, new_state) {
                    (GpuPowerState::D0, GpuPowerState::D0) => true,
                    (GpuPowerState::D1, GpuPowerState::D1) => true,
                    (GpuPowerState::D2, GpuPowerState::D2) => true,
                    (GpuPowerState::D3Hot, GpuPowerState::D3Hot) => true,
                    (GpuPowerState::D3Cold, GpuPowerState::D3Cold) => true,
                    (GpuPowerState::Unknown, GpuPowerState::Unknown) => true,
                    _ => false,
                };
                if !same {
                    changed = true;
                    assert(pre[i as int].power_state != observed@[i as int]);
                }
                let old_gpu = &self.gpus[i];
                let updated = NvidiaGpuInfo {
                    pci_address: old_gpu.pci_address.clone(),
                    model: old_gpu.model.clone(),
                    uuid: match &old_gpu.uuid {
                        Some(u) => Some(u.clone()),
                        None => None,
                    },
                    rebar_enabled: old_gpu.rebar_enabled,
                    bar1_size: old_gpu.bar1_size,
                    power_state: new_state,
                    numa_node: old_gpu.numa_node,
                    pcie_speed: old_gpu.pcie_speed.clone(),
                    pcie_width: old_gpu.pcie_width.clone(),
                };
                proof {
                    assert(updated == NvidiaGpuInfo { power_state: observed@[i as int], ..pre[i as int] });
                }
                self.gpus.set(i, updated);
            }
            proof {
                if changed {
                    if changed_pre {
                        let j = choose|j: int|
                            0 <= j < i && j < observed@.len() && (#[trigger] pre[j]).power_state
                                != observed@[j];
                        assert(0 <= j < i + 1);
                    } else {
                        assert(pre[i as int].power_state != observed@[i as int]);
                    }
                } else {
                    assert forall|j: int|
                        0 <= j < i + 1 && j < observed@.len() implies (#[trigger] pre[j]).power_state
                        == observed@[j] by {
                        if j < i as int {
                            if pre[j].power_state != observed@[j] {
                                assert(false);
                            }
                        }
                    }
                }
            }
            i = i + 1;
        }
        changed
    }

    /// Number of GPUs.
    pub fn gpu_count(&self) -> (r: usize)
        ensures
            r == self@.len(),
    {
        self.gpus.len()
    }

    /// The first (primary) GPU, when one exists.
    pub fn primary_gpu(&self) -> (r: Option<&NvidiaGpuInfo>)
        ensures
            r is Some <==> self@.len() > 0,
            r is Some ==> *r->0 == self@[0],
    {
        if self.gpus.len() > 0 {
            Some(&self.gpus[0])
        } else {
            None
        }
    }

    /// A short text summary of the GPUs.
    pub fn summary(&self) -> (r: String) {
        if self.gpus.len() == 0 {
            return String::from_str("no discrete GPUs detected");
        }
        let mut msg: Vec<u8> = Vec::new();
        let count = self.gpus.len() as u64;
        let digits = crate::textnum::u64_to_dec(count);
        crate::profile_text::append_bytes(&mut msg, digits.as_slice());
        let mid: Vec<u8> = vec![32u8, 71u8, 80u8, 85u8, 40u8, 115u8, 41u8, 44u8, 32u8];  //  GPU(s),
        crate::profile_text::append_bytes(&mut msg, mid.as_slice());
        if self.rebar_enabled() {
            let w: Vec<u8> = vec![114u8, 101u8, 98u8, 97u8, 114u8, 32u8, 111u8, 110u8];  // rebar on
            crate::profile_text::append_bytes(&mut msg, w.as_slice());
        } else {
            let w: Vec<u8> = vec![
                114u8, 101u8, 98u8, 97u8, 114u8, 32u8, 111u8, 102u8, 102u8,
            ];  // rebar off
            crate::profile_text::append_bytes(&mut msg, w.as_slice());
        }
        crate::text::bytes_to_string(msg.as_slice())
    }
}


impl GpuMonitor {
    /// The PCI addresses of the GPUs, in order.
    pub fn pci_addresses(&self) -> (r: Vec<String>)
        ensures
            r@.len() == self@.len(),
    {
        let n: usize = self.gpus.len();
        let mut out: Vec<String> = Vec::new();
        let mut i: usize = 0;
        while i < n
            invariant
                0 <= i <= n,
                n == self.gpus@.len(),
                out@.len() == i,
            decreases n - i,
        {
            out.push(self.gpus[i].pci_address.clone());
            i = i + 1;
        }
        out
    }
}

} // verus!
