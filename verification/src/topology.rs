//! Hardware topology: CPU count, cache-coherent cluster grouping, the
//! stacked-cache cluster, SMT siblings and NUMA nodes, all computed from
//! the text of the sysfs and procfs files the caller read.

use vstd::prelude::*;

use vstd::string::StringExecFns;
use vstd::string::StringSliceAdditionalSpecFns;

use crate::patterns::x3d_model_patterns;
use crate::patterns::x3d_model_pattern_vec;
use crate::text::contains_any;
use crate::text::matches_any;
use crate::text::sep_pos_from;
use crate::text::split_at_seps;
use crate::text::split_seq;
use crate::text::subvec;
use crate::text::trim_exact;
use crate::text::trim_seq;
use crate::text::views_of;
use crate::textnum::all_digits;
use crate::textnum::dec_value;
use crate::textnum::parse_u32;

verus! {

/// A digit string whose value fits in 32 bits.
pub open spec fn ok32(s: Seq<u8>) -> bool {
    s.len() > 0 && all_digits(s) && dec_value(s) <= u32::MAX
}

/// The CPU count named by the `online` file: for a range "0-N" it is N+1;
/// otherwise the number of comma-separated entries.
pub open spec fn spec_nr_cpus(s: Seq<u8>) -> Option<u32> {
    let t = trim_seq(s);
    let d = sep_pos_from(t, 45, 0);
    if 0 <= d < t.len() {
        let end = t.subrange(d + 1, t.len() as int);
        if ok32(end) && dec_value(end) < u32::MAX {
            Some((dec_value(end) + 1) as u32)
        } else {
            None
        }
    } else {
        if split_seq(t, 44).len() <= u32::MAX {
            Some(split_seq(t, 44).len() as u32)
        } else {
            None
        }
    }
}

/// Number of online CPUs, from the text of the `online` file.
pub fn detect_nr_cpus(online: &str) -> (r: Option<u32>)
    ensures
        r == spec_nr_cpus(online.spec_bytes()),
{
    let t = trim_exact(online.as_bytes());
    let n: usize = t.len();
    let mut d: usize = 0;
    while d < n && t[d] != 45
        invariant
            0 <= d <= n,
            n == t@.len(),
            forall|j: int| 0 <= j < d ==> t@[j] != 45,
        decreases n - d,
    {
        d = d + 1;
    }
    proof {
        crate::text::lemma_sep_pos_from(t@, 45, 0, d as int);
    }
    if d < n {
        let end = subvec(t.as_slice(), d + 1, n);
        match parse_u32(end.as_slice()) {
            Some(v) => {
                if v < 0xffff_ffff {
                    Some(v + 1)
                } else {
                    None
                }
            },
            None => None,
        }
    } else {
        let pieces = split_at_seps(t.as_slice(), 44);
        let count: usize = pieces.len();
        proof {
            assert(views_of(pieces@).len() == pieces@.len());
        }
        if count <= 0xffff_ffff {
            Some(count as u32)
        } else {
            None
        }
    }
}

/// Whether the model name is one of the known stacked-cache parts.
pub open spec fn spec_is_x3d(model: Seq<u8>) -> bool {
    matches_any(model, x3d_model_patterns())
}

/// Whether this is a stacked-cache (X3D) processor, by model name.
pub fn is_x3d_processor(model_name: &str) -> (r: bool)
    ensures
        r == spec_is_x3d(model_name.spec_bytes()),
{
    let pats = x3d_model_pattern_vec();
    proof {
        assert(views_of(pats@) =~= x3d_model_patterns());
    }
    contains_any(model_name.as_bytes(), &pats)
}

/// The cluster that carries the stacked cache. Single-cluster parts have
/// it on cluster 0; on known multi-cluster parts it is cluster 0 as well,
/// and cluster 0 is the standing assumption otherwise.
pub fn detect_vcache_ccd(model_name: &str, nr_ccds: u32) -> (r: Option<u32>)
    ensures
        r == Some(0u32),
{
    let b = model_name.as_bytes();
    let single0: Vec<u8> = vec![55u8, 56u8, 48u8, 48u8, 88u8, 51u8, 68u8];  // 7800X3D
    let single1: Vec<u8> = vec![57u8, 56u8, 48u8, 48u8, 88u8, 51u8, 68u8];  // 9800X3D
    if crate::text::contains_bytes(b, single0.as_slice()) || crate::text::contains_bytes(
        b,
        single1.as_slice(),
    ) {
        // Single-cluster part: every core sits under the stacked cache.
        return Some(0);
    }
    if nr_ccds >= 2 {
        // Multi-cluster stacked parts carry the stacked cache on cluster 0.
        return Some(0);
    }
    Some(0)
}

/// A cpu-list piece denotes a range "a-b".
pub open spec fn piece_range(piece: Seq<u8>) -> Option<(u32, u32)> {
    let d = sep_pos_from(piece, 45, 0);
    if 0 <= d < piece.len() {
        let a = piece.subrange(0, d);
        let b = piece.subrange(d + 1, piece.len() as int);
        if ok32(a) && ok32(b) {
            Some(((dec_value(a) as u32), (dec_value(b) as u32)))
        } else {
            None
        }
    } else {
        None
    }
}

/// A cpu-list piece without a dash denotes one CPU.
pub open spec fn piece_single(piece: Seq<u8>) -> Option<u32> {
    if ok32(piece) {
        Some(dec_value(piece) as u32)
    } else {
        None
    }
}

/// The CPUs one cpu-list piece names.
pub open spec fn piece_cpus(piece: Seq<u8>) -> Seq<u32> {
    let d = sep_pos_from(piece, 45, 0);
    if 0 <= d < piece.len() {
        match piece_range(piece) {
            Some((a, b)) => {
                if a <= b {
                    Seq::new((b - a + 1) as nat, |i: int| (a + i) as u32)
                } else {
                    Seq::<u32>::empty()
                }
            },
            None => Seq::<u32>::empty(),
        }
    } else {
        match piece_single(piece) {
            Some(v) => seq![v],
            None => Seq::<u32>::empty(),
        }
    }
}

/// The CPUs a list of pieces names, in order.
pub open spec fn cpus_of(pieces: Seq<Seq<u8>>) -> Seq<u32>
    decreases pieces.len(),
{
    if pieces.len() == 0 {
        Seq::<u32>::empty()
    } else {
        piece_cpus(pieces[0]) + cpus_of(pieces.drop_first())
    }
}

proof fn lemma_cpus_of_snoc(pieces: Seq<Seq<u8>>, x: Seq<u8>)
    ensures
        cpus_of(pieces.push(x)) == cpus_of(pieces) + piece_cpus(x),
    decreases pieces.len(),
{
    if pieces.len() == 0 {
        assert(pieces.push(x).drop_first() =~= Seq::<Seq<u8>>::empty());
        assert(pieces.push(x)[0] == x);
        assert(cpus_of(pieces.push(x)) == piece_cpus(x) + cpus_of(Seq::<Seq<u8>>::empty()));
        assert(cpus_of(Seq::<Seq<u8>>::empty()) =~= Seq::<u32>::empty());
        assert(piece_cpus(x) + Seq::<u32>::empty() =~= piece_cpus(x));
        assert(cpus_of(pieces) =~= Seq::<u32>::empty());
        assert(Seq::<u32>::empty() + piece_cpus(x) =~= piece_cpus(x));
    } else {
        assert(pieces.push(x).drop_first() =~= pieces.drop_first().push(x));
        lemma_cpus_of_snoc(pieces.drop_first(), x);
        assert(pieces.push(x)[0] == pieces[0]);
        assert(cpus_of(pieces.push(x)) =~= cpus_of(pieces) + piece_cpus(x));
    }
}

/// The CPUs a cpu-list string like "0-3,16-19" names.
pub open spec fn spec_parse_cpu_list(s: Seq<u8>) -> Seq<u32> {
    cpus_of(split_seq(trim_seq(s), 44))
}

/// The CPUs one piece of an already-split cpu list names.
fn parse_piece(piece: &Vec<u8>) -> (r: Vec<u32>)
    ensures
        r@ == piece_cpus(piece@),
{
    let n: usize = piece.len();
    let mut d: usize = 0;
    while d < n && piece[d] != 45
        invariant
            0 <= d <= n,
            n == piece@.len(),
            forall|j: int| 0 <= j < d ==> piece@[j] != 45,
        decreases n - d,
    {
        d = d + 1;
    }
    proof {
        crate::text::lemma_sep_pos_from(piece@, 45, 0, d as int);
    }
    let mut out: Vec<u32> = Vec::new();
    if d < n {
        let left = subvec(piece.as_slice(), 0, d);
        let right = subvec(piece.as_slice(), d + 1, n);
        match (parse_u32(left.as_slice()), parse_u32(right.as_slice())) {
            (Some(a), Some(b)) => {
                if a <= b {
                    let mut cur: u64 = a as u64;
                    while cur <= b as u64
                        invariant
                            a as u64 <= cur <= b as u64 + 1,
                            out@.len() == cur - a as u64,
                            forall|i: int| 0 <= i < out@.len() ==> out@[i] == (a + i) as u32,
                        decreases b as u64 + 1 - cur,
                    {
                        out.push(cur as u32);
                        cur = cur + 1;
                    }
                    proof {
                        assert(out@ =~= piece_cpus(piece@));
                    }
                } else {
                    proof {
                        assert(out@ =~= piece_cpus(piece@));
                    }
                }
            },
            _ => {
                proof {
                    assert(out@ =~= piece_cpus(piece@));
                }
            },
        }
    } else {
        match parse_u32(piece.as_slice()) {
            Some(v) => {
                out.push(v);
                proof {
                    assert(out@ =~= piece_cpus(piece@));
                }
            },
            None => {
                proof {
                    assert(out@ =~= piece_cpus(piece@));
                }
            },
        }
    }
    out
}

/// Parse a cpu-list string like "0,16" or "0-3,16-19" into CPU numbers.
pub fn parse_cpu_list(list: &str) -> (r: Vec<u32>)
    ensures
        r@ == spec_parse_cpu_list(list.spec_bytes()),
{
    let t = trim_exact(list.as_bytes());
    let pieces = split_at_seps(t.as_slice(), 44);
    let m: usize = pieces.len();
    let mut out: Vec<u32> = Vec::new();
    let mut k: usize = 0;
    proof {
        assert(views_of(pieces@).subrange(0, 0) =~= Seq::<Seq<u8>>::empty());
        assert(out@ =~= cpus_of(views_of(pieces@).subrange(0, 0)));
    }
    while k < m
        invariant
            0 <= k <= m,
            m == pieces@.len(),
            views_of(pieces@) == split_seq(trim_seq(list.spec_bytes()), 44),
            out@ == cpus_of(views_of(pieces@).subrange(0, k as int)),
        decreases m - k,
    {
        let piece_cpus_vec = parse_piece(&pieces[k]);
        let ghost out_pre = out@;
        let pn: usize = piece_cpus_vec.len();
        let mut j: usize = 0;
        while j < pn
            invariant
                0 <= j <= pn,
                pn == piece_cpus_vec@.len(),
                out@ == out_pre + piece_cpus_vec@.subrange(0, j as int),
            decreases pn - j,
        {
            out.push(piece_cpus_vec[j]);
            proof {
                assert(out@ =~= out_pre + piece_cpus_vec@.subrange(0, j + 1));
            }
            j = j + 1;
        }
        proof {
            assert(piece_cpus_vec@.subrange(0, pn as int) =~= piece_cpus_vec@);
            assert(views_of(pieces@).subrange(0, k + 1) =~= views_of(pieces@).subrange(
                0,
                k as int,
            ).push(pieces@[k as int]@));
            lemma_cpus_of_snoc(views_of(pieces@).subrange(0, k as int), pieces@[k as int]@);
        }
        k = k + 1;
    }
    proof {
        assert(views_of(pieces@).subrange(0, m as int) =~= views_of(pieces@));
    }
    out
}

/// Whether `cpu` lies in the range or single value a piece names.
pub open spec fn in_piece(cpu: u32, piece: Seq<u8>) -> bool {
    let d = sep_pos_from(piece, 45, 0);
    if 0 <= d < piece.len() {
        match piece_range(piece) {
            Some((a, b)) => a <= cpu && cpu <= b,
            None => false,
        }
    } else {
        piece_single(piece) == Some(cpu)
    }
}

/// Whether `cpu` is named by a cpu-list string.
pub open spec fn spec_cpu_in_list(cpu: u32, s: Seq<u8>) -> bool {
    exists|k: int|
        0 <= k < split_seq(trim_seq(s), 44).len() && in_piece(
            cpu,
            #[trigger] split_seq(trim_seq(s), 44)[k],
        )
}

/// Check whether a CPU is in a cpu-list string like "0-7,16-23".
pub fn cpu_in_list(cpu: u32, list: &str) -> (r: bool)
    ensures
        r == spec_cpu_in_list(cpu, list.spec_bytes()),
{
    let t = trim_exact(list.as_bytes());
    let pieces = split_at_seps(t.as_slice(), 44);
    let m: usize = pieces.len();
    let mut k: usize = 0;
    while k < m
        invariant
            0 <= k <= m,
            m == pieces@.len(),
            views_of(pieces@) == split_seq(trim_seq(list.spec_bytes()), 44),
            forall|j: int| 0 <= j < k ==> !in_piece(cpu, #[trigger] views_of(pieces@)[j]),
        decreases m - k,
    {
        let piece: &Vec<u8> = &pieces[k];
        let n: usize = piece.len();
        let mut d: usize = 0;
        while d < n && piece[d] != 45
            invariant
                0 <= d <= n,
                n == piece@.len(),
                forall|j: int| 0 <= j < d ==> piece@[j] != 45,
            decreases n - d,
        {
            d = d + 1;
        }
        proof {
            crate::text::lemma_sep_pos_from(piece@, 45, 0, d as int);
        }
        if d < n {
            let left = subvec(piece.as_slice(), 0, d);
            let right = subvec(piece.as_slice(), d + 1, n);
            match (parse_u32(left.as_slice()), parse_u32(right.as_slice())) {
                (Some(a), Some(b)) => {
                    if a <= cpu && cpu <= b {
                        assert(in_piece(cpu, views_of(pieces@)[k as int]));
                        return true;
                    }
                },
                _ => {},
            }
        } else {
            match parse_u32(piece.as_slice()) {
                Some(v) => {
                    if v == cpu {
                        assert(in_piece(cpu, views_of(pieces@)[k as int]));
                        return true;
                    }
                },
                None => {},
            }
        }
        k = k + 1;
    }
    false
}

/// The first CPU in the list other than `cpu` and below `nr`, from `from`
/// on; -1 when none.
pub open spec fn sib_from(cpus: Seq<u32>, cpu: u32, nr: u32, from: int) -> i32
    decreases cpus.len() - from,
{
    if from < 0 || from >= cpus.len() {
        -1i32
    } else if cpus[from] != cpu && cpus[from] < nr {
        cpus[from] as i32
    } else {
        sib_from(cpus, cpu, nr, from + 1)
    }
}

/// The SMT sibling a siblings-list string names for `cpu`: the first
/// listed CPU other than `cpu` itself that is in range; -1 when none.
pub open spec fn spec_sibling_of(s: Seq<u8>, cpu: u32, nr: u32) -> i32 {
    sib_from(spec_parse_cpu_list(s), cpu, nr, 0)
}

/// Some CPU among the first `upto` has a sibling.
pub open spec fn any_sibling(s: Seq<i32>, upto: int) -> bool {
    exists|i: int| 0 <= i < upto && #[trigger] s[i] != -1
}

/// Per-CPU SMT siblings from the per-CPU `thread_siblings_list` texts
/// (None where the file was unreadable). SMT is enabled when any CPU has
/// a sibling.
pub fn detect_smt_siblings(nr_cpus: u32, sibling_lists: &Vec<Option<String>>) -> (r: (
    Vec<i32>,
    bool,
))
    requires
        nr_cpus >= 1,
    ensures
        r.0@.len() == nr_cpus,
        forall|i: int| #![trigger r.0@[i]]
            0 <= i < nr_cpus ==> r.0@[i] == (if 0 <= i < sibling_lists@.len()
                && sibling_lists@[i] is Some {
                spec_sibling_of(
                    crate::text::string_bytes(sibling_lists@[i]->0@),
                    i as u32,
                    nr_cpus,
                )
            } else {
                -1i32
            }),
        r.1 == any_sibling(r.0@, nr_cpus as int),
{
    let mut sibs: Vec<i32> = Vec::new();
    let mut smt: bool = false;
    let mut cpu: u32 = 0;
    while cpu < nr_cpus
        invariant
            0 <= cpu <= nr_cpus,
            sibs@.len() == cpu,
            forall|i: int| #![trigger sibs@[i]]
                0 <= i < cpu ==> sibs@[i] == (if 0 <= i < sibling_lists@.len()
                    && sibling_lists@[i] is Some {
                    spec_sibling_of(
                        crate::text::string_bytes(sibling_lists@[i]->0@),
                        i as u32,
                        nr_cpus,
                    )
                } else {
                    -1i32
                }),
            smt == any_sibling(sibs@, cpu as int),
        decreases nr_cpus - cpu,
    {
        let idx = cpu as usize;
        let mut sib: i32 = -1;
        if idx < sibling_lists.len() {
            if let Some(list) = &sibling_lists[idx] {
                sib = first_sibling(list.as_str(), cpu, nr_cpus);
            }
        }
        let ghost smt_pre = smt;
        let ghost sibs_pre = sibs@;
        sibs.push(sib);
        if sib != -1 {
            smt = true;
            assert(sibs@[cpu as int] != -1);
        }
        proof {
            if smt {
                if sib != -1 {
                    assert(sibs@[cpu as int] != -1);
                } else {
                    let i = choose|i: int| 0 <= i < cpu && #[trigger] sibs_pre[i] != -1;
                    assert(sibs@[i] != -1);
                }
                assert(any_sibling(sibs@, cpu + 1));
            } else {
                assert forall|i: int| 0 <= i < cpu + 1 implies #[trigger] sibs@[i] == -1 by {
                    if i < cpu as int {
                        assert(sibs@[i] == sibs_pre[i]);
                        if sibs_pre[i] != -1 {
                            assert(false);
                        }
                    }
                }
            }
        }
        cpu = cpu + 1;
    }
    (sibs, smt)
}

/// The first sibling in the list other than `cpu` and below `nr`.
fn first_sibling(list: &str, cpu: u32, nr: u32) -> (r: i32)
    ensures
        r == spec_sibling_of(list.spec_bytes(), cpu, nr),
{
    let cpus = parse_cpu_list(list);
    let n: usize = cpus.len();
    let mut i: usize = 0;
    while i < n
        invariant
            0 <= i <= n,
            n == cpus@.len(),
            cpus@ == spec_parse_cpu_list(list.spec_bytes()),
            sib_from(cpus@, cpu, nr, 0) == sib_from(cpus@, cpu, nr, i as int),
        decreases n - i,
    {
        let c = cpus[i];
        if c != cpu && c < nr {
            return c as i32;
        }
        i = i + 1;
    }
    -1
}


/// The "model name" key of a cpuinfo line.
pub open spec fn model_name_key() -> Seq<u8> {
    seq![109u8, 111u8, 100u8, 101u8, 108u8, 32u8, 110u8, 97u8, 109u8, 101u8]
}

/// The model string a cpuinfo line carries, if it is a "model name" line
/// with a colon: the trimmed text after the colon.
pub open spec fn line_model_value(line: Seq<u8>) -> Option<Seq<u8>> {
    if crate::text::starts_with_seq(line, model_name_key()) {
        let c = sep_pos_from(line, 58, 0);
        if 0 <= c < line.len() {
            Some(trim_seq(line.subrange(c + 1, line.len() as int)))
        } else {
            None
        }
    } else {
        None
    }
}

/// The first model value among the lines, from `from` on.
pub open spec fn first_model_from(lines: Seq<Seq<u8>>, from: int) -> Option<Seq<u8>>
    decreases lines.len() - from,
{
    if from < 0 || from >= lines.len() {
        None
    } else if line_model_value(lines[from]) is Some {
        line_model_value(lines[from])
    } else {
        first_model_from(lines, from + 1)
    }
}

/// The model string a cpuinfo text names: the value of its first
/// "model name" line.
pub open spec fn spec_model_name(s: Seq<u8>) -> Option<Seq<u8>> {
    first_model_from(split_seq(s, 10), 0)
}

/// The CPU model string from the cpuinfo text, or "Unknown" when no
/// "model name" line exists. For ASCII content the returned characters
/// are exactly the bytes of the line's value.
pub fn detect_model_name(cpuinfo: &str) -> (r: String)
    ensures
        ({
            match spec_model_name(cpuinfo.spec_bytes()) {
                Some(v) => (forall|i: int| 0 <= i < v.len() ==> v[i] < 128) ==> r@ == v.map_values(
                    |b: u8| b as char,
                ),
                None => r@ == "Unknown"@,
            }
        }),
{
    let lines = split_at_seps(cpuinfo.as_bytes(), 10);
    let m: usize = lines.len();
    let key: Vec<u8> = vec![109u8, 111u8, 100u8, 101u8, 108u8, 32u8, 110u8, 97u8, 109u8, 101u8];
    proof {
        assert(key@ =~= model_name_key());
    }
    let mut k: usize = 0;
    while k < m
        invariant
            0 <= k <= m,
            m == lines@.len(),
            key@ == model_name_key(),
            views_of(lines@) == split_seq(cpuinfo.spec_bytes(), 10),
            first_model_from(views_of(lines@), 0) == first_model_from(views_of(lines@), k as int),
        decreases m - k,
    {
        let line: &Vec<u8> = &lines[k];
        if crate::text::starts_with_bytes(line.as_slice(), key.as_slice()) {
            let n: usize = line.len();
            let mut c: usize = 0;
            while c < n && line[c] != 58
                invariant
                    0 <= c <= n,
                    n == line@.len(),
                    forall|j: int| 0 <= j < c ==> line@[j] != 58,
                decreases n - c,
            {
                c = c + 1;
            }
            proof {
                crate::text::lemma_sep_pos_from(line@, 58, 0, c as int);
            }
            if c < n {
                let raw = subvec(line.as_slice(), c + 1, n);
                let value = trim_exact(raw.as_slice());
                proof {
                    assert(line_model_value(views_of(lines@)[k as int]) == Some(value@));
                }
                return crate::text::bytes_to_string(value.as_slice());
            }
        }
        k = k + 1;
    }
    let r = String::from_str("Unknown");
    r
}

/// Per-CPU values read from one CPU's topology directory (None where the
/// file was unreadable).
pub struct CpuTopoFiles {
    /// The cluster id file (the shared-L3 complex on this architecture).
    pub cluster_id: Option<u32>,
    /// The core id file.
    pub core_id: Option<u32>,
    /// The NUMA node this CPU was found under.
    pub node: Option<u32>,
}

/// The cluster a CPU is grouped into: eight sibling cores per cluster, an
/// approximation documented as such until a precise kernel-exported
/// grouping exists.
pub open spec fn spec_ccd_of(core_id: Option<u32>, cpu: u32) -> u32 {
    (match core_id {
        Some(c) => c,
        None => cpu,
    } / 8) as u32
}

/// Per-CPU cluster, sub-cluster and NUMA assignments from the per-CPU
/// readings; missing readings fall back to defaults.
pub fn detect_cpu_topology(nr_cpus: u32, cpus: &Vec<CpuTopoFiles>) -> (r: (
    Vec<u32>,
    Vec<u32>,
    Vec<u32>,
))
    ensures
        r.0@.len() == nr_cpus && r.1@.len() == nr_cpus && r.2@.len() == nr_cpus,
        forall|i: int| #![trigger r.0@[i]]
            0 <= i < nr_cpus ==> r.0@[i] == spec_ccd_of(
                if 0 <= i < cpus@.len() {
                    cpus@[i].core_id
                } else {
                    None
                },
                i as u32,
            ),
        forall|i: int| #![trigger r.1@[i]]
            0 <= i < nr_cpus ==> r.1@[i] == (if 0 <= i < cpus@.len() && cpus@[i].cluster_id
                is Some {
                cpus@[i].cluster_id->0
            } else {
                0u32
            }),
        forall|i: int| #![trigger r.2@[i]]
            0 <= i < nr_cpus ==> r.2@[i] == (if 0 <= i < cpus@.len() && cpus@[i].node is Some {
                cpus@[i].node->0
            } else {
                0u32
            }),
        forall|i: int| #![trigger r.0@[i]] 0 <= i < nr_cpus ==> r.0@[i] <= u32::MAX / 8,
{
    let mut ccd: Vec<u32> = Vec::new();
    let mut ccx: Vec<u32> = Vec::new();
    let mut node: Vec<u32> = Vec::new();
    let mut cpu: u32 = 0;
    while cpu < nr_cpus
        invariant
            0 <= cpu <= nr_cpus,
            ccd@.len() == cpu && ccx@.len() == cpu && node@.len() == cpu,
            forall|i: int| #![trigger ccd@[i]]
                0 <= i < cpu ==> ccd@[i] == spec_ccd_of(
                    if 0 <= i < cpus@.len() {
                        cpus@[i].core_id
                    } else {
                        None
                    },
                    i as u32,
                ),
            forall|i: int| #![trigger ccx@[i]]
                0 <= i < cpu ==> ccx@[i] == (if 0 <= i < cpus@.len() && cpus@[i].cluster_id
                    is Some {
                    cpus@[i].cluster_id->0
                } else {
                    0u32
                }),
            forall|i: int| #![trigger node@[i]]
                0 <= i < cpu ==> node@[i] == (if 0 <= i < cpus@.len() && cpus@[i].node is Some {
                    cpus@[i].node->0
                } else {
                    0u32
                }),
            forall|i: int| #![trigger ccd@[i]] 0 <= i < cpu ==> ccd@[i] <= u32::MAX / 8,
        decreases nr_cpus - cpu,
    {
        let idx = cpu as usize;
        let core: u32 = if idx < cpus.len() {
            match cpus[idx].core_id {
                Some(c) => c,
                None => cpu,
            }
        } else {
            cpu
        };
        ccd.push(core / 8);
        let cluster: u32 = if idx < cpus.len() {
            match cpus[idx].cluster_id {
                Some(c) => c,
                None => 0,
            }
        } else {
            0
        };
        ccx.push(cluster);
        let nd: u32 = if idx < cpus.len() {
            match cpus[idx].node {
                Some(n) => n,
                None => 0,
            }
        } else {
            0
        };
        node.push(nd);
        cpu = cpu + 1;
    }
    (ccd, ccx, node)
}

/// Everything the topology detector reads at startup, as file contents.
pub struct RawTopology {
    /// Text of the online-CPUs file.
    pub online: String,
    /// Text of the cpuinfo file.
    pub cpuinfo: String,
    /// Per-CPU topology readings.
    pub cpus: Vec<CpuTopoFiles>,
    /// Per-CPU thread-siblings-list texts.
    pub sibling_lists: Vec<Option<String>>,
}

/// The highest cluster id among the first `upto` CPUs.
pub open spec fn max_ccd_upto(ccds: Seq<u32>, upto: int) -> u32
    decreases upto,
{
    if upto <= 0 {
        0u32
    } else if ccds[upto - 1] > max_ccd_upto(ccds, upto - 1) {
        ccds[upto - 1]
    } else {
        max_ccd_upto(ccds, upto - 1)
    }
}

/// CPU topology information.
pub struct CpuTopology {
    pub nr_cpus: u32,
    pub nr_ccds: u32,
    pub vcache_ccd: Option<u32>,
    pub cpu_to_ccd: Vec<u32>,
    pub cpu_to_ccx: Vec<u32>,
    pub cpu_to_node: Vec<u32>,
    /// SMT sibling CPU (-1 if none).
    pub cpu_to_sibling: Vec<i32>,
    pub smt_enabled: bool,
    pub is_x3d: bool,
    pub model_name: String,
}

impl CpuTopology {
    /// The topology is consistent: at least one CPU and one cluster, one
    /// entry per CPU in each table, every CPU's cluster id below the
    /// cluster count, and the stacked-cache cluster, when set, a real one.
    pub open spec fn wf(&self) -> bool {
        &&& self.nr_cpus >= 1
        &&& self.nr_ccds >= 1
        &&& self.cpu_to_ccd@.len() == self.nr_cpus
        &&& self.cpu_to_ccx@.len() == self.nr_cpus
        &&& self.cpu_to_node@.len() == self.nr_cpus
        &&& self.cpu_to_sibling@.len() == self.nr_cpus
        &&& forall|i: int|
            0 <= i < self.nr_cpus ==> #[trigger] self.cpu_to_ccd@[i] < self.nr_ccds
        &&& (self.vcache_ccd is Some ==> self.vcache_ccd->0 < self.nr_ccds)
    }
}

/// The stacked-cache cluster, when set, names a real cluster: it lies in
/// [0, nr_ccds).
pub proof fn lemma_stacked_cluster_in_range(t: CpuTopology)
    requires
        t.wf(),
    ensures
        t.vcache_ccd is Some ==> 0 <= t.vcache_ccd->0 < t.nr_ccds,
{
}

/// Build the topology from the raw file contents. Unreadable files fall
/// back to defaults (one CPU, one cluster, no SMT); detection never fails.
pub fn detect_topology(raw: RawTopology) -> (t: CpuTopology)
    ensures
        t.wf(),
        t.nr_cpus == (match spec_nr_cpus(crate::text::string_bytes(raw.online@)) {
            Some(v) => if v == 0 {
                1u32
            } else {
                v
            },
            None => 1u32,
        }),
        t.is_x3d == spec_is_x3d(crate::text::string_bytes(t.model_name@)),
        t.vcache_ccd == (if t.is_x3d {
            Some(0u32)
        } else {
            None::<u32>
        }),
        t.nr_ccds == max_ccd_upto(t.cpu_to_ccd@, t.nr_cpus as int) + 1,
        forall|i: int| #![trigger t.cpu_to_ccd@[i]]
            0 <= i < t.nr_cpus ==> t.cpu_to_ccd@[i] == spec_ccd_of(
                if 0 <= i < raw.cpus@.len() {
                    raw.cpus@[i].core_id
                } else {
                    None
                },
                i as u32,
            ),
        t.smt_enabled == any_sibling(t.cpu_to_sibling@, t.nr_cpus as int),
{
    let nr_cpus: u32 = match detect_nr_cpus(raw.online.as_str()) {
        Some(v) => {
            if v == 0 {
                1
            } else {
                v
            }
        },
        None => 1,
    };
    let model_name = detect_model_name(raw.cpuinfo.as_str());
    let is_x3d = is_x3d_processor(model_name.as_str());
    let (cpu_to_ccd, cpu_to_ccx, cpu_to_node) = detect_cpu_topology(nr_cpus, &raw.cpus);
    // Count the clusters: the highest cluster id plus one.
    let mut max_ccd: u32 = 0;
    let mut i: usize = 0;
    let n: usize = cpu_to_ccd.len();
    while i < n
        invariant
            0 <= i <= n,
            n == cpu_to_ccd@.len(),
            max_ccd <= u32::MAX / 8,
            forall|j: int| 0 <= j < n ==> #[trigger] cpu_to_ccd@[j] <= u32::MAX / 8,
            forall|j: int| 0 <= j < i ==> #[trigger] cpu_to_ccd@[j] <= max_ccd,
            max_ccd == max_ccd_upto(cpu_to_ccd@, i as int),
        decreases n - i,
    {
        if cpu_to_ccd[i] > max_ccd {
            max_ccd = cpu_to_ccd[i];
        }
        i = i + 1;
    }
    let nr_ccds: u32 = max_ccd + 1;
    let vcache_ccd: Option<u32> = if is_x3d {
        detect_vcache_ccd(model_name.as_str(), nr_ccds)
    } else {
        None
    };
    let (cpu_to_sibling, smt_enabled) = detect_smt_siblings(nr_cpus, &raw.sibling_lists);
    CpuTopology {
        nr_cpus,
        nr_ccds,
        vcache_ccd,
        cpu_to_ccd,
        cpu_to_ccx,
        cpu_to_node,
        cpu_to_sibling,
        smt_enabled,
        is_x3d,
        model_name,
    }
}


/// On a part whose CPUs all sit in cluster 0, the cluster count is
/// exactly one: a stacked-cache single-cluster model reports one cluster.
pub proof fn lemma_single_cluster_count(ccds: Seq<u32>, nr: int)
    requires
        0 <= nr <= ccds.len(),
        forall|j: int| 0 <= j < nr ==> #[trigger] ccds[j] == 0,
    ensures
        max_ccd_upto(ccds, nr) == 0,
    decreases nr,
{
    if nr > 0 {
        lemma_single_cluster_count(ccds, nr - 1);
    }
}

} // verus!
