//! Intel hybrid (P-core/E-core) detection: known hybrid generations by
//! model number, and per-CPU classification by capacity with a base
//! frequency fallback.

use vstd::prelude::*;

use vstd::string::StringSliceAdditionalSpecFns;

use crate::text::contains_bytes;
use crate::text::contains_seq;

verus! {

/// P-core capacity threshold (P-cores report 1024, E-cores about 768).
pub const PCORE_CAPACITY_THRESHOLD: u32 = 900;

/// The known hybrid model numbers with their generation.
pub open spec fn intel_hybrid_models() -> Seq<(Seq<u8>, u32)> {
    seq![
        (seq![49u8, 52u8, 57u8, 48u8, 48u8], 14u32),  // 14900
        (seq![49u8, 52u8, 55u8, 48u8, 48u8], 14u32),  // 14700
        (seq![49u8, 52u8, 54u8, 48u8, 48u8], 14u32),  // 14600
        (seq![49u8, 52u8, 53u8, 48u8, 48u8], 14u32),  // 14500
        (seq![49u8, 52u8, 52u8, 48u8, 48u8], 14u32),  // 14400
        (seq![49u8, 51u8, 57u8, 48u8, 48u8], 13u32),  // 13900
        (seq![49u8, 51u8, 55u8, 48u8, 48u8], 13u32),  // 13700
        (seq![49u8, 51u8, 54u8, 48u8, 48u8], 13u32),  // 13600
        (seq![49u8, 51u8, 53u8, 48u8, 48u8], 13u32),  // 13500
        (seq![49u8, 51u8, 52u8, 48u8, 48u8], 13u32),  // 13400
        (seq![49u8, 50u8, 57u8, 48u8, 48u8], 12u32),  // 12900
        (seq![49u8, 50u8, 55u8, 48u8, 48u8], 12u32),  // 12700
        (seq![49u8, 50u8, 54u8, 48u8, 48u8], 12u32),  // 12600
        (seq![49u8, 50u8, 53u8, 48u8, 48u8], 12u32),  // 12500
        (seq![49u8, 50u8, 52u8, 48u8, 48u8], 12u32),  // 12400
    ]
}

fn intel_hybrid_model_vec() -> (r: Vec<(Vec<u8>, u32)>)
    ensures
        r@.len() == intel_hybrid_models().len(),
        forall|k: int| #![trigger r@[k]]
            0 <= k < r@.len() ==> r@[k].0@ == intel_hybrid_models()[k].0 && r@[k].1
                == intel_hybrid_models()[k].1,
{
    let mut v: Vec<(Vec<u8>, u32)> = Vec::new();
    let p0: Vec<u8> = vec![49u8, 52u8, 57u8, 48u8, 48u8];  // 14900
    v.push((p0, 14));
    let p1: Vec<u8> = vec![49u8, 52u8, 55u8, 48u8, 48u8];  // 14700
    v.push((p1, 14));
    let p2: Vec<u8> = vec![49u8, 52u8, 54u8, 48u8, 48u8];  // 14600
    v.push((p2, 14));
    let p3: Vec<u8> = vec![49u8, 52u8, 53u8, 48u8, 48u8];  // 14500
    v.push((p3, 14));
    let p4: Vec<u8> = vec![49u8, 52u8, 52u8, 48u8, 48u8];  // 14400
    v.push((p4, 14));
    let p5: Vec<u8> = vec![49u8, 51u8, 57u8, 48u8, 48u8];  // 13900
    v.push((p5, 13));
    let p6: Vec<u8> = vec![49u8, 51u8, 55u8, 48u8, 48u8];  // 13700
    v.push((p6, 13));
    let p7: Vec<u8> = vec![49u8, 51u8, 54u8, 48u8, 48u8];  // 13600
    v.push((p7, 13));
    let p8: Vec<u8> = vec![49u8, 51u8, 53u8, 48u8, 48u8];  // 13500
    v.push((p8, 13));
    let p9: Vec<u8> = vec![49u8, 51u8, 52u8, 48u8, 48u8];  // 13400
    v.push((p9, 13));
    let p10: Vec<u8> = vec![49u8, 50u8, 57u8, 48u8, 48u8];  // 12900
    v.push((p10, 12));
    let p11: Vec<u8> = vec![49u8, 50u8, 55u8, 48u8, 48u8];  // 12700
    v.push((p11, 12));
    let p12: Vec<u8> = vec![49u8, 50u8, 54u8, 48u8, 48u8];  // 12600
    v.push((p12, 12));
    let p13: Vec<u8> = vec![49u8, 50u8, 53u8, 48u8, 48u8];  // 12500
    v.push((p13, 12));
    let p14: Vec<u8> = vec![49u8, 50u8, 52u8, 48u8, 48u8];  // 12400
    v.push((p14, 12));
    proof {
        assert(v@[0].0@ =~= intel_hybrid_models()[0].0);
        assert(v@[1].0@ =~= intel_hybrid_models()[1].0);
        assert(v@[2].0@ =~= intel_hybrid_models()[2].0);
        assert(v@[3].0@ =~= intel_hybrid_models()[3].0);
        assert(v@[4].0@ =~= intel_hybrid_models()[4].0);
        assert(v@[5].0@ =~= intel_hybrid_models()[5].0);
        assert(v@[6].0@ =~= intel_hybrid_models()[6].0);
        assert(v@[7].0@ =~= intel_hybrid_models()[7].0);
        assert(v@[8].0@ =~= intel_hybrid_models()[8].0);
        assert(v@[9].0@ =~= intel_hybrid_models()[9].0);
        assert(v@[10].0@ =~= intel_hybrid_models()[10].0);
        assert(v@[11].0@ =~= intel_hybrid_models()[11].0);
        assert(v@[12].0@ =~= intel_hybrid_models()[12].0);
        assert(v@[13].0@ =~= intel_hybrid_models()[13].0);
        assert(v@[14].0@ =~= intel_hybrid_models()[14].0);
    }
    v
}

/// The "Intel" brand string.
pub open spec fn intel_brand() -> Seq<u8> {
    seq![73u8, 110u8, 116u8, 101u8, 108u8]
}

/// First matching hybrid model from `from` on.
pub open spec fn gen_from(model: Seq<u8>, from: int) -> Option<u32>
    decreases intel_hybrid_models().len() - from,
{
    if from < 0 || from >= intel_hybrid_models().len() {
        None
    } else if contains_seq(model, intel_hybrid_models()[from].0) {
        Some(intel_hybrid_models()[from].1)
    } else {
        gen_from(model, from + 1)
    }
}

/// The hybrid generation a model name indicates: the model must name the
/// brand and one of the known hybrid model numbers.
pub open spec fn spec_intel_gen(model: Seq<u8>) -> Option<u32> {
    if contains_seq(model, intel_brand()) {
        gen_from(model, 0)
    } else {
        None
    }
}

/// Whether the model name indicates an Intel hybrid processor, and its
/// generation if so.
pub fn is_intel_hybrid_model(model_name: &str) -> (r: Option<u32>)
    ensures
        r == spec_intel_gen(model_name.spec_bytes()),
{
    let b = model_name.as_bytes();
    let brand: Vec<u8> = vec![73u8, 110u8, 116u8, 101u8, 108u8];  // Intel
    proof {
        assert(brand@ =~= intel_brand());
    }
    if !contains_bytes(b, brand.as_slice()) {
        return None;
    }
    let models = intel_hybrid_model_vec();
    let m: usize = models.len();
    let mut k: usize = 0;
    while k < m
        invariant
            0 <= k <= m,
            m == intel_hybrid_models().len(),
            b@ == model_name.spec_bytes(),
            contains_seq(model_name.spec_bytes(), intel_brand()),
            models@.len() == m,
            forall|j: int| #![trigger models@[j]]
                0 <= j < m ==> models@[j].0@ == intel_hybrid_models()[j].0 && models@[j].1
                    == intel_hybrid_models()[j].1,
            gen_from(model_name.spec_bytes(), 0) == gen_from(model_name.spec_bytes(), k as int),
        decreases m - k,
    {
        let entry: &(Vec<u8>, u32) = &models[k];
        proof {
            assert(models@[k as int].0@ == intel_hybrid_models()[k as int].0);
        }
        if contains_bytes(b, entry.0.as_slice()) {
            proof {
                assert(contains_seq(model_name.spec_bytes(), intel_hybrid_models()[k as int].0));
                assert(gen_from(model_name.spec_bytes(), k as int) == Some(
                    intel_hybrid_models()[k as int].1,
                ));
            }
            return Some(entry.1);
        }
        proof {
            assert(!contains_seq(model_name.spec_bytes(), intel_hybrid_models()[k as int].0));
            assert(gen_from(model_name.spec_bytes(), k as int) == gen_from(
                model_name.spec_bytes(),
                k + 1,
            ));
        }
        k = k + 1;
    }
    None
}


/// Intel hybrid processor information.
pub struct IntelHybridInfo {
    /// Whether this is an Intel hybrid processor.
    pub is_hybrid: bool,
    /// Processor generation.
    pub generation: u32,
    /// CPUs that are performance cores.
    pub pcore_cpus: Vec<u32>,
    /// CPUs that are efficiency cores.
    pub ecore_cpus: Vec<u32>,
    /// Per-CPU turbo rankings (higher boosts better).
    pub turbo_rankings: Vec<u32>,
}

impl Default for IntelHybridInfo {
    /// The non-hybrid default: no generation, no core lists.
    fn default() -> (r: IntelHybridInfo)
        ensures
            !r.is_hybrid,
            r.generation == 0,
            r.pcore_cpus@.len() == 0,
            r.ecore_cpus@.len() == 0,
            r.turbo_rankings@.len() == 0,
    {
        IntelHybridInfo {
            is_hybrid: false,
            generation: 0,
            pcore_cpus: Vec::new(),
            ecore_cpus: Vec::new(),
            turbo_rankings: Vec::new(),
        }
    }
}

/// The capacity a CPU reports: an unreadable file counts as full capacity.
pub open spec fn cap_of(caps: Seq<Option<u32>>, i: int) -> u32 {
    if 0 <= i < caps.len() && caps[i] is Some {
        caps[i]->0
    } else {
        1024u32
    }
}

/// The performance cores among the first `upto` CPUs, ascending.
pub open spec fn pcores_upto(caps: Seq<Option<u32>>, upto: int) -> Seq<u32>
    decreases upto,
{
    if upto <= 0 {
        Seq::<u32>::empty()
    } else if cap_of(caps, upto - 1) >= PCORE_CAPACITY_THRESHOLD {
        pcores_upto(caps, upto - 1).push((upto - 1) as u32)
    } else {
        pcores_upto(caps, upto - 1)
    }
}

/// The efficiency cores among the first `upto` CPUs, ascending.
pub open spec fn ecores_upto(caps: Seq<Option<u32>>, upto: int) -> Seq<u32>
    decreases upto,
{
    if upto <= 0 {
        Seq::<u32>::empty()
    } else if cap_of(caps, upto - 1) < PCORE_CAPACITY_THRESHOLD {
        ecores_upto(caps, upto - 1).push((upto - 1) as u32)
    } else {
        ecores_upto(caps, upto - 1)
    }
}

/// Every CPU is in exactly one of the two core lists: a hybrid part with
/// no efficiency cores (or none of either kind short of that) still
/// yields a consistent partition.
pub proof fn lemma_hybrid_partition(caps: Seq<Option<u32>>, nr: int, c: u32)
    requires
        0 <= c < nr,
        nr <= 0x1_0000_0000,
    ensures
        pcores_upto(caps, nr).contains(c) <==> cap_of(caps, c as int)
            >= PCORE_CAPACITY_THRESHOLD,
        ecores_upto(caps, nr).contains(c) <==> cap_of(caps, c as int) < PCORE_CAPACITY_THRESHOLD,
        !(pcores_upto(caps, nr).contains(c) && ecores_upto(caps, nr).contains(c)),
    decreases nr,
{
    if nr > 0 {
        proof_unfold_cores(caps, nr);
        if c < nr - 1 {
            lemma_hybrid_partition(caps, nr - 1, c);
            if pcores_upto(caps, nr - 1).contains(c) {
                let i = choose|i: int|
                    0 <= i < pcores_upto(caps, nr - 1).len() && #[trigger] pcores_upto(caps, nr - 1)[i] == c;
                assert(pcores_upto(caps, nr)[i] == c);
            }
            if pcores_upto(caps, nr).contains(c) {
                let i = choose|i: int|
                    0 <= i < pcores_upto(caps, nr).len() && #[trigger] pcores_upto(caps, nr)[i] == c;
                if cap_of(caps, nr - 1) >= PCORE_CAPACITY_THRESHOLD && i == pcores_upto(
                    caps,
                    nr,
                ).len() - 1 {
                    assert(c == nr - 1);
                    assert(false);
                } else {
                    assert(pcores_upto(caps, nr - 1)[i] == c);
                }
            }
            if ecores_upto(caps, nr - 1).contains(c) {
                let i = choose|i: int|
                    0 <= i < ecores_upto(caps, nr - 1).len() && #[trigger] ecores_upto(caps, nr - 1)[i] == c;
                assert(ecores_upto(caps, nr)[i] == c);
            }
            if ecores_upto(caps, nr).contains(c) {
                let i = choose|i: int|
                    0 <= i < ecores_upto(caps, nr).len() && #[trigger] ecores_upto(caps, nr)[i] == c;
                if cap_of(caps, nr - 1) < PCORE_CAPACITY_THRESHOLD && i == ecores_upto(
                    caps,
                    nr,
                ).len() - 1 {
                    assert(false);
                } else {
                    assert(ecores_upto(caps, nr - 1)[i] == c);
                }
            }
        } else {
            assert(c == nr - 1);
            lemma_cores_upto_bound(caps, nr - 1);
            if cap_of(caps, c as int) >= PCORE_CAPACITY_THRESHOLD {
                assert(pcores_upto(caps, nr).last() == c);
                assert(pcores_upto(caps, nr).contains(c));
                if ecores_upto(caps, nr).contains(c) {
                    let i = choose|i: int|
                        0 <= i < ecores_upto(caps, nr).len() && #[trigger] ecores_upto(caps, nr)[i] == c;
                    assert(ecores_upto(caps, nr - 1)[i] == c);
                    assert(false);
                }
            } else {
                assert(ecores_upto(caps, nr).last() == c);
                assert(ecores_upto(caps, nr).contains(c));
                if pcores_upto(caps, nr).contains(c) {
                    let i = choose|i: int|
                        0 <= i < pcores_upto(caps, nr).len() && #[trigger] pcores_upto(caps, nr)[i] == c;
                    assert(pcores_upto(caps, nr - 1)[i] == c);
                    assert(false);
                }
            }
        }
    }
}

/// One unfolding step of the core lists.
proof fn proof_unfold_cores(caps: Seq<Option<u32>>, nr: int)
    requires
        nr > 0,
    ensures
        cap_of(caps, nr - 1) >= PCORE_CAPACITY_THRESHOLD ==> pcores_upto(caps, nr) == pcores_upto(
            caps,
            nr - 1,
        ).push((nr - 1) as u32) && ecores_upto(caps, nr) == ecores_upto(caps, nr - 1),
        cap_of(caps, nr - 1) < PCORE_CAPACITY_THRESHOLD ==> ecores_upto(caps, nr) == ecores_upto(
            caps,
            nr - 1,
        ).push((nr - 1) as u32) && pcores_upto(caps, nr) == pcores_upto(caps, nr - 1),
{
}

/// Every listed core is below the bound.
pub proof fn lemma_cores_upto_bound(caps: Seq<Option<u32>>, upto: int)
    ensures
        forall|i: int|
            0 <= i < pcores_upto(caps, upto).len() ==> #[trigger] pcores_upto(caps, upto)[i]
                < upto,
        forall|i: int|
            0 <= i < ecores_upto(caps, upto).len() ==> #[trigger] ecores_upto(caps, upto)[i]
                < upto,
    decreases upto,
{
    if upto > 0 {
        lemma_cores_upto_bound(caps, upto - 1);
        proof_unfold_cores(caps, upto);
        assert forall|i: int|
            0 <= i < pcores_upto(caps, upto).len() implies #[trigger] pcores_upto(caps, upto)[i]
            < upto by {
            if cap_of(caps, upto - 1) >= PCORE_CAPACITY_THRESHOLD {
                if i < pcores_upto(caps, upto).len() - 1 {
                    assert(pcores_upto(caps, upto)[i] == pcores_upto(caps, upto - 1)[i]);
                }
            } else {
                assert(pcores_upto(caps, upto)[i] == pcores_upto(caps, upto - 1)[i]);
            }
        }
        assert forall|i: int|
            0 <= i < ecores_upto(caps, upto).len() implies #[trigger] ecores_upto(caps, upto)[i]
            < upto by {
            if cap_of(caps, upto - 1) < PCORE_CAPACITY_THRESHOLD {
                if i < ecores_upto(caps, upto).len() - 1 {
                    assert(ecores_upto(caps, upto)[i] == ecores_upto(caps, upto - 1)[i]);
                }
            } else {
                assert(ecores_upto(caps, upto)[i] == ecores_upto(caps, upto - 1)[i]);
            }
        }
    }
}

/// Classify each CPU of an Intel hybrid part as P-core or E-core by its
/// reported capacity; the rankings take the capacities themselves. A
/// non-hybrid model yields the inert default.
pub fn detect_intel_hybrid(nr_cpus: u32, model_name: &str, capacities: &Vec<Option<u32>>) -> (r:
    IntelHybridInfo)
    ensures
        r.is_hybrid == (spec_intel_gen(model_name.spec_bytes()) is Some),
        !r.is_hybrid ==> r.generation == 0 && r.pcore_cpus@.len() == 0 && r.ecore_cpus@.len() == 0
            && r.turbo_rankings@.len() == 0,
        r.is_hybrid ==> {
            &&& Some(r.generation) == spec_intel_gen(model_name.spec_bytes())
            &&& r.pcore_cpus@ == pcores_upto(capacities@, nr_cpus as int)
            &&& r.ecore_cpus@ == ecores_upto(capacities@, nr_cpus as int)
            &&& r.turbo_rankings@.len() == nr_cpus
            &&& forall|i: int| #![trigger r.turbo_rankings@[i]]
                0 <= i < nr_cpus ==> r.turbo_rankings@[i] == cap_of(capacities@, i)
        },
{
    let generation = match is_intel_hybrid_model(model_name) {
        Some(g) => g,
        None => {
            return IntelHybridInfo::default();
        },
    };
    let mut pcore_cpus: Vec<u32> = Vec::new();
    let mut ecore_cpus: Vec<u32> = Vec::new();
    let mut turbo_rankings: Vec<u32> = Vec::new();
    let mut cpu: u32 = 0;
    while cpu < nr_cpus
        invariant
            0 <= cpu <= nr_cpus,
            pcore_cpus@ == pcores_upto(capacities@, cpu as int),
            ecore_cpus@ == ecores_upto(capacities@, cpu as int),
            turbo_rankings@.len() == cpu,
            forall|i: int| #![trigger turbo_rankings@[i]]
                0 <= i < cpu ==> turbo_rankings@[i] == cap_of(capacities@, i),
        decreases nr_cpus - cpu,
    {
        let idx = cpu as usize;
        let capacity: u32 = if idx < capacities.len() {
            match capacities[idx] {
                Some(c) => c,
                None => 1024,
            }
        } else {
            1024
        };
        if capacity >= PCORE_CAPACITY_THRESHOLD {
            pcore_cpus.push(cpu);
        } else {
            ecore_cpus.push(cpu);
        }
        turbo_rankings.push(capacity);
        cpu = cpu + 1;
    }
    IntelHybridInfo { is_hybrid: true, generation, pcore_cpus, ecore_cpus, turbo_rankings }
}

/// The base frequency a CPU reports (0 when unreadable).
pub open spec fn freq_of(freqs: Seq<Option<u32>>, i: int) -> u32 {
    if 0 <= i < freqs.len() && freqs[i] is Some {
        freqs[i]->0
    } else {
        0u32
    }
}

/// The highest base frequency among the first `upto` CPUs.
pub open spec fn max_freq_upto(freqs: Seq<Option<u32>>, upto: int) -> u32
    decreases upto,
{
    if upto <= 0 {
        0u32
    } else if freq_of(freqs, upto - 1) > max_freq_upto(freqs, upto - 1) {
        freq_of(freqs, upto - 1)
    } else {
        max_freq_upto(freqs, upto - 1)
    }
}

/// Whether CPU `i` counts as a performance core by frequency: its base
/// frequency reaches 80% of the maximum.
pub open spec fn freq_is_pcore(freqs: Seq<Option<u32>>, i: int, max: u32) -> bool {
    freq_of(freqs, i) as int * 100 >= max as int * 80
}

/// The performance cores among the first `upto` CPUs, by frequency,
/// ascending.
pub open spec fn fpcores_upto(freqs: Seq<Option<u32>>, max: u32, upto: int) -> Seq<u32>
    decreases upto,
{
    if upto <= 0 {
        Seq::<u32>::empty()
    } else if freq_is_pcore(freqs, upto - 1, max) {
        fpcores_upto(freqs, max, upto - 1).push((upto - 1) as u32)
    } else {
        fpcores_upto(freqs, max, upto - 1)
    }
}

/// The efficiency cores among the first `upto` CPUs, by frequency,
/// ascending.
pub open spec fn fecores_upto(freqs: Seq<Option<u32>>, max: u32, upto: int) -> Seq<u32>
    decreases upto,
{
    if upto <= 0 {
        Seq::<u32>::empty()
    } else if !freq_is_pcore(freqs, upto - 1, max) {
        fecores_upto(freqs, max, upto - 1).push((upto - 1) as u32)
    } else {
        fecores_upto(freqs, max, upto - 1)
    }
}

/// Fallback classification by base frequency when capacities are not
/// exposed: a CPU whose base frequency reaches 80% of the system maximum
/// counts as a performance core, every other CPU as an efficiency core.
/// Returns (P-cores, E-cores, rankings in MHz), the core lists ascending
/// and together covering every CPU exactly once.
pub fn detect_by_frequency(nr_cpus: u32, freqs: &Vec<Option<u32>>) -> (r: (
    Vec<u32>,
    Vec<u32>,
    Vec<u32>,
))
    ensures
        ({
            let max = max_freq_upto(freqs@, nr_cpus as int);
            &&& r.0@ == fpcores_upto(freqs@, max, nr_cpus as int)
            &&& r.1@ == fecores_upto(freqs@, max, nr_cpus as int)
            &&& r.2@.len() == nr_cpus
            &&& forall|i: int| #![trigger r.2@[i]]
                0 <= i < nr_cpus ==> r.2@[i] == freq_of(freqs@, i) / 1000
        }),
{
    let mut max_freq: u32 = 0;
    let mut cpu: u32 = 0;
    while cpu < nr_cpus
        invariant
            0 <= cpu <= nr_cpus,
            max_freq == max_freq_upto(freqs@, cpu as int),
        decreases nr_cpus - cpu,
    {
        let idx = cpu as usize;
        let f: u32 = if idx < freqs.len() {
            match freqs[idx] {
                Some(v) => v,
                None => 0,
            }
        } else {
            0
        };
        if f > max_freq {
            max_freq = f;
        }
        cpu = cpu + 1;
    }
    let mut pcore: Vec<u32> = Vec::new();
    let mut ecore: Vec<u32> = Vec::new();
    let mut rankings: Vec<u32> = Vec::new();
    let mut c: u32 = 0;
    while c < nr_cpus
        invariant
            0 <= c <= nr_cpus,
            max_freq == max_freq_upto(freqs@, nr_cpus as int),
            rankings@.len() == c,
            forall|i: int| #![trigger rankings@[i]]
                0 <= i < c ==> rankings@[i] == freq_of(freqs@, i) / 1000,
            pcore@ == fpcores_upto(freqs@, max_freq, c as int),
            ecore@ == fecores_upto(freqs@, max_freq, c as int),
        decreases nr_cpus - c,
    {
        let idx = c as usize;
        let f: u32 = if idx < freqs.len() {
            match freqs[idx] {
                Some(v) => v,
                None => 0,
            }
        } else {
            0
        };
        if f as u64 * 100 >= max_freq as u64 * 80 {
            pcore.push(c);
        } else {
            ecore.push(c);
        }
        rankings.push(f / 1000);
        c = c + 1;
    }
    (pcore, ecore, rankings)
}

} // verus!
