//! The shared-map syncer: it owns the byte layout of every record shared
//! with the in-kernel program and turns classifier diffs into keyed map
//! mutations, removals before additions.

use vstd::prelude::*;

use crate::bytes::push_u32_le;
use crate::bytes::push_u64_le;
use crate::bytes::u32_le;
use crate::bytes::u64_le;
use crate::maps::ClassMap;
use crate::topology::CpuTopology;
use crate::workload::WORKLOAD_AI;
use crate::workload::WORKLOAD_GAMING;

verus! {

/// The two's-complement bits of a 32-bit signed value.
pub open spec fn i32_bits(x: i32) -> u32 {
    if x >= 0 {
        x as u32
    } else {
        (x + 0x1_0000_0000) as u32
    }
}

/// One per-CPU context record as the in-kernel program reads it.
pub struct CpuCtx {
    pub cluster_id: u32,
    pub sub_cluster_id: u32,
    pub numa_node: u32,
    /// SMT sibling CPU, -1 for none.
    pub smt_sibling: i32,
    pub is_stacked_cache: bool,
    pub is_performance_core: bool,
    pub is_turbo_ranked: bool,
}

/// Size of the encoded per-CPU record.
pub const CPU_CTX_SIZE: usize = 20;

/// The 20-byte wire form: three u32 fields, the sibling as i32, three
/// flag bytes and one byte of padding.
pub open spec fn spec_encode_cpu_ctx(c: CpuCtx) -> Seq<u8> {
    u32_le(c.cluster_id) + u32_le(c.sub_cluster_id) + u32_le(c.numa_node) + u32_le(
        i32_bits(c.smt_sibling),
    ) + seq![
        crate::tunables::flag_byte(c.is_stacked_cache),
        crate::tunables::flag_byte(c.is_performance_core),
        crate::tunables::flag_byte(c.is_turbo_ranked),
        0u8,
    ]
}

impl CpuCtx {
    /// The record encoded for the per-CPU shared map.
    pub fn encode(&self) -> (r: Vec<u8>)
        ensures
            r@ == spec_encode_cpu_ctx(*self),
            r@.len() == CPU_CTX_SIZE,
    {
        let mut out: Vec<u8> = Vec::new();
        push_u32_le(&mut out, self.cluster_id);
        push_u32_le(&mut out, self.sub_cluster_id);
        push_u32_le(&mut out, self.numa_node);
        let sib_bits: u32 = if self.smt_sibling >= 0 {
            self.smt_sibling as u32
        } else {
            ((self.smt_sibling as i64) + 0x1_0000_0000i64) as u32
        };
        push_u32_le(&mut out, sib_bits);
        out.push(if self.is_stacked_cache {
            1
        } else {
            0
        });
        out.push(if self.is_performance_core {
            1
        } else {
            0
        });
        out.push(if self.is_turbo_ranked {
            1
        } else {
            0
        });
        out.push(0);
        proof {
            assert(sib_bits == i32_bits(self.smt_sibling));
            assert(out@ =~= spec_encode_cpu_ctx(*self));
        }
        out
    }
}

/// The context record CPU `i` gets from the topology: its cluster,
/// sub-cluster, node and sibling, the stacked-cache flag of its cluster,
/// whether it is a performance core, and whether it carries a non-zero
/// turbo ranking.
pub open spec fn ctx_for(t: CpuTopology, pcores: Seq<u32>, turbo: Seq<u32>, i: int) -> CpuCtx {
    CpuCtx {
        cluster_id: t.cpu_to_ccd@[i],
        sub_cluster_id: t.cpu_to_ccx@[i],
        numa_node: t.cpu_to_node@[i],
        smt_sibling: t.cpu_to_sibling@[i],
        is_stacked_cache: t.vcache_ccd is Some && t.cpu_to_ccd@[i] == t.vcache_ccd->0,
        is_performance_core: pcores.contains(i as u32),
        is_turbo_ranked: 0 <= i < turbo.len() && turbo[i] > 0,
    }
}

/// Whether a CPU id occurs in the list.
fn cpu_listed(v: &Vec<u32>, c: u32) -> (r: bool)
    ensures
        r == v@.contains(c),
{
    let n: usize = v.len();
    let mut i: usize = 0;
    while i < n
        invariant
            0 <= i <= n,
            n == v@.len(),
            forall|j: int| 0 <= j < i ==> v@[j] != c,
        decreases n - i,
    {
        if v[i] == c {
            assert(v@[i as int] == c);
            return true;
        }
        i = i + 1;
    }
    false
}

/// Build the startup plan for the per-CPU context map: one record per
/// CPU id in [0, nr_cpus), each CPU exactly once, in order.
pub fn init_cpu_contexts(t: &CpuTopology, pcores: &Vec<u32>, turbo: &Vec<u32>) -> (r: Vec<
    (u32, Vec<u8>),
>)
    requires
        t.wf(),
    ensures
        r@.len() == t.nr_cpus,
        forall|i: int| #![trigger r@[i]]
            0 <= i < r@.len() ==> r@[i].0 == i && r@[i].1@ == spec_encode_cpu_ctx(
                ctx_for(*t, pcores@, turbo@, i),
            ),
{
    let nr = t.nr_cpus;
    let mut out: Vec<(u32, Vec<u8>)> = Vec::new();
    let mut cpu: u32 = 0;
    while cpu < nr
        invariant
            0 <= cpu <= nr,
            t.wf(),
            nr == t.nr_cpus,
            out@.len() == cpu,
            forall|i: int| #![trigger out@[i]]
                0 <= i < cpu ==> out@[i].0 == i && out@[i].1@ == spec_encode_cpu_ctx(
                    ctx_for(*t, pcores@, turbo@, i),
                ),
        decreases nr - cpu,
    {
        let idx = cpu as usize;
        let sibling: i32 = t.cpu_to_sibling[idx];
        let ccd: u32 = t.cpu_to_ccd[idx];
        let stacked: bool = match t.vcache_ccd {
            Some(v) => ccd == v,
            None => false,
        };
        let turbo_ranked: bool = idx < turbo.len() && turbo[idx] > 0;
        let ctx = CpuCtx {
            cluster_id: ccd,
            sub_cluster_id: t.cpu_to_ccx[idx],
            numa_node: t.cpu_to_node[idx],
            smt_sibling: sibling,
            is_stacked_cache: stacked,
            is_performance_core: cpu_listed(pcores, cpu),
            is_turbo_ranked: turbo_ranked,
        };
        let enc = ctx.encode();
        proof {
            assert(ctx == ctx_for(*t, pcores@, turbo@, cpu as int));
        }
        out.push((cpu, enc));
        cpu = cpu + 1;
    }
    out
}

/// After startup the per-CPU context map holds exactly one record for
/// every CPU id in [0, nr_cpus): the plan keys are exactly 0..nr_cpus,
/// each once.
pub proof fn lemma_cpu_plan_covers(r: Seq<(u32, Vec<u8>)>, nr: u32)
    requires
        r.len() == nr,
        forall|i: int| 0 <= i < r.len() ==> (#[trigger] r[i]).0 == i,
    ensures
        forall|cpu: u32| cpu < nr ==> (#[trigger] r[cpu as int]).0 == cpu,
        forall|i: int, j: int| 0 <= i < j < r.len() ==> (#[trigger] r[i]).0 != (#[trigger] r[j]).0,
{
}

/// On a stacked-cache part with a single cluster, every CPU's context
/// record carries the stacked-cache flag.
pub proof fn lemma_single_cluster_all_stacked(
    t: CpuTopology,
    pcores: Seq<u32>,
    turbo: Seq<u32>,
)
    requires
        t.wf(),
        t.nr_ccds == 1,
        t.vcache_ccd == Some(0u32),
    ensures
        forall|i: int| 0 <= i < t.nr_cpus ==> (#[trigger] ctx_for(t, pcores, turbo, i)).is_stacked_cache,
{
    assert forall|i: int|
        0 <= i < t.nr_cpus implies (#[trigger] ctx_for(t, pcores, turbo, i)).is_stacked_cache by {
        assert(t.cpu_to_ccd@[i] < 1);
    }
}

/// One mutation against a shared kernel map, key and value already in
/// their wire form.
pub enum MapOp {
    Upsert { key: Vec<u8>, value: Vec<u8> },
    Delete { key: Vec<u8> },
}

/// The map after deleting each PID key in order.
pub open spec fn remove_pids(m: Map<u64, u32>, pids: Seq<u32>) -> Map<u64, u32>
    decreases pids.len(),
{
    if pids.len() == 0 {
        m
    } else {
        remove_pids(m.remove(pids[0] as u64), pids.drop_first())
    }
}

/// The map after upserting each (PID, class) pair in order.
pub open spec fn add_pairs(m: Map<u64, u32>, pairs: Seq<(u32, u32)>) -> Map<u64, u32>
    decreases pairs.len(),
{
    if pairs.len() == 0 {
        m
    } else {
        add_pairs(m.insert(pairs[0].0 as u64, pairs[0].1), pairs.drop_first())
    }
}

proof fn lemma_remove_pids_snoc(m: Map<u64, u32>, pids: Seq<u32>, x: u32)
    ensures
        remove_pids(m, pids.push(x)) == remove_pids(m, pids).remove(x as u64),
    decreases pids.len(),
{
    if pids.len() == 0 {
        assert(pids.push(x).drop_first() =~= Seq::<u32>::empty());
        assert(pids.push(x)[0] == x);
        assert(remove_pids(m, pids.push(x)) == remove_pids(
            m.remove(x as u64),
            Seq::<u32>::empty(),
        ));
    } else {
        assert(pids.push(x).drop_first() =~= pids.drop_first().push(x));
        assert(pids.push(x)[0] == pids[0]);
        lemma_remove_pids_snoc(m.remove(pids[0] as u64), pids.drop_first(), x);
        assert(remove_pids(m, pids.push(x)) == remove_pids(
            m.remove(pids[0] as u64),
            pids.drop_first().push(x),
        ));
    }
}

proof fn lemma_add_pairs_snoc(m: Map<u64, u32>, pairs: Seq<(u32, u32)>, x: (u32, u32))
    ensures
        add_pairs(m, pairs.push(x)) == add_pairs(m, pairs).insert(x.0 as u64, x.1),
    decreases pairs.len(),
{
    if pairs.len() == 0 {
        assert(pairs.push(x).drop_first() =~= Seq::<(u32, u32)>::empty());
        assert(pairs.push(x)[0] == x);
        assert(add_pairs(m, pairs.push(x)) == add_pairs(
            m.insert(x.0 as u64, x.1),
            Seq::<(u32, u32)>::empty(),
        ));
    } else {
        assert(pairs.push(x).drop_first() =~= pairs.drop_first().push(x));
        assert(pairs.push(x)[0] == pairs[0]);
        lemma_add_pairs_snoc(m.insert(pairs[0].0 as u64, pairs[0].1), pairs.drop_first(), x);
        assert(add_pairs(m, pairs.push(x)) == add_pairs(
            m.insert(pairs[0].0 as u64, pairs[0].1),
            pairs.drop_first().push(x),
        ));
    }
}

/// Apply one classifier diff to the mirror of a PID-keyed map, removals
/// first, and return the wire-form operations to replay against the
/// kernel map: one delete per removal, then one upsert per addition, in
/// order, with 4-byte keys and values.
pub fn sync_pid_diff(map: &mut ClassMap, additions: &Vec<(u32, u32)>, removals: &Vec<u32>) -> (ops:
    Vec<MapOp>)
    requires
        old(map).wf(),
    ensures
        final(map).wf(),
        final(map)@ == add_pairs(remove_pids(old(map)@, removals@), additions@),
        ops@.len() == removals@.len() + additions@.len(),
        forall|i: int|
            0 <= i < removals@.len() ==> (#[trigger] ops@[i] matches MapOp::Delete { key } && key@
                == u32_le(removals@[i])),
        forall|i: int|
            0 <= i < additions@.len() ==> (#[trigger] ops@[removals@.len() + i]
                matches MapOp::Upsert { key, value } && key@ == u32_le(additions@[i].0) && value@
                == u32_le(additions@[i].1)),
{
    let ghost m0 = map@;
    let mut ops: Vec<MapOp> = Vec::new();
    let rn: usize = removals.len();
    let mut i: usize = 0;
    proof {
        assert(removals@.subrange(0, 0) =~= Seq::<u32>::empty());
    }
    while i < rn
        invariant
            0 <= i <= rn,
            rn == removals@.len(),
            map.wf(),
            map@ == remove_pids(m0, removals@.subrange(0, i as int)),
            ops@.len() == i,
            forall|j: int|
                0 <= j < i ==> (#[trigger] ops@[j] matches MapOp::Delete { key } && key@ == u32_le(
                    removals@[j],
                )),
        decreases rn - i,
    {
        let p = removals[i];
        map.delete(p as u64);
        let mut key: Vec<u8> = Vec::new();
        push_u32_le(&mut key, p);
        ops.push(MapOp::Delete { key });
        proof {
            assert(removals@.subrange(0, i + 1) =~= removals@.subrange(0, i as int).push(
                removals@[i as int],
            ));
            lemma_remove_pids_snoc(m0, removals@.subrange(0, i as int), removals@[i as int]);
        }
        i = i + 1;
    }
    proof {
        assert(removals@.subrange(0, rn as int) =~= removals@);
    }
    let ghost m1 = map@;
    let an: usize = additions.len();
    let mut k: usize = 0;
    proof {
        assert(additions@.subrange(0, 0) =~= Seq::<(u32, u32)>::empty());
    }
    while k < an
        invariant
            0 <= k <= an,
            an == additions@.len(),
            rn == removals@.len(),
            map.wf(),
            map@ == add_pairs(m1, additions@.subrange(0, k as int)),
            ops@.len() == rn + k,
            forall|j: int|
                0 <= j < rn ==> (#[trigger] ops@[j] matches MapOp::Delete { key } && key@ == u32_le(
                    removals@[j],
                )),
            forall|j: int|
                0 <= j < k ==> (#[trigger] ops@[rn + j] matches MapOp::Upsert { key, value } && key@
                    == u32_le(additions@[j].0) && value@ == u32_le(additions@[j].1)),
        decreases an - k,
    {
        let (p, c) = additions[k];
        map.upsert(p as u64, c);
        let mut key: Vec<u8> = Vec::new();
        push_u32_le(&mut key, p);
        let mut value: Vec<u8> = Vec::new();
        push_u32_le(&mut value, c);
        ops.push(MapOp::Upsert { key, value });
        proof {
            assert(additions@.subrange(0, k + 1) =~= additions@.subrange(0, k as int).push(
                additions@[k as int],
            ));
            lemma_add_pairs_snoc(m1, additions@.subrange(0, k as int), additions@[k as int]);
        }
        k = k + 1;
    }
    proof {
        assert(additions@.subrange(0, an as int) =~= additions@);
    }
    ops
}

/// Apply one cgroup diff to the mirror of the cgroup-keyed map, removals
/// first: one delete per removed id, then one upsert per addition, with
/// 8-byte keys and 4-byte values.
pub fn sync_cgroup_diff(map: &mut ClassMap, additions: &Vec<(u64, u32)>, removals: &Vec<u64>) -> (
    ops: Vec<MapOp>)
    requires
        old(map).wf(),
    ensures
        final(map).wf(),
        ops@.len() == removals@.len() + additions@.len(),
        forall|i: int|
            0 <= i < removals@.len() ==> (#[trigger] ops@[i] matches MapOp::Delete { key } && key@
                == u64_le(removals@[i])),
        forall|i: int|
            0 <= i < additions@.len() ==> (#[trigger] ops@[removals@.len() + i]
                matches MapOp::Upsert { key, value } && key@ == u64_le(additions@[i].0) && value@
                == u32_le(additions@[i].1)),
        forall|k: u64| #[trigger]
            final(map)@.contains_key(k) <==> (old(map)@.contains_key(k) && !removals@.contains(k))
                || exists|i: int| 0 <= i < additions@.len() && (#[trigger] additions@[i]).0 == k,
{
    let ghost m0 = map@;
    let mut ops: Vec<MapOp> = Vec::new();
    let rn: usize = removals.len();
    let mut i: usize = 0;
    while i < rn
        invariant
            0 <= i <= rn,
            rn == removals@.len(),
            map.wf(),
            ops@.len() == i,
            forall|j: int|
                0 <= j < i ==> (#[trigger] ops@[j] matches MapOp::Delete { key } && key@ == u64_le(
                    removals@[j],
                )),
            forall|k: u64| #[trigger]
                map@.contains_key(k) <==> m0.contains_key(k) && !removals@.subrange(
                    0,
                    i as int,
                ).contains(k),
        decreases rn - i,
    {
        let ghost pre = map@;
        let p = removals[i];
        map.delete(p);
        let mut key: Vec<u8> = Vec::new();
        push_u64_le(&mut key, p);
        ops.push(MapOp::Delete { key });
        proof {
            assert forall|q: u64| #[trigger]
                map@.contains_key(q) <==> m0.contains_key(q) && !removals@.subrange(
                    0,
                    i + 1,
                ).contains(q) by {
                if q != p {
                    if removals@.subrange(0, i + 1).contains(q) {
                        let w = choose|w: int|
                            0 <= w < i + 1 && #[trigger] removals@.subrange(0, i + 1)[w] == q;
                        if w < i as int {
                            assert(removals@.subrange(0, i as int)[w] == q);
                        }
                    }
                    if removals@.subrange(0, i as int).contains(q) {
                        let w = choose|w: int| 0 <= w < i && #[trigger] removals@.subrange(0, i as int)[w] == q;
                        assert(removals@.subrange(0, i + 1)[w] == q);
                    }
                } else {
                    assert(removals@.subrange(0, i + 1)[i as int] == p);
                }
            }
        }
        i = i + 1;
    }
    proof {
        assert(removals@.subrange(0, rn as int) =~= removals@);
    }
    let ghost m1 = map@;
    let an: usize = additions.len();
    let mut k: usize = 0;
    while k < an
        invariant
            0 <= k <= an,
            an == additions@.len(),
            rn == removals@.len(),
            map.wf(),
            ops@.len() == rn + k,
            forall|j: int|
                0 <= j < rn ==> (#[trigger] ops@[j] matches MapOp::Delete { key } && key@ == u64_le(
                    removals@[j],
                )),
            forall|j: int|
                0 <= j < k ==> (#[trigger] ops@[rn + j] matches MapOp::Upsert { key, value } && key@
                    == u64_le(additions@[j].0) && value@ == u32_le(additions@[j].1)),
            forall|q: u64| #[trigger]
                map@.contains_key(q) <==> m1.contains_key(q) || exists|j: int|
                    0 <= j < k && (#[trigger] additions@[j]).0 == q,
        decreases an - k,
    {
        let e = additions[k];
        map.upsert(e.0, e.1);
        let mut key: Vec<u8> = Vec::new();
        push_u64_le(&mut key, e.0);
        let mut value: Vec<u8> = Vec::new();
        push_u32_le(&mut value, e.1);
        ops.push(MapOp::Upsert { key, value });
        proof {
            assert forall|q: u64| #[trigger]
                map@.contains_key(q) <==> m1.contains_key(q) || exists|j: int|
                    0 <= j < k + 1 && (#[trigger] additions@[j]).0 == q by {
                if q == additions@[k as int].0 {
                    assert(additions@[k as int].0 == q);
                }
            }
        }
        k = k + 1;
    }
    ops
}


/// Some listed PID has these 64-bit key bits.
pub open spec fn pids_has_key(pids: Seq<u32>, k: u64) -> bool {
    exists|i: int| 0 <= i < pids.len() && (#[trigger] pids[i]) as u64 == k
}

/// Some listed pair's PID has these 64-bit key bits.
pub open spec fn pairs_has_key(pairs: Seq<(u32, u32)>, k: u64) -> bool {
    exists|i: int| 0 <= i < pairs.len() && (#[trigger] pairs[i]).0 as u64 == k
}

/// What a run of deletions leaves: exactly the keys not named, with their
/// values kept.
proof fn lemma_remove_pids_spec(m: Map<u64, u32>, pids: Seq<u32>)
    ensures
        forall|k: u64| #[trigger]
            remove_pids(m, pids).contains_key(k) <==> m.contains_key(k) && !pids_has_key(pids, k),
        forall|k: u64| #[trigger]
            remove_pids(m, pids).contains_key(k) ==> remove_pids(m, pids)[k] == m[k],
    decreases pids.len(),
{
    if pids.len() > 0 {
        let m1 = m.remove(pids[0] as u64);
        lemma_remove_pids_spec(m1, pids.drop_first());
        assert(remove_pids(m, pids) == remove_pids(m1, pids.drop_first()));
        assert forall|k: u64| #[trigger]
            remove_pids(m, pids).contains_key(k) <==> m.contains_key(k) && !pids_has_key(
                pids,
                k,
            ) by {
            assert(pids[0] as u64 == pids[0] as u64 && 0 < pids.len());
            assert(pids_has_key(pids, pids[0] as u64));
            if pids_has_key(pids.drop_first(), k) {
                let i = choose|i: int|
                    0 <= i < pids.drop_first().len() && (#[trigger] pids.drop_first()[i]) as u64
                        == k;
                assert(pids[i + 1] as u64 == k);
            }
            if pids_has_key(pids, k) && k != pids[0] as u64 {
                let i = choose|i: int| 0 <= i < pids.len() && (#[trigger] pids[i]) as u64 == k;
                assert(pids.drop_first()[i - 1] as u64 == k);
            }
        }
        assert forall|k: u64| #[trigger]
            remove_pids(m, pids).contains_key(k) implies remove_pids(m, pids)[k] == m[k] by {
            assert(remove_pids(m1, pids.drop_first())[k] == m1[k]);
        }
    }
}

/// What a run of upserts with distinct keys produces: the old keys plus
/// the pair keys, each pair's key carrying the pair's value.
proof fn lemma_add_pairs_spec(m: Map<u64, u32>, pairs: Seq<(u32, u32)>)
    requires
        forall|i: int, j: int|
            0 <= i < j < pairs.len() ==> (#[trigger] pairs[i]).0 != (#[trigger] pairs[j]).0,
    ensures
        forall|k: u64| #[trigger]
            add_pairs(m, pairs).contains_key(k) <==> m.contains_key(k) || pairs_has_key(pairs, k),
        forall|i: int|
            0 <= i < pairs.len() ==> add_pairs(m, pairs)[(#[trigger] pairs[i]).0 as u64]
                == pairs[i].1,
        forall|k: u64|
            #![trigger add_pairs(m, pairs)[k]]
            add_pairs(m, pairs).contains_key(k) && !pairs_has_key(pairs, k) ==> add_pairs(
                m,
                pairs,
            )[k] == m[k],
    decreases pairs.len(),
{
    if pairs.len() > 0 {
        let m1 = m.insert(pairs[0].0 as u64, pairs[0].1);
        lemma_add_pairs_spec(m1, pairs.drop_first());
        assert(add_pairs(m, pairs) == add_pairs(m1, pairs.drop_first()));
        assert forall|k: u64| #[trigger]
            add_pairs(m, pairs).contains_key(k) <==> m.contains_key(k) || pairs_has_key(
                pairs,
                k,
            ) by {
            assert(pairs[0].0 as u64 == pairs[0].0 as u64 && 0 < pairs.len());
            assert(pairs_has_key(pairs, pairs[0].0 as u64));
            if pairs_has_key(pairs.drop_first(), k) {
                let i = choose|i: int|
                    0 <= i < pairs.drop_first().len() && (#[trigger] pairs.drop_first()[i]).0
                        as u64 == k;
                assert(pairs[i + 1].0 as u64 == k);
            }
            if pairs_has_key(pairs, k) && k != pairs[0].0 as u64 {
                let i = choose|i: int| 0 <= i < pairs.len() && (#[trigger] pairs[i]).0 as u64 == k;
                assert(pairs.drop_first()[i - 1].0 as u64 == k);
            }
        }
        assert forall|i: int|
            0 <= i < pairs.len() implies add_pairs(m, pairs)[(#[trigger] pairs[i]).0 as u64]
            == pairs[i].1 by {
            if i == 0 {
                if pairs_has_key(pairs.drop_first(), pairs[0].0 as u64) {
                    let t = choose|t: int|
                        0 <= t < pairs.drop_first().len() && (#[trigger] pairs.drop_first()[t]).0
                            as u64 == pairs[0].0 as u64;
                    assert(pairs[t + 1].0 == pairs[0].0);
                    assert(false);
                }
                assert(add_pairs(m, pairs)[pairs[0].0 as u64] == m1[pairs[0].0 as u64]);
            } else {
                assert(pairs.drop_first()[i - 1] == pairs[i]);
            }
        }
        assert forall|k: u64|
            add_pairs(m, pairs).contains_key(k) && !pairs_has_key(pairs, k) implies #[trigger]
            add_pairs(m, pairs)[k] == m[k] by {
            if pairs_has_key(pairs.drop_first(), k) {
                let i = choose|i: int|
                    0 <= i < pairs.drop_first().len() && (#[trigger] pairs.drop_first()[i]).0
                        as u64 == k;
                assert(pairs[i + 1].0 as u64 == k);
                assert(false);
            }
            assert(pairs[0].0 as u64 != k);
        }
    }
}

/// A PID-keyed map mirrors the two seen sets: exactly their PIDs as keys,
/// each with its class, and no key outside the PID range.
pub open spec fn seen_agree(m: Map<u64, u32>, g: Seq<u32>, a: Seq<u32>) -> bool {
    &&& forall|p: u32| #[trigger] m.contains_key(p as u64) <==> g.contains(p) || a.contains(p)
    &&& forall|p: u32| g.contains(p) ==> #[trigger] m[p as u64] == WORKLOAD_GAMING
    &&& forall|p: u32| a.contains(p) ==> #[trigger] m[p as u64] == WORKLOAD_AI
    &&& forall|k: u64| #[trigger] m.contains_key(k) ==> k < 0x1_0000_0000
}

/// For every PID the scan classifies, exactly one record stands in the
/// classification map after the tick's removals and additions are
/// applied, carrying that PID's class — and no other PID has a record.
/// The diff hypotheses are the ones the detector's rescan establishes.
#[verifier::rlimit(60)]
pub proof fn lemma_sync_matches_seen(
    m0: Map<u64, u32>,
    scan: Seq<(u32, u32)>,
    g0: Seq<u32>,
    a0: Seq<u32>,
    adds: Seq<(u32, u32)>,
    rems: Seq<u32>,
)
    requires
        seen_agree(m0, g0, a0),
        forall|p: u32| g0.contains(p) ==> !a0.contains(p),
        forall|i: int, j: int|
            0 <= i < j < scan.len() ==> (#[trigger] scan[i]).0 != (#[trigger] scan[j]).0,
        forall|t: int| #![trigger adds[t]]
            0 <= t < adds.len() ==> {
                ||| (adds[t].1 == WORKLOAD_GAMING && crate::gaming::listed_pair(
                    scan,
                    adds[t].0,
                    WORKLOAD_GAMING,
                ) && !g0.contains(adds[t].0))
                ||| (adds[t].1 == WORKLOAD_AI && crate::gaming::listed_pair(
                    scan,
                    adds[t].0,
                    WORKLOAD_AI,
                ) && !a0.contains(adds[t].0))
            },
        forall|p: u32|
            crate::gaming::listed_pair(scan, p, WORKLOAD_GAMING) && !g0.contains(p)
                ==> crate::gaming::listed_pair(adds, p, WORKLOAD_GAMING),
        forall|p: u32|
            crate::gaming::listed_pair(scan, p, WORKLOAD_AI) && !a0.contains(p)
                ==> crate::gaming::listed_pair(adds, p, WORKLOAD_AI),
        forall|i: int, j: int|
            0 <= i < j < adds.len() ==> (#[trigger] adds[i]).0 != (#[trigger] adds[j]).0,
        forall|t: int| #![trigger rems[t]]
            0 <= t < rems.len() ==> {
                ||| (g0.contains(rems[t]) && !crate::gaming::listed_pair(
                    scan,
                    rems[t],
                    WORKLOAD_GAMING,
                ))
                ||| (a0.contains(rems[t]) && !crate::gaming::listed_pair(
                    scan,
                    rems[t],
                    WORKLOAD_AI,
                ))
            },
        forall|p: u32|
            g0.contains(p) && !crate::gaming::listed_pair(scan, p, WORKLOAD_GAMING)
                ==> rems.contains(p),
        forall|p: u32|
            a0.contains(p) && !crate::gaming::listed_pair(scan, p, WORKLOAD_AI) ==> rems.contains(
                p,
            ),
    ensures
        ({
            let m1 = add_pairs(remove_pids(m0, rems), adds);
            &&& forall|p: u32| #[trigger]
                m1.contains_key(p as u64) <==> crate::gaming::listed_pair(
                    scan,
                    p,
                    WORKLOAD_GAMING,
                ) || crate::gaming::listed_pair(scan, p, WORKLOAD_AI)
            &&& forall|p: u32|
                crate::gaming::listed_pair(scan, p, WORKLOAD_GAMING) ==> #[trigger] m1[p as u64]
                    == WORKLOAD_GAMING
            &&& forall|p: u32|
                crate::gaming::listed_pair(scan, p, WORKLOAD_AI) ==> #[trigger] m1[p as u64]
                    == WORKLOAD_AI
        }),
{
    let mr = remove_pids(m0, rems);
    let m1 = add_pairs(mr, adds);
    lemma_remove_pids_spec(m0, rems);
    lemma_add_pairs_spec(mr, adds);
    assert forall|p: u32| #[trigger]
        m1.contains_key(p as u64) <==> crate::gaming::listed_pair(scan, p, WORKLOAD_GAMING)
            || crate::gaming::listed_pair(scan, p, WORKLOAD_AI) by {
        lemma_one_pid(m0, scan, g0, a0, adds, rems, p);
    }
    assert forall|p: u32|
        crate::gaming::listed_pair(scan, p, WORKLOAD_GAMING) implies #[trigger] m1[p as u64]
        == WORKLOAD_GAMING by {
        lemma_one_pid(m0, scan, g0, a0, adds, rems, p);
    }
    assert forall|p: u32|
        crate::gaming::listed_pair(scan, p, WORKLOAD_AI) implies #[trigger] m1[p as u64]
        == WORKLOAD_AI by {
        lemma_one_pid(m0, scan, g0, a0, adds, rems, p);
    }
}

/// The per-PID case analysis behind `lemma_sync_matches_seen`.
#[verifier::rlimit(100)]
proof fn lemma_one_pid(
    m0: Map<u64, u32>,
    scan: Seq<(u32, u32)>,
    g0: Seq<u32>,
    a0: Seq<u32>,
    adds: Seq<(u32, u32)>,
    rems: Seq<u32>,
    p: u32,
)
    requires
        seen_agree(m0, g0, a0),
        forall|q: u32| g0.contains(q) ==> !a0.contains(q),
        forall|i: int, j: int|
            0 <= i < j < scan.len() ==> (#[trigger] scan[i]).0 != (#[trigger] scan[j]).0,
        forall|t: int| #![trigger adds[t]]
            0 <= t < adds.len() ==> {
                ||| (adds[t].1 == WORKLOAD_GAMING && crate::gaming::listed_pair(
                    scan,
                    adds[t].0,
                    WORKLOAD_GAMING,
                ) && !g0.contains(adds[t].0))
                ||| (adds[t].1 == WORKLOAD_AI && crate::gaming::listed_pair(
                    scan,
                    adds[t].0,
                    WORKLOAD_AI,
                ) && !a0.contains(adds[t].0))
            },
        forall|q: u32|
            crate::gaming::listed_pair(scan, q, WORKLOAD_GAMING) && !g0.contains(q)
                ==> crate::gaming::listed_pair(adds, q, WORKLOAD_GAMING),
        forall|q: u32|
            crate::gaming::listed_pair(scan, q, WORKLOAD_AI) && !a0.contains(q)
                ==> crate::gaming::listed_pair(adds, q, WORKLOAD_AI),
        forall|i: int, j: int|
            0 <= i < j < adds.len() ==> (#[trigger] adds[i]).0 != (#[trigger] adds[j]).0,
        forall|t: int| #![trigger rems[t]]
            0 <= t < rems.len() ==> {
                ||| (g0.contains(rems[t]) && !crate::gaming::listed_pair(
                    scan,
                    rems[t],
                    WORKLOAD_GAMING,
                ))
                ||| (a0.contains(rems[t]) && !crate::gaming::listed_pair(
                    scan,
                    rems[t],
                    WORKLOAD_AI,
                ))
            },
        forall|q: u32|
            g0.contains(q) && !crate::gaming::listed_pair(scan, q, WORKLOAD_GAMING)
                ==> rems.contains(q),
        forall|q: u32|
            a0.contains(q) && !crate::gaming::listed_pair(scan, q, WORKLOAD_AI) ==> rems.contains(
                q,
            ),
    ensures
        ({
            let m1 = add_pairs(remove_pids(m0, rems), adds);
            &&& m1.contains_key(p as u64) <==> crate::gaming::listed_pair(
                scan,
                p,
                WORKLOAD_GAMING,
            ) || crate::gaming::listed_pair(scan, p, WORKLOAD_AI)
            &&& crate::gaming::listed_pair(scan, p, WORKLOAD_GAMING) ==> m1[p as u64]
                == WORKLOAD_GAMING
            &&& crate::gaming::listed_pair(scan, p, WORKLOAD_AI) ==> m1[p as u64] == WORKLOAD_AI
        }),
{
    let mr = remove_pids(m0, rems);
    let m1 = add_pairs(mr, adds);
    lemma_remove_pids_spec(m0, rems);
    lemma_add_pairs_spec(mr, adds);
    let scang = crate::gaming::listed_pair(scan, p, WORKLOAD_GAMING);
    let scana = crate::gaming::listed_pair(scan, p, WORKLOAD_AI);
    // A PID cannot be listed under both classes in one scan.
    if scang && scana {
        let t1 = choose|t1: int| 0 <= t1 < scan.len() && #[trigger] scan[t1] == (
            p,
            WORKLOAD_GAMING,
        );
        let t2 = choose|t2: int| 0 <= t2 < scan.len() && #[trigger] scan[t2] == (p, WORKLOAD_AI);
        assert(scan[t1].0 == scan[t2].0 && t1 != t2);
        assert(false);
    }
    // Whether the additions carry p, and the key-bit bridges.
    if crate::gaming::listed_pair(adds, p, WORKLOAD_GAMING) {
        let t = choose|t: int| 0 <= t < adds.len() && #[trigger] adds[t] == (p, WORKLOAD_GAMING);
        assert(adds[t].0 as u64 == p as u64);
        assert(pairs_has_key(adds, p as u64));
        assert(m1[adds[t].0 as u64] == adds[t].1);
    }
    if crate::gaming::listed_pair(adds, p, WORKLOAD_AI) {
        let t = choose|t: int| 0 <= t < adds.len() && #[trigger] adds[t] == (p, WORKLOAD_AI);
        assert(adds[t].0 as u64 == p as u64);
        assert(pairs_has_key(adds, p as u64));
        assert(m1[adds[t].0 as u64] == adds[t].1);
    }
    if pairs_has_key(adds, p as u64) {
        let t = choose|t: int| 0 <= t < adds.len() && (#[trigger] adds[t]).0 as u64 == p as u64;
        assert(adds[t].0 == p);
    }
    if pids_has_key(rems, p as u64) {
        let t = choose|t: int| 0 <= t < rems.len() && (#[trigger] rems[t]) as u64 == p as u64;
        assert(rems[t] == p);
        assert(rems.contains(p));
    }
    if rems.contains(p) {
        let t = choose|t: int| 0 <= t < rems.len() && rems[t] == p;
        assert(rems[t] as u64 == p as u64);
        assert(pids_has_key(rems, p as u64));
    }
    if scang {
        if g0.contains(p) {
            // Already mapped as gaming; not removed, not re-added.
            if rems.contains(p) {
                let t = choose|t: int| 0 <= t < rems.len() && rems[t] == p;
                assert(rems[t] == p);
                assert(false);
            }
            if pairs_has_key(adds, p as u64) {
                let t = choose|t: int|
                    0 <= t < adds.len() && (#[trigger] adds[t]).0 as u64 == p as u64;
                assert(adds[t].0 == p);
                assert(false);
            }
            assert(m0.contains_key(p as u64) && m0[p as u64] == WORKLOAD_GAMING);
            assert(m1.contains_key(p as u64));
            assert(m1[p as u64] == mr[p as u64]);
        } else {
            // Newly gaming: upserted this tick.
            assert(crate::gaming::listed_pair(adds, p, WORKLOAD_GAMING));
            assert(m1[p as u64] == WORKLOAD_GAMING);
        }
    } else if scana {
        if a0.contains(p) {
            if rems.contains(p) {
                let t = choose|t: int| 0 <= t < rems.len() && rems[t] == p;
                assert(rems[t] == p);
                assert(false);
            }
            if pairs_has_key(adds, p as u64) {
                let t = choose|t: int|
                    0 <= t < adds.len() && (#[trigger] adds[t]).0 as u64 == p as u64;
                assert(adds[t].0 == p);
                assert(false);
            }
            assert(m0.contains_key(p as u64) && m0[p as u64] == WORKLOAD_AI);
            assert(m1.contains_key(p as u64));
            assert(m1[p as u64] == mr[p as u64]);
        } else {
            assert(crate::gaming::listed_pair(adds, p, WORKLOAD_AI));
            assert(m1[p as u64] == WORKLOAD_AI);
        }
    } else {
        // Not in this scan: p must not survive in the map.
        if pairs_has_key(adds, p as u64) {
            let t = choose|t: int|
                0 <= t < adds.len() && (#[trigger] adds[t]).0 as u64 == p as u64;
            assert(adds[t].0 == p);
            assert(false);
        }
        if m0.contains_key(p as u64) {
            assert(g0.contains(p) || a0.contains(p));
            assert(rems.contains(p));
        }
        assert(!m1.contains_key(p as u64));
    }
}


/// The scanners partition PIDs by origin, so under that premise no PID
/// stands in more than one classification map: maps whose key sets are
/// the (disjoint) seen sets of different scanners share no key.
pub proof fn lemma_maps_disjoint_by_origin(
    m1: Map<u64, u32>,
    m2: Map<u64, u32>,
    s1: Set<u32>,
    s2: Set<u32>,
)
    requires
        forall|p: u32| #[trigger] m1.contains_key(p as u64) ==> s1.contains(p),
        forall|p: u32| #[trigger] m2.contains_key(p as u64) ==> s2.contains(p),
        forall|k: u64| #[trigger] m1.contains_key(k) ==> k < 0x1_0000_0000,
        forall|k: u64| #[trigger] m2.contains_key(k) ==> k < 0x1_0000_0000,
        forall|p: u32| !(s1.contains(p) && #[trigger] s2.contains(p)),
    ensures
        forall|k: u64| !(m1.contains_key(k) && #[trigger] m2.contains_key(k)),
{
    assert forall|k: u64| !(m1.contains_key(k) && #[trigger] m2.contains_key(k)) by {
        if m1.contains_key(k) && m2.contains_key(k) {
            let p = k as u32;
            assert(p as u64 == k);
            assert(s1.contains(p) && s2.contains(p));
        }
    }
}

} // verus!
