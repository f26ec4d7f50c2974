//! The ring-buffer event records produced by the in-kernel program: a
//! 64-byte native-endian layout, decoded field by field, with per-kind
//! counters.

use vstd::prelude::*;

use crate::bytes::le_u32;
use crate::bytes::le_u64;
use crate::bytes::push_u32_le;
use crate::bytes::push_u64_le;
use crate::bytes::u32_le;
use crate::bytes::u64_le;

verus! {

pub const EVENT_GAMING_DETECTED: u32 = 1;

pub const EVENT_VCACHE_MIGRATION: u32 = 2;

pub const EVENT_PREEMPT_KICK: u32 = 3;

pub const EVENT_HIGH_LATENCY: u32 = 4;

pub const EVENT_CCD_IMBALANCE: u32 = 5;

pub const EVENT_PROFILE_MATCH: u32 = 6;

/// Size of one wire record.
pub const EVENT_RECORD_SIZE: usize = 64;

/// One scheduler event as shared with the in-kernel producer.
#[derive(Clone, Copy)]
pub struct SchedEvent {
    pub timestamp_ns: u64,
    pub event_type: u32,
    pub pid: u32,
    pub cpu: u32,
    pub ccd: u32,
    pub value1: u64,
    pub value2: u64,
    /// Command name, NUL-terminated.
    pub comm: [u8; 16],
}

/// The 64-byte wire form of an event record: the fields in order, the
/// 16-byte command name, and eight bytes of padding.
pub open spec fn spec_encode_event(e: SchedEvent) -> Seq<u8> {
    u64_le(e.timestamp_ns) + u32_le(e.event_type) + u32_le(e.pid) + u32_le(e.cpu) + u32_le(e.ccd)
        + u64_le(e.value1) + u64_le(e.value2) + e.comm@ + seq![0u8, 0u8, 0u8, 0u8, 0u8, 0u8, 0u8, 0u8]
}

impl SchedEvent {
    /// The record encoded as the in-kernel producer lays it out.
    pub fn encode(&self) -> (r: Vec<u8>)
        ensures
            r@ == spec_encode_event(*self),
            r@.len() == EVENT_RECORD_SIZE,
    {
        let mut out: Vec<u8> = Vec::new();
        push_u64_le(&mut out, self.timestamp_ns);
        push_u32_le(&mut out, self.event_type);
        push_u32_le(&mut out, self.pid);
        push_u32_le(&mut out, self.cpu);
        push_u32_le(&mut out, self.ccd);
        push_u64_le(&mut out, self.value1);
        push_u64_le(&mut out, self.value2);
        let mut i: usize = 0;
        while i < 16
            invariant
                0 <= i <= 16,
                out@.len() == 40 + i,
                out@.subrange(0, 40) == old_part(*self),
                out@.subrange(40, out@.len() as int) =~= self.comm@.subrange(0, i as int),
            decreases 16 - i,
        {
            out.push(self.comm[i]);
            proof {
                assert(out@.subrange(0, 40) =~= old_part(*self));
                assert(out@.subrange(40, out@.len() as int) =~= self.comm@.subrange(0, i + 1));
            }
            i = i + 1;
        }
        out.push(0);
        out.push(0);
        out.push(0);
        out.push(0);
        out.push(0);
        out.push(0);
        out.push(0);
        out.push(0);
        proof {
            assert(self.comm@.subrange(0, 16) =~= self.comm@);
            assert(out@ =~= spec_encode_event(*self));
        }
        out
    }

    /// Decode a wire record. Returns `Some` exactly when the buffer holds
    /// at least one full record; a shorter buffer is a truncated record.
    pub fn decode(b: &Vec<u8>) -> (r: Option<SchedEvent>)
        ensures
            r is Some <==> b@.len() >= EVENT_RECORD_SIZE,
            r is Some ==> {
                let e = r->0;
                &&& e.timestamp_ns == le_u64(b@[0], b@[1], b@[2], b@[3], b@[4], b@[5], b@[6], b@[7])
                &&& e.event_type == le_u32(b@[8], b@[9], b@[10], b@[11])
                &&& e.pid == le_u32(b@[12], b@[13], b@[14], b@[15])
                &&& e.cpu == le_u32(b@[16], b@[17], b@[18], b@[19])
                &&& e.ccd == le_u32(b@[20], b@[21], b@[22], b@[23])
                &&& e.value1 == le_u64(
                    b@[24],
                    b@[25],
                    b@[26],
                    b@[27],
                    b@[28],
                    b@[29],
                    b@[30],
                    b@[31],
                )
                &&& e.value2 == le_u64(
                    b@[32],
                    b@[33],
                    b@[34],
                    b@[35],
                    b@[36],
                    b@[37],
                    b@[38],
                    b@[39],
                )
                &&& e.comm@ == b@.subrange(40, 56)
            },
    {
        if b.len() < EVENT_RECORD_SIZE {
            return None;
        }
        let timestamp_ns = crate::bytes::read_u64_le(b, 0);
        let event_type = crate::bytes::read_u32_le(b, 8);
        let pid = crate::bytes::read_u32_le(b, 12);
        let cpu = crate::bytes::read_u32_le(b, 16);
        let ccd = crate::bytes::read_u32_le(b, 20);
        let value1 = crate::bytes::read_u64_le(b, 24);
        let value2 = crate::bytes::read_u64_le(b, 32);
        let comm: [u8; 16] = [
            b[40],
            b[41],
            b[42],
            b[43],
            b[44],
            b[45],
            b[46],
            b[47],
            b[48],
            b[49],
            b[50],
            b[51],
            b[52],
            b[53],
            b[54],
            b[55],
        ];
        proof {
            assert(comm@ =~= b@.subrange(40, 56));
        }
        Some(SchedEvent { timestamp_ns, event_type, pid, cpu, ccd, value1, value2, comm })
    }
}

/// The leading 40 bytes of a record: every field before the command name.
pub open spec fn old_part(e: SchedEvent) -> Seq<u8> {
    u64_le(e.timestamp_ns) + u32_le(e.event_type) + u32_le(e.pid) + u32_le(e.cpu) + u32_le(e.ccd)
        + u64_le(e.value1) + u64_le(e.value2)
}

/// Encoding an event and decoding the bytes reproduces every field value
/// bit for bit.
pub proof fn lemma_event_roundtrip(e: SchedEvent)
    ensures
        ({
            let b = spec_encode_event(e);
            &&& b.len() == EVENT_RECORD_SIZE
            &&& le_u64(b[0], b[1], b[2], b[3], b[4], b[5], b[6], b[7]) == e.timestamp_ns
            &&& le_u32(b[8], b[9], b[10], b[11]) == e.event_type
            &&& le_u32(b[12], b[13], b[14], b[15]) == e.pid
            &&& le_u32(b[16], b[17], b[18], b[19]) == e.cpu
            &&& le_u32(b[20], b[21], b[22], b[23]) == e.ccd
            &&& le_u64(b[24], b[25], b[26], b[27], b[28], b[29], b[30], b[31]) == e.value1
            &&& le_u64(b[32], b[33], b[34], b[35], b[36], b[37], b[38], b[39]) == e.value2
            &&& b.subrange(40, 56) == e.comm@
        }),
{
    let b = spec_encode_event(e);
    crate::bytes::lemma_read_of_u64_le(e.timestamp_ns);
    crate::bytes::lemma_read_of_u32_le(e.event_type);
    crate::bytes::lemma_read_of_u32_le(e.pid);
    crate::bytes::lemma_read_of_u32_le(e.cpu);
    crate::bytes::lemma_read_of_u32_le(e.ccd);
    crate::bytes::lemma_read_of_u64_le(e.value1);
    crate::bytes::lemma_read_of_u64_le(e.value2);
    assert(b.subrange(40, 56) =~= e.comm@);
}

/// Position of the first NUL in the command name (16 when none).
pub open spec fn spec_nul_pos(s: Seq<u8>, from: int) -> int
    decreases s.len() - from,
{
    if from >= s.len() {
        from
    } else if s[from] == 0 {
        from
    } else {
        spec_nul_pos(s, from + 1)
    }
}

/// If every byte before `i` is non-zero and `i` is the length or a NUL,
/// then the first NUL from `k` on is at `i`.
proof fn lemma_nul_pos_from(s: Seq<u8>, k: int, i: int)
    requires
        0 <= k <= i <= s.len(),
        forall|j: int| k <= j < i ==> s[j] != 0,
        i == s.len() || s[i] == 0,
    ensures
        spec_nul_pos(s, k) == i,
    decreases i - k,
{
    if k < i {
        lemma_nul_pos_from(s, k + 1, i);
    }
}

impl SchedEvent {
    /// The command name as text: the bytes before the first NUL. For an
    /// ASCII name the characters are exactly those bytes.
    pub fn comm_str(&self) -> (r: String)
        ensures
            ({
                let end = spec_nul_pos(self.comm@, 0);
                (forall|i: int| 0 <= i < end ==> self.comm@[i] < 128) ==> r@ == self.comm@.subrange(
                    0,
                    end,
                ).map_values(|b: u8| b as char)
            }),
    {
        let mut prefix: Vec<u8> = Vec::new();
        let mut i: usize = 0;
        while i < 16 && self.comm[i] != 0
            invariant
                0 <= i <= 16,
                prefix@ =~= self.comm@.subrange(0, i as int),
                forall|j: int| 0 <= j < i ==> self.comm@[j] != 0,
            decreases 16 - i,
        {
            prefix.push(self.comm[i]);
            proof {
                assert(prefix@ =~= self.comm@.subrange(0, i + 1));
            }
            i = i + 1;
        }
        proof {
            lemma_nul_pos_from(self.comm@, 0, i as int);
            assert(prefix@ =~= self.comm@.subrange(0, spec_nul_pos(self.comm@, 0)));
        }
        crate::text::bytes_to_string(prefix.as_slice())
    }

    /// The name of the event kind.
    pub fn event_name(&self) -> (r: &'static str)
        ensures
            r@ == spec_event_name(self.event_type),
    {
        if self.event_type == EVENT_GAMING_DETECTED {
            "GamingDetected"
        } else if self.event_type == EVENT_VCACHE_MIGRATION {
            "VCacheMigration"
        } else if self.event_type == EVENT_PREEMPT_KICK {
            "PreemptKick"
        } else if self.event_type == EVENT_HIGH_LATENCY {
            "HighLatency"
        } else if self.event_type == EVENT_CCD_IMBALANCE {
            "CCDImbalance"
        } else if self.event_type == EVENT_PROFILE_MATCH {
            "ProfileMatch"
        } else {
            "Unknown"
        }
    }
}

/// The display name of each event kind.
pub open spec fn spec_event_name(k: u32) -> Seq<char> {
    if k == EVENT_GAMING_DETECTED {
        "GamingDetected"@
    } else if k == EVENT_VCACHE_MIGRATION {
        "VCacheMigration"@
    } else if k == EVENT_PREEMPT_KICK {
        "PreemptKick"@
    } else if k == EVENT_HIGH_LATENCY {
        "HighLatency"@
    } else if k == EVENT_CCD_IMBALANCE {
        "CCDImbalance"@
    } else if k == EVENT_PROFILE_MATCH {
        "ProfileMatch"@
    } else {
        "Unknown"@
    }
}

/// Bump a tally, holding at the maximum rather than wrapping.
pub open spec fn bumped(c: u64) -> u64 {
    if c < 0xffff_ffff_ffff_ffff {
        (c + 1) as u64
    } else {
        c
    }
}

/// The tallies after counting one event of the given kind: exactly the
/// matching kind's counter is bumped; an unknown kind counts nowhere.
pub open spec fn spec_record(c: EventCounters, kind: u32) -> EventCounters {
    EventCounters {
        gaming_detected: if kind == EVENT_GAMING_DETECTED {
            bumped(c.gaming_detected)
        } else {
            c.gaming_detected
        },
        vcache_migrations: if kind == EVENT_VCACHE_MIGRATION {
            bumped(c.vcache_migrations)
        } else {
            c.vcache_migrations
        },
        preempt_kicks: if kind == EVENT_PREEMPT_KICK {
            bumped(c.preempt_kicks)
        } else {
            c.preempt_kicks
        },
        high_latency: if kind == EVENT_HIGH_LATENCY {
            bumped(c.high_latency)
        } else {
            c.high_latency
        },
        ccd_imbalance: if kind == EVENT_CCD_IMBALANCE {
            bumped(c.ccd_imbalance)
        } else {
            c.ccd_imbalance
        },
        profile_matches: if kind == EVENT_PROFILE_MATCH {
            bumped(c.profile_matches)
        } else {
            c.profile_matches
        },
        dropped: c.dropped,
    }
}

/// Per-kind tallies of consumed events, plus a count of dropped
/// (truncated) records.
#[derive(Clone, Copy, PartialEq, Eq, Structural, Debug)]
pub struct EventCounters {
    pub gaming_detected: u64,
    pub vcache_migrations: u64,
    pub preempt_kicks: u64,
    pub high_latency: u64,
    pub ccd_imbalance: u64,
    pub profile_matches: u64,
    pub dropped: u64,
}

impl EventCounters {
    pub fn new() -> (r: EventCounters)
        ensures
            r == (EventCounters {
                gaming_detected: 0u64,
                vcache_migrations: 0u64,
                preempt_kicks: 0u64,
                high_latency: 0u64,
                ccd_imbalance: 0u64,
                profile_matches: 0u64,
                dropped: 0u64,
            }),
    {
        EventCounters {
            gaming_detected: 0,
            vcache_migrations: 0,
            preempt_kicks: 0,
            high_latency: 0,
            ccd_imbalance: 0,
            profile_matches: 0,
            dropped: 0,
        }
    }

    /// Count one event under its kind; an unknown kind counts nowhere.
    pub fn record(&mut self, event: &SchedEvent)
        ensures
            *final(self) == spec_record(*old(self), event.event_type),
    {
        if event.event_type == EVENT_GAMING_DETECTED {
            if self.gaming_detected < 0xffff_ffff_ffff_ffff {
                self.gaming_detected = self.gaming_detected + 1;
            }
        } else if event.event_type == EVENT_VCACHE_MIGRATION {
            if self.vcache_migrations < 0xffff_ffff_ffff_ffff {
                self.vcache_migrations = self.vcache_migrations + 1;
            }
        } else if event.event_type == EVENT_PREEMPT_KICK {
            if self.preempt_kicks < 0xffff_ffff_ffff_ffff {
                self.preempt_kicks = self.preempt_kicks + 1;
            }
        } else if event.event_type == EVENT_HIGH_LATENCY {
            if self.high_latency < 0xffff_ffff_ffff_ffff {
                self.high_latency = self.high_latency + 1;
            }
        } else if event.event_type == EVENT_CCD_IMBALANCE {
            if self.ccd_imbalance < 0xffff_ffff_ffff_ffff {
                self.ccd_imbalance = self.ccd_imbalance + 1;
            }
        } else if event.event_type == EVENT_PROFILE_MATCH {
            if self.profile_matches < 0xffff_ffff_ffff_ffff {
                self.profile_matches = self.profile_matches + 1;
            }
        }
    }

    /// Count one truncated record.
    pub fn record_dropped(&mut self)
        ensures
            *final(self) == (EventCounters { dropped: bumped(old(self).dropped), ..*old(self) }),
    {
        if self.dropped < 0xffff_ffff_ffff_ffff {
            self.dropped = self.dropped + 1;
        }
    }
}

/// Consume one raw ring-buffer record: a full record is decoded and the
/// tally of its kind is counted; a shorter one is counted as dropped.
pub fn handle_event(counters: &mut EventCounters, data: &Vec<u8>) -> (r: Option<SchedEvent>)
    ensures
        r is Some <==> data@.len() >= EVENT_RECORD_SIZE,
        r is Some ==> {
            let e = r->0;
            &&& e.timestamp_ns == le_u64(
                data@[0],
                data@[1],
                data@[2],
                data@[3],
                data@[4],
                data@[5],
                data@[6],
                data@[7],
            )
            &&& e.event_type == le_u32(data@[8], data@[9], data@[10], data@[11])
            &&& e.pid == le_u32(data@[12], data@[13], data@[14], data@[15])
            &&& e.cpu == le_u32(data@[16], data@[17], data@[18], data@[19])
            &&& e.ccd == le_u32(data@[20], data@[21], data@[22], data@[23])
            &&& e.value1 == le_u64(
                data@[24],
                data@[25],
                data@[26],
                data@[27],
                data@[28],
                data@[29],
                data@[30],
                data@[31],
            )
            &&& e.value2 == le_u64(
                data@[32],
                data@[33],
                data@[34],
                data@[35],
                data@[36],
                data@[37],
                data@[38],
                data@[39],
            )
            &&& e.comm@ == data@.subrange(40, 56)
            &&& *final(counters) == spec_record(*old(counters), e.event_type)
        },
        data@.len() < EVENT_RECORD_SIZE ==> *final(counters) == (EventCounters {
            dropped: bumped(old(counters).dropped),
            ..*old(counters)
        }),
{
    match SchedEvent::decode(data) {
        Some(e) => {
            counters.record(&e);
            Some(e)
        },
        None => {
            counters.record_dropped();
            None
        },
    }
}



/// The bytes "Proton task detected: ".
pub open spec fn t_proton() -> Seq<u8> {
    seq![80u8, 114u8, 111u8, 116u8, 111u8, 110u8, 32u8, 116u8, 97u8, 115u8, 107u8, 32u8, 100u8, 101u8, 116u8, 101u8, 99u8, 116u8, 101u8, 100u8, 58u8, 32u8]
}

/// The bytes "Gaming task detected: ".
pub open spec fn t_gaming() -> Seq<u8> {
    seq![71u8, 97u8, 109u8, 105u8, 110u8, 103u8, 32u8, 116u8, 97u8, 115u8, 107u8, 32u8, 100u8, 101u8, 116u8, 101u8, 99u8, 116u8, 101u8, 100u8, 58u8, 32u8]
}

/// The bytes " (PID ".
pub open spec fn t_pid_open() -> Seq<u8> {
    seq![32u8, 40u8, 80u8, 73u8, 68u8, 32u8]
}

/// The bytes ") on CPU ".
pub open spec fn t_on_cpu() -> Seq<u8> {
    seq![41u8, 32u8, 111u8, 110u8, 32u8, 67u8, 80u8, 85u8, 32u8]
}

/// The bytes " (GPU)".
pub open spec fn t_gpu() -> Seq<u8> {
    seq![32u8, 40u8, 71u8, 80u8, 85u8, 41u8]
}

/// The bytes "V-Cache migration: PID ".
pub open spec fn t_vcache() -> Seq<u8> {
    seq![86u8, 45u8, 67u8, 97u8, 99u8, 104u8, 101u8, 32u8, 109u8, 105u8, 103u8, 114u8, 97u8, 116u8, 105u8, 111u8, 110u8, 58u8, 32u8, 80u8, 73u8, 68u8, 32u8]
}

/// The bytes " CPU ".
pub open spec fn t_cpu() -> Seq<u8> {
    seq![32u8, 67u8, 80u8, 85u8, 32u8]
}

/// The bytes " (cluster ".
pub open spec fn t_cluster_open() -> Seq<u8> {
    seq![32u8, 40u8, 99u8, 108u8, 117u8, 115u8, 116u8, 101u8, 114u8, 32u8]
}

/// The bytes " -> cluster ".
pub open spec fn t_arrow() -> Seq<u8> {
    seq![32u8, 45u8, 62u8, 32u8, 99u8, 108u8, 117u8, 115u8, 116u8, 101u8, 114u8, 32u8]
}

/// The bytes ")".
pub open spec fn t_close() -> Seq<u8> {
    seq![41u8]
}

/// The bytes "Preempt kick: PID ".
pub open spec fn t_preempt() -> Seq<u8> {
    seq![80u8, 114u8, 101u8, 101u8, 109u8, 112u8, 116u8, 32u8, 107u8, 105u8, 99u8, 107u8, 58u8, 32u8, 80u8, 73u8, 68u8, 32u8]
}

/// The bytes " kicked CPU ".
pub open spec fn t_kicked() -> Seq<u8> {
    seq![32u8, 107u8, 105u8, 99u8, 107u8, 101u8, 100u8, 32u8, 67u8, 80u8, 85u8, 32u8]
}

/// The bytes " on cluster ".
pub open spec fn t_on_cluster() -> Seq<u8> {
    seq![32u8, 111u8, 110u8, 32u8, 99u8, 108u8, 117u8, 115u8, 116u8, 101u8, 114u8, 32u8]
}

/// The bytes "High latency: PID ".
pub open spec fn t_latency() -> Seq<u8> {
    seq![72u8, 105u8, 103u8, 104u8, 32u8, 108u8, 97u8, 116u8, 101u8, 110u8, 99u8, 121u8, 58u8, 32u8, 80u8, 73u8, 68u8, 32u8]
}

/// The bytes " on CPU ".
pub open spec fn t_on_cpu2() -> Seq<u8> {
    seq![32u8, 111u8, 110u8, 32u8, 67u8, 80u8, 85u8, 32u8]
}

/// The bytes " - ".
pub open spec fn t_dash() -> Seq<u8> {
    seq![32u8, 45u8, 32u8]
}

/// The bytes "us (threshold ".
pub open spec fn t_us_threshold() -> Seq<u8> {
    seq![117u8, 115u8, 32u8, 40u8, 116u8, 104u8, 114u8, 101u8, 115u8, 104u8, 111u8, 108u8, 100u8, 32u8]
}

/// The bytes "us)".
pub open spec fn t_us_close() -> Seq<u8> {
    seq![117u8, 115u8, 41u8]
}

/// The bytes "Cluster imbalance: cluster ".
pub open spec fn t_imbalance() -> Seq<u8> {
    seq![67u8, 108u8, 117u8, 115u8, 116u8, 101u8, 114u8, 32u8, 105u8, 109u8, 98u8, 97u8, 108u8, 97u8, 110u8, 99u8, 101u8, 58u8, 32u8, 99u8, 108u8, 117u8, 115u8, 116u8, 101u8, 114u8, 32u8]
}

/// The bytes " has ".
pub open spec fn t_has() -> Seq<u8> {
    seq![32u8, 104u8, 97u8, 115u8, 32u8]
}

/// The bytes " tasks vs ".
pub open spec fn t_vs() -> Seq<u8> {
    seq![32u8, 116u8, 97u8, 115u8, 107u8, 115u8, 32u8, 118u8, 115u8, 32u8]
}

/// The bytes " tasks".
pub open spec fn t_tasks() -> Seq<u8> {
    seq![32u8, 116u8, 97u8, 115u8, 107u8, 115u8]
}

/// The bytes "Profile matched: ".
pub open spec fn t_matched() -> Seq<u8> {
    seq![80u8, 114u8, 111u8, 102u8, 105u8, 108u8, 101u8, 32u8, 109u8, 97u8, 116u8, 99u8, 104u8, 101u8, 100u8, 58u8, 32u8]
}

/// The bytes "Unknown event type ".
pub open spec fn t_unknown() -> Seq<u8> {
    seq![85u8, 110u8, 107u8, 110u8, 111u8, 119u8, 110u8, 32u8, 101u8, 118u8, 101u8, 110u8, 116u8, 32u8, 116u8, 121u8, 112u8, 101u8, 32u8]
}

/// The command-name prefix of the record: the bytes before the first NUL.
pub open spec fn spec_comm_prefix(e: SchedEvent) -> Seq<u8> {
    e.comm@.subrange(0, spec_nul_pos(e.comm@, 0))
}

/// Every byte of the string is ASCII.
pub open spec fn ascii_seq(s: Seq<u8>) -> bool {
    forall|i: int| 0 <= i < s.len() ==> s[i] < 128
}

/// The log message of an event, as bytes: a fixed text per kind with the
/// decimal field values, and the command name where the kind carries one.
pub open spec fn spec_format(e: SchedEvent) -> Seq<u8> {
    let d = |v: u64| crate::textnum::dec_bytes(v as nat);
    if e.event_type == EVENT_GAMING_DETECTED {
        (if e.value1 == 2 {
            t_proton()
        } else {
            t_gaming()
        }) + spec_comm_prefix(e) + t_pid_open() + crate::textnum::dec_bytes(e.pid as nat)
            + t_on_cpu() + crate::textnum::dec_bytes(e.cpu as nat) + (if e.value2 == 1 {
            t_gpu()
        } else {
            Seq::<u8>::empty()
        })
    } else if e.event_type == EVENT_VCACHE_MIGRATION {
        t_vcache() + crate::textnum::dec_bytes(e.pid as nat) + t_cpu() + crate::textnum::dec_bytes(
            e.cpu as nat,
        ) + t_cluster_open() + crate::textnum::dec_bytes(e.value1 as nat) + t_arrow()
            + crate::textnum::dec_bytes(e.ccd as nat) + t_close()
    } else if e.event_type == EVENT_PREEMPT_KICK {
        t_preempt() + crate::textnum::dec_bytes(e.pid as nat) + t_kicked()
            + crate::textnum::dec_bytes(e.cpu as nat) + t_on_cluster() + crate::textnum::dec_bytes(
            e.ccd as nat,
        )
    } else if e.event_type == EVENT_HIGH_LATENCY {
        t_latency() + crate::textnum::dec_bytes(e.pid as nat) + t_on_cpu2()
            + crate::textnum::dec_bytes(e.cpu as nat) + t_dash() + crate::textnum::dec_bytes(
            e.value1 as nat,
        ) + t_us_threshold() + crate::textnum::dec_bytes(e.value2 as nat) + t_us_close()
    } else if e.event_type == EVENT_CCD_IMBALANCE {
        t_imbalance() + crate::textnum::dec_bytes(e.ccd as nat) + t_has()
            + crate::textnum::dec_bytes(e.value1 as nat) + t_vs() + crate::textnum::dec_bytes(
            e.value2 as nat,
        ) + t_tasks()
    } else if e.event_type == EVENT_PROFILE_MATCH {
        t_matched() + spec_comm_prefix(e) + t_pid_open() + crate::textnum::dec_bytes(e.pid as nat)
            + t_on_cpu() + crate::textnum::dec_bytes(e.cpu as nat)
    } else {
        t_unknown() + crate::textnum::dec_bytes(e.event_type as nat)
    }
}

/// ASCII strings stay ASCII under concatenation.
proof fn lemma_ascii_concat(a: Seq<u8>, b: Seq<u8>)
    requires
        ascii_seq(a),
        ascii_seq(b),
    ensures
        ascii_seq(a + b),
{
    assert forall|i: int| 0 <= i < (a + b).len() implies (a + b)[i] < 128 by {
        if i < a.len() {
            assert((a + b)[i] == a[i]);
        } else {
            assert((a + b)[i] == b[i - a.len()]);
        }
    }
}

/// Decimal digits are ASCII.
proof fn lemma_ascii_dec(n: nat)
    ensures
        ascii_seq(crate::textnum::dec_bytes(n)),
{
    crate::textnum::lemma_dec_roundtrip(n);
}

/// For every kind that carries no command name, the whole message is
/// ASCII: the fixed texts and the decimal numbers are.
pub proof fn lemma_format_ascii(e: SchedEvent)
    requires
        e.event_type != EVENT_GAMING_DETECTED,
        e.event_type != EVENT_PROFILE_MATCH,
    ensures
        ascii_seq(spec_format(e)),
{
    lemma_ascii_dec(e.pid as nat);
    lemma_ascii_dec(e.cpu as nat);
    lemma_ascii_dec(e.ccd as nat);
    lemma_ascii_dec(e.value1 as nat);
    lemma_ascii_dec(e.value2 as nat);
    lemma_ascii_dec(e.event_type as nat);
    let dpid = crate::textnum::dec_bytes(e.pid as nat);
    let dcpu = crate::textnum::dec_bytes(e.cpu as nat);
    let dccd = crate::textnum::dec_bytes(e.ccd as nat);
    let dv1 = crate::textnum::dec_bytes(e.value1 as nat);
    let dv2 = crate::textnum::dec_bytes(e.value2 as nat);
    if e.event_type == EVENT_VCACHE_MIGRATION {
        lemma_ascii_concat(t_vcache(), dpid);
        lemma_ascii_concat(t_vcache() + dpid, t_cpu());
        lemma_ascii_concat(t_vcache() + dpid + t_cpu(), dcpu);
        lemma_ascii_concat(t_vcache() + dpid + t_cpu() + dcpu, t_cluster_open());
        lemma_ascii_concat(t_vcache() + dpid + t_cpu() + dcpu + t_cluster_open(), dv1);
        lemma_ascii_concat(t_vcache() + dpid + t_cpu() + dcpu + t_cluster_open() + dv1, t_arrow());
        lemma_ascii_concat(
            t_vcache() + dpid + t_cpu() + dcpu + t_cluster_open() + dv1 + t_arrow(),
            dccd,
        );
        lemma_ascii_concat(
            t_vcache() + dpid + t_cpu() + dcpu + t_cluster_open() + dv1 + t_arrow() + dccd,
            t_close(),
        );
    } else if e.event_type == EVENT_PREEMPT_KICK {
        lemma_ascii_concat(t_preempt(), dpid);
        lemma_ascii_concat(t_preempt() + dpid, t_kicked());
        lemma_ascii_concat(t_preempt() + dpid + t_kicked(), dcpu);
        lemma_ascii_concat(t_preempt() + dpid + t_kicked() + dcpu, t_on_cluster());
        lemma_ascii_concat(t_preempt() + dpid + t_kicked() + dcpu + t_on_cluster(), dccd);
    } else if e.event_type == EVENT_HIGH_LATENCY {
        lemma_ascii_concat(t_latency(), dpid);
        lemma_ascii_concat(t_latency() + dpid, t_on_cpu2());
        lemma_ascii_concat(t_latency() + dpid + t_on_cpu2(), dcpu);
        lemma_ascii_concat(t_latency() + dpid + t_on_cpu2() + dcpu, t_dash());
        lemma_ascii_concat(t_latency() + dpid + t_on_cpu2() + dcpu + t_dash(), dv1);
        lemma_ascii_concat(
            t_latency() + dpid + t_on_cpu2() + dcpu + t_dash() + dv1,
            t_us_threshold(),
        );
        lemma_ascii_concat(
            t_latency() + dpid + t_on_cpu2() + dcpu + t_dash() + dv1 + t_us_threshold(),
            dv2,
        );
        lemma_ascii_concat(
            t_latency() + dpid + t_on_cpu2() + dcpu + t_dash() + dv1 + t_us_threshold() + dv2,
            t_us_close(),
        );
    } else if e.event_type == EVENT_CCD_IMBALANCE {
        lemma_ascii_concat(t_imbalance(), dccd);
        lemma_ascii_concat(t_imbalance() + dccd, t_has());
        lemma_ascii_concat(t_imbalance() + dccd + t_has(), dv1);
        lemma_ascii_concat(t_imbalance() + dccd + t_has() + dv1, t_vs());
        lemma_ascii_concat(t_imbalance() + dccd + t_has() + dv1 + t_vs(), dv2);
        lemma_ascii_concat(t_imbalance() + dccd + t_has() + dv1 + t_vs() + dv2, t_tasks());
    } else {
        lemma_ascii_concat(t_unknown(), crate::textnum::dec_bytes(e.event_type as nat));
    }
}

impl SchedEvent {
    /// The command-name prefix bytes, before the first NUL.
    fn comm_prefix(&self) -> (r: Vec<u8>)
        ensures
            r@ == spec_comm_prefix(*self),
    {
        let mut prefix: Vec<u8> = Vec::new();
        let mut i: usize = 0;
        while i < 16 && self.comm[i] != 0
            invariant
                0 <= i <= 16,
                prefix@ =~= self.comm@.subrange(0, i as int),
                forall|j: int| 0 <= j < i ==> self.comm@[j] != 0,
            decreases 16 - i,
        {
            prefix.push(self.comm[i]);
            proof {
                assert(prefix@ =~= self.comm@.subrange(0, i + 1));
            }
            i = i + 1;
        }
        proof {
            lemma_nul_pos_from(self.comm@, 0, i as int);
            assert(prefix@ =~= spec_comm_prefix(*self));
        }
        prefix
    }

    /// A one-line log message for the event: for an ASCII message the
    /// text is exactly `spec_format`, and every kind without a command
    /// name yields an ASCII message.
    pub fn format(&self) -> (r: String)
        ensures
            ascii_seq(spec_format(*self)) ==> crate::text::string_bytes(r@) == spec_format(*self),
            self.event_type != EVENT_GAMING_DETECTED && self.event_type != EVENT_PROFILE_MATCH
                ==> ascii_seq(spec_format(*self)),
    {
        let t_protonv: Vec<u8> = vec![80u8, 114u8, 111u8, 116u8, 111u8, 110u8, 32u8, 116u8, 97u8, 115u8, 107u8, 32u8, 100u8, 101u8, 116u8, 101u8, 99u8, 116u8, 101u8, 100u8, 58u8, 32u8];  // Proton task detected:
        let t_gamingv: Vec<u8> = vec![71u8, 97u8, 109u8, 105u8, 110u8, 103u8, 32u8, 116u8, 97u8, 115u8, 107u8, 32u8, 100u8, 101u8, 116u8, 101u8, 99u8, 116u8, 101u8, 100u8, 58u8, 32u8];  // Gaming task detected:
        let t_pid_openv: Vec<u8> = vec![32u8, 40u8, 80u8, 73u8, 68u8, 32u8];  // (PID
        let t_on_cpuv: Vec<u8> = vec![41u8, 32u8, 111u8, 110u8, 32u8, 67u8, 80u8, 85u8, 32u8];  // ) on CPU
        let t_gpuv: Vec<u8> = vec![32u8, 40u8, 71u8, 80u8, 85u8, 41u8];  // (GPU)
        let t_vcachev: Vec<u8> = vec![86u8, 45u8, 67u8, 97u8, 99u8, 104u8, 101u8, 32u8, 109u8, 105u8, 103u8, 114u8, 97u8, 116u8, 105u8, 111u8, 110u8, 58u8, 32u8, 80u8, 73u8, 68u8, 32u8];  // V-Cache migration: PID
        let t_cpuv: Vec<u8> = vec![32u8, 67u8, 80u8, 85u8, 32u8];  // CPU
        let t_cluster_openv: Vec<u8> = vec![32u8, 40u8, 99u8, 108u8, 117u8, 115u8, 116u8, 101u8, 114u8, 32u8];  // (cluster
        let t_arrowv: Vec<u8> = vec![32u8, 45u8, 62u8, 32u8, 99u8, 108u8, 117u8, 115u8, 116u8, 101u8, 114u8, 32u8];  // -> cluster
        let t_closev: Vec<u8> = vec![41u8];  // )
        let t_preemptv: Vec<u8> = vec![80u8, 114u8, 101u8, 101u8, 109u8, 112u8, 116u8, 32u8, 107u8, 105u8, 99u8, 107u8, 58u8, 32u8, 80u8, 73u8, 68u8, 32u8];  // Preempt kick: PID
        let t_kickedv: Vec<u8> = vec![32u8, 107u8, 105u8, 99u8, 107u8, 101u8, 100u8, 32u8, 67u8, 80u8, 85u8, 32u8];  // kicked CPU
        let t_on_clusterv: Vec<u8> = vec![32u8, 111u8, 110u8, 32u8, 99u8, 108u8, 117u8, 115u8, 116u8, 101u8, 114u8, 32u8];  // on cluster
        let t_latencyv: Vec<u8> = vec![72u8, 105u8, 103u8, 104u8, 32u8, 108u8, 97u8, 116u8, 101u8, 110u8, 99u8, 121u8, 58u8, 32u8, 80u8, 73u8, 68u8, 32u8];  // High latency: PID
        let t_on_cpu2v: Vec<u8> = vec![32u8, 111u8, 110u8, 32u8, 67u8, 80u8, 85u8, 32u8];  // on CPU
        let t_dashv: Vec<u8> = vec![32u8, 45u8, 32u8];  // -
        let t_us_thresholdv: Vec<u8> = vec![117u8, 115u8, 32u8, 40u8, 116u8, 104u8, 114u8, 101u8, 115u8, 104u8, 111u8, 108u8, 100u8, 32u8];  // us (threshold
        let t_us_closev: Vec<u8> = vec![117u8, 115u8, 41u8];  // us)
        let t_imbalancev: Vec<u8> = vec![67u8, 108u8, 117u8, 115u8, 116u8, 101u8, 114u8, 32u8, 105u8, 109u8, 98u8, 97u8, 108u8, 97u8, 110u8, 99u8, 101u8, 58u8, 32u8, 99u8, 108u8, 117u8, 115u8, 116u8, 101u8, 114u8, 32u8];  // Cluster imbalance: cluster
        let t_hasv: Vec<u8> = vec![32u8, 104u8, 97u8, 115u8, 32u8];  // has
        let t_vsv: Vec<u8> = vec![32u8, 116u8, 97u8, 115u8, 107u8, 115u8, 32u8, 118u8, 115u8, 32u8];  // tasks vs
        let t_tasksv: Vec<u8> = vec![32u8, 116u8, 97u8, 115u8, 107u8, 115u8];  // tasks
        let t_matchedv: Vec<u8> = vec![80u8, 114u8, 111u8, 102u8, 105u8, 108u8, 101u8, 32u8, 109u8, 97u8, 116u8, 99u8, 104u8, 101u8, 100u8, 58u8, 32u8];  // Profile matched:
        let t_unknownv: Vec<u8> = vec![85u8, 110u8, 107u8, 110u8, 111u8, 119u8, 110u8, 32u8, 101u8, 118u8, 101u8, 110u8, 116u8, 32u8, 116u8, 121u8, 112u8, 101u8, 32u8];  // Unknown event type
        proof {
            assert(t_protonv@ =~= t_proton());
            assert(t_gamingv@ =~= t_gaming());
            assert(t_pid_openv@ =~= t_pid_open());
            assert(t_on_cpuv@ =~= t_on_cpu());
            assert(t_gpuv@ =~= t_gpu());
            assert(t_vcachev@ =~= t_vcache());
            assert(t_cpuv@ =~= t_cpu());
            assert(t_cluster_openv@ =~= t_cluster_open());
            assert(t_arrowv@ =~= t_arrow());
            assert(t_closev@ =~= t_close());
            assert(t_preemptv@ =~= t_preempt());
            assert(t_kickedv@ =~= t_kicked());
            assert(t_on_clusterv@ =~= t_on_cluster());
            assert(t_latencyv@ =~= t_latency());
            assert(t_on_cpu2v@ =~= t_on_cpu2());
            assert(t_dashv@ =~= t_dash());
            assert(t_us_thresholdv@ =~= t_us_threshold());
            assert(t_us_closev@ =~= t_us_close());
            assert(t_imbalancev@ =~= t_imbalance());
            assert(t_hasv@ =~= t_has());
            assert(t_vsv@ =~= t_vs());
            assert(t_tasksv@ =~= t_tasks());
            assert(t_matchedv@ =~= t_matched());
            assert(t_unknownv@ =~= t_unknown());
        }
        let mut out: Vec<u8> = Vec::new();
        if self.event_type == EVENT_GAMING_DETECTED {
            if self.value1 == 2 {
                push_lit(&mut out, &t_protonv);
            } else {
                push_lit(&mut out, &t_gamingv);
            }
            let prefix = self.comm_prefix();
            push_lit(&mut out, &prefix);
            push_lit(&mut out, &t_pid_openv);
            push_dec(&mut out, self.pid as u64);
            push_lit(&mut out, &t_on_cpuv);
            push_dec(&mut out, self.cpu as u64);
            if self.value2 == 1 {
                push_lit(&mut out, &t_gpuv);
            }
        } else if self.event_type == EVENT_VCACHE_MIGRATION {
            push_lit(&mut out, &t_vcachev);
            push_dec(&mut out, self.pid as u64);
            push_lit(&mut out, &t_cpuv);
            push_dec(&mut out, self.cpu as u64);
            push_lit(&mut out, &t_cluster_openv);
            push_dec(&mut out, self.value1);
            push_lit(&mut out, &t_arrowv);
            push_dec(&mut out, self.ccd as u64);
            push_lit(&mut out, &t_closev);
        } else if self.event_type == EVENT_PREEMPT_KICK {
            push_lit(&mut out, &t_preemptv);
            push_dec(&mut out, self.pid as u64);
            push_lit(&mut out, &t_kickedv);
            push_dec(&mut out, self.cpu as u64);
            push_lit(&mut out, &t_on_clusterv);
            push_dec(&mut out, self.ccd as u64);
        } else if self.event_type == EVENT_HIGH_LATENCY {
            push_lit(&mut out, &t_latencyv);
            push_dec(&mut out, self.pid as u64);
            push_lit(&mut out, &t_on_cpu2v);
            push_dec(&mut out, self.cpu as u64);
            push_lit(&mut out, &t_dashv);
            push_dec(&mut out, self.value1);
            push_lit(&mut out, &t_us_thresholdv);
            push_dec(&mut out, self.value2);
            push_lit(&mut out, &t_us_closev);
        } else if self.event_type == EVENT_CCD_IMBALANCE {
            push_lit(&mut out, &t_imbalancev);
            push_dec(&mut out, self.ccd as u64);
            push_lit(&mut out, &t_hasv);
            push_dec(&mut out, self.value1);
            push_lit(&mut out, &t_vsv);
            push_dec(&mut out, self.value2);
            push_lit(&mut out, &t_tasksv);
        } else if self.event_type == EVENT_PROFILE_MATCH {
            push_lit(&mut out, &t_matchedv);
            let prefix = self.comm_prefix();
            push_lit(&mut out, &prefix);
            push_lit(&mut out, &t_pid_openv);
            push_dec(&mut out, self.pid as u64);
            push_lit(&mut out, &t_on_cpuv);
            push_dec(&mut out, self.cpu as u64);
        } else {
            push_lit(&mut out, &t_unknownv);
            push_dec(&mut out, self.event_type as u64);
        }
        proof {
            assert(out@ =~= spec_format(*self));
            if self.event_type != EVENT_GAMING_DETECTED && self.event_type != EVENT_PROFILE_MATCH {
                lemma_format_ascii(*self);
            }
        }
        let n: usize = out.len();
        let mut ascii: bool = true;
        let mut i: usize = 0;
        while i < n
            invariant
                0 <= i <= n,
                n == out@.len(),
                ascii == forall|j: int| 0 <= j < i ==> out@[j] < 128,
            decreases n - i,
        {
            let ghost pre = ascii;
            if out[i] >= 128 {
                ascii = false;
            }
            proof {
                if ascii {
                    assert(out@[i as int] < 128);
                } else {
                    if pre && out@[i as int] < 128 {
                        assert(false);
                    }
                }
            }
            i = i + 1;
        }
        if ascii {
            crate::text::bytes_to_string_exact(out.as_slice())
        } else {
            crate::text::bytes_to_string(out.as_slice())
        }
    }
}

/// Append literal message bytes.
fn push_lit(out: &mut Vec<u8>, t: &Vec<u8>)
    ensures
        final(out)@ == old(out)@ + t@,
{
    crate::profile_text::append_bytes(out, t.as_slice());
}

/// Append a decimal number to a message.
fn push_dec(out: &mut Vec<u8>, v: u64)
    ensures
        final(out)@ == old(out)@ + crate::textnum::dec_bytes(v as nat),
{
    let d = crate::textnum::u64_to_dec(v);
    crate::profile_text::append_bytes(out, d.as_slice());
}

/// The bytes "events: gaming=".
pub open spec fn t_sum_gaming() -> Seq<u8> {
    seq![
        101u8, 118u8, 101u8, 110u8, 116u8, 115u8, 58u8, 32u8, 103u8, 97u8, 109u8, 105u8, 110u8,
        103u8, 61u8,
    ]
}

/// The bytes ", migrations=".
pub open spec fn t_sum_migrations() -> Seq<u8> {
    seq![44u8, 32u8, 109u8, 105u8, 103u8, 114u8, 97u8, 116u8, 105u8, 111u8, 110u8, 115u8, 61u8]
}

/// The bytes ", kicks=".
pub open spec fn t_sum_kicks() -> Seq<u8> {
    seq![44u8, 32u8, 107u8, 105u8, 99u8, 107u8, 115u8, 61u8]
}

/// The bytes ", latency=".
pub open spec fn t_sum_latency() -> Seq<u8> {
    seq![44u8, 32u8, 108u8, 97u8, 116u8, 101u8, 110u8, 99u8, 121u8, 61u8]
}

/// The bytes ", imbalance=".
pub open spec fn t_sum_imbalance() -> Seq<u8> {
    seq![44u8, 32u8, 105u8, 109u8, 98u8, 97u8, 108u8, 97u8, 110u8, 99u8, 101u8, 61u8]
}

/// The tally summary line, as bytes.
pub open spec fn spec_summary(c: EventCounters) -> Seq<u8> {
    t_sum_gaming() + crate::textnum::dec_bytes(c.gaming_detected as nat) + t_sum_migrations()
        + crate::textnum::dec_bytes(c.vcache_migrations as nat) + t_sum_kicks()
        + crate::textnum::dec_bytes(c.preempt_kicks as nat) + t_sum_latency()
        + crate::textnum::dec_bytes(c.high_latency as nat) + t_sum_imbalance()
        + crate::textnum::dec_bytes(c.ccd_imbalance as nat)
}

impl EventCounters {
    /// A one-line tally summary: exactly the fixed texts with the five
    /// decimal tallies.
    pub fn summary(&self) -> (r: String)
        ensures
            crate::text::string_bytes(r@) == spec_summary(*self),
    {
        let g: Vec<u8> = vec![
            101u8, 118u8, 101u8, 110u8, 116u8, 115u8, 58u8, 32u8, 103u8, 97u8, 109u8, 105u8,
            110u8, 103u8, 61u8,
        ];  // events: gaming=
        let m: Vec<u8> = vec![
            44u8, 32u8, 109u8, 105u8, 103u8, 114u8, 97u8, 116u8, 105u8, 111u8, 110u8, 115u8, 61u8,
        ];  // , migrations=
        let k: Vec<u8> = vec![44u8, 32u8, 107u8, 105u8, 99u8, 107u8, 115u8, 61u8];  // , kicks=
        let l: Vec<u8> = vec![
            44u8, 32u8, 108u8, 97u8, 116u8, 101u8, 110u8, 99u8, 121u8, 61u8,
        ];  // , latency=
        let b: Vec<u8> = vec![
            44u8, 32u8, 105u8, 109u8, 98u8, 97u8, 108u8, 97u8, 110u8, 99u8, 101u8, 61u8,
        ];  // , imbalance=
        proof {
            assert(g@ =~= t_sum_gaming());
            assert(m@ =~= t_sum_migrations());
            assert(k@ =~= t_sum_kicks());
            assert(l@ =~= t_sum_latency());
            assert(b@ =~= t_sum_imbalance());
        }
        let mut out: Vec<u8> = Vec::new();
        push_lit(&mut out, &g);
        push_dec(&mut out, self.gaming_detected);
        push_lit(&mut out, &m);
        push_dec(&mut out, self.vcache_migrations);
        push_lit(&mut out, &k);
        push_dec(&mut out, self.preempt_kicks);
        push_lit(&mut out, &l);
        push_dec(&mut out, self.high_latency);
        push_lit(&mut out, &b);
        push_dec(&mut out, self.ccd_imbalance);
        proof {
            assert(out@ =~= spec_summary(*self));
            lemma_summary_ascii(*self);
        }
        crate::text::bytes_to_string_exact(out.as_slice())
    }
}

/// The summary line is ASCII: fixed texts and decimal digits.
proof fn lemma_summary_ascii(c: EventCounters)
    ensures
        ascii_seq(spec_summary(c)),
{
    lemma_ascii_dec(c.gaming_detected as nat);
    lemma_ascii_dec(c.vcache_migrations as nat);
    lemma_ascii_dec(c.preempt_kicks as nat);
    lemma_ascii_dec(c.high_latency as nat);
    lemma_ascii_dec(c.ccd_imbalance as nat);
    let d1 = crate::textnum::dec_bytes(c.gaming_detected as nat);
    let d2 = crate::textnum::dec_bytes(c.vcache_migrations as nat);
    let d3 = crate::textnum::dec_bytes(c.preempt_kicks as nat);
    let d4 = crate::textnum::dec_bytes(c.high_latency as nat);
    let d5 = crate::textnum::dec_bytes(c.ccd_imbalance as nat);
    lemma_ascii_concat(t_sum_gaming(), d1);
    lemma_ascii_concat(t_sum_gaming() + d1, t_sum_migrations());
    lemma_ascii_concat(t_sum_gaming() + d1 + t_sum_migrations(), d2);
    lemma_ascii_concat(t_sum_gaming() + d1 + t_sum_migrations() + d2, t_sum_kicks());
    lemma_ascii_concat(t_sum_gaming() + d1 + t_sum_migrations() + d2 + t_sum_kicks(), d3);
    lemma_ascii_concat(
        t_sum_gaming() + d1 + t_sum_migrations() + d2 + t_sum_kicks() + d3,
        t_sum_latency(),
    );
    lemma_ascii_concat(
        t_sum_gaming() + d1 + t_sum_migrations() + d2 + t_sum_kicks() + d3 + t_sum_latency(),
        d4,
    );
    lemma_ascii_concat(
        t_sum_gaming() + d1 + t_sum_migrations() + d2 + t_sum_kicks() + d3 + t_sum_latency() + d4,
        t_sum_imbalance(),
    );
    lemma_ascii_concat(
        t_sum_gaming() + d1 + t_sum_migrations() + d2 + t_sum_kicks() + d3 + t_sum_latency() + d4
            + t_sum_imbalance(),
        d5,
    );
}

} // verus!
