//! The runtime-tunables record shared with the in-kernel program: a 24-byte
//! native-endian value (two 64-bit fields, two flag bytes, six bytes of
//! padding) under the fixed key 0.

use vstd::prelude::*;

use crate::bytes::le_u64;
use crate::bytes::push_u64_le;
use crate::bytes::read_u64_le;
use crate::bytes::u64_le;

verus! {

/// The parameters the in-kernel program reads on each dispatch decision.
#[derive(Clone, Copy, PartialEq, Eq, Structural, Debug)]
pub struct RuntimeTunables {
    /// Burst detection threshold in nanoseconds.
    pub burst_threshold_ns: u64,
    /// Time slice in nanoseconds.
    pub slice_ns: u64,
    /// Prefer the stacked-cache cluster for latency-sensitive tasks.
    pub gaming_mode: bool,
    /// Prefer throughput over latency.
    pub work_mode: bool,
}

/// Size of the encoded record.
pub const TUNABLES_SIZE: usize = 24;

/// One flag byte of the wire record.
pub open spec fn flag_byte(b: bool) -> u8 {
    if b {
        1u8
    } else {
        0u8
    }
}

/// The 24-byte wire form of the record.
pub open spec fn spec_encode_tunables(t: RuntimeTunables) -> Seq<u8> {
    u64_le(t.burst_threshold_ns) + u64_le(t.slice_ns) + seq![
        flag_byte(t.gaming_mode),
        flag_byte(t.work_mode),
        0u8,
        0u8,
        0u8,
        0u8,
        0u8,
        0u8,
    ]
}

/// The record a 24-byte wire value denotes. A flag byte is true exactly
/// when it is non-zero.
pub open spec fn spec_decode_tunables(b: Seq<u8>) -> RuntimeTunables {
    RuntimeTunables {
        burst_threshold_ns: le_u64(b[0], b[1], b[2], b[3], b[4], b[5], b[6], b[7]),
        slice_ns: le_u64(b[8], b[9], b[10], b[11], b[12], b[13], b[14], b[15]),
        gaming_mode: b[16] != 0,
        work_mode: b[17] != 0,
    }
}

impl RuntimeTunables {
    /// The record encoded for the shared map.
    pub fn encode(&self) -> (r: Vec<u8>)
        ensures
            r@ == spec_encode_tunables(*self),
            r@.len() == TUNABLES_SIZE,
    {
        let mut out: Vec<u8> = Vec::new();
        push_u64_le(&mut out, self.burst_threshold_ns);
        push_u64_le(&mut out, self.slice_ns);
        out.push(if self.gaming_mode {
            1
        } else {
            0
        });
        out.push(if self.work_mode {
            1
        } else {
            0
        });
        out.push(0);
        out.push(0);
        out.push(0);
        out.push(0);
        out.push(0);
        out.push(0);
        proof {
            assert(out@ =~= spec_encode_tunables(*self));
        }
        out
    }

    /// Read a record back from its wire form. Returns `Some` exactly for
    /// buffers of the record size.
    pub fn decode(b: &Vec<u8>) -> (r: Option<RuntimeTunables>)
        ensures
            r is Some <==> b@.len() == TUNABLES_SIZE,
            r is Some ==> r->0 == spec_decode_tunables(b@),
    {
        if b.len() != TUNABLES_SIZE {
            return None;
        }
        let burst = read_u64_le(b, 0);
        let slice = read_u64_le(b, 8);
        let gaming = b[16] != 0;
        let work = b[17] != 0;
        Some(
            RuntimeTunables {
                burst_threshold_ns: burst,
                slice_ns: slice,
                gaming_mode: gaming,
                work_mode: work,
            },
        )
    }
}

/// Writing a record and reading it back reproduces it bit for bit, so
/// writing the read-back value leaves the wire record unchanged.
pub proof fn lemma_tunables_roundtrip(t: RuntimeTunables)
    ensures
        spec_decode_tunables(spec_encode_tunables(t)) == t,
        spec_encode_tunables(spec_decode_tunables(spec_encode_tunables(t)))
            == spec_encode_tunables(t),
{
    let e = spec_encode_tunables(t);
    crate::bytes::lemma_read_of_u64_le(t.burst_threshold_ns);
    crate::bytes::lemma_read_of_u64_le(t.slice_ns);
    assert(e[0] == u64_le(t.burst_threshold_ns)[0]);
    assert(e[8] == u64_le(t.slice_ns)[0]);
    assert(spec_decode_tunables(e).burst_threshold_ns == t.burst_threshold_ns);
    assert(spec_decode_tunables(e).slice_ns == t.slice_ns);
    assert(spec_decode_tunables(e).gaming_mode == t.gaming_mode);
    assert(spec_decode_tunables(e).work_mode == t.work_mode);
}

} // verus!
