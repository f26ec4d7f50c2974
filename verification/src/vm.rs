//! KVM/QEMU virtual machine detection: recognising QEMU processes, their
//! vCPU threads, passed-through GPUs, pinning, IOMMU grouping, and the
//! workload class of each VM, with a diff against the previous scan.

use vstd::prelude::*;

use vstd::string::StringExecFns;
use vstd::string::StringSliceAdditionalSpecFns;

use crate::patterns::ai_vm_name_patterns;
use crate::patterns::ai_vm_name_pattern_vec;
use crate::patterns::dev_vm_name_patterns;
use crate::patterns::dev_vm_name_pattern_vec;
use crate::patterns::gaming_vm_args_patterns;
use crate::patterns::gaming_vm_args_pattern_vec;
use crate::patterns::gaming_vm_name_patterns;
use crate::patterns::gaming_vm_name_pattern_vec;
use crate::text::contains_any;
use crate::text::contains_bytes;
use crate::text::contains_seq;
use crate::text::lower_seq;
use crate::text::matches_any;
use crate::text::string_bytes;
use crate::text::to_lower_bytes;
use crate::text::views_of;

verus! {

/// VM workload classification.
#[derive(Debug, Clone, Copy, PartialEq, Eq, Structural)]
pub enum VmWorkloadType {
    /// Development VM: batch priority.
    Dev,
    /// Gaming VM with GPU passthrough: gaming priority.
    Gaming,
    /// AI/ML VM: batch priority with GPU affinity.
    Ai,
    /// Unclassified VM.
    Unknown,
}

impl VmWorkloadType {
    /// A short display name.
    pub fn as_str(self) -> (r: &'static str)
        ensures
            self is Dev ==> r@ == "dev"@,
            self is Gaming ==> r@ == "gaming"@,
            self is Ai ==> r@ == "AI"@,
            self is Unknown ==> r@ == "unknown"@,
    {
        match self {
            VmWorkloadType::Dev => "dev",
            VmWorkloadType::Gaming => "gaming",
            VmWorkloadType::Ai => "AI",
            VmWorkloadType::Unknown => "unknown",
        }
    }
}

/// Whether a thread name marks a vCPU thread: it names both "CPU" and
/// "KVM".
pub open spec fn spec_is_vcpu_thread_name(comm: Seq<u8>) -> bool {
    contains_seq(comm, seq![67u8, 80u8, 85u8]) && contains_seq(comm, seq![75u8, 86u8, 77u8])
}

/// Whether a thread name marks a vCPU thread.
pub fn is_vcpu_thread_name(comm: &str) -> (r: bool)
    ensures
        r == spec_is_vcpu_thread_name(comm.spec_bytes()),
{
    let cpu: Vec<u8> = vec![67u8, 80u8, 85u8];  // CPU
    let kvm: Vec<u8> = vec![75u8, 86u8, 77u8];  // KVM
    proof {
        assert(cpu@ =~= seq![67u8, 80u8, 85u8]);
        assert(kvm@ =~= seq![75u8, 86u8, 77u8]);
    }
    contains_bytes(comm.as_bytes(), cpu.as_slice()) && contains_bytes(
        comm.as_bytes(),
        kvm.as_slice(),
    )
}

/// Whether a process name marks a QEMU/KVM process.
pub open spec fn spec_is_qemu_comm(comm: Seq<u8>) -> bool {
    contains_seq(comm, seq![113u8, 101u8, 109u8, 117u8]) || contains_seq(
        comm,
        seq![107u8, 118u8, 109u8],
    )
}

/// Whether a process name marks a QEMU/KVM process: it names "qemu" or
/// "kvm".
pub fn is_qemu_comm(comm: &str) -> (r: bool)
    ensures
        r == spec_is_qemu_comm(comm.spec_bytes()),
{
    let qemu: Vec<u8> = vec![113u8, 101u8, 109u8, 117u8];  // qemu
    let kvm: Vec<u8> = vec![107u8, 118u8, 109u8];  // kvm
    proof {
        assert(qemu@ =~= seq![113u8, 101u8, 109u8, 117u8]);
        assert(kvm@ =~= seq![107u8, 118u8, 109u8]);
    }
    contains_bytes(comm.as_bytes(), qemu.as_slice()) || contains_bytes(
        comm.as_bytes(),
        kvm.as_slice(),
    )
}

/// The "guest=" prefix of a VM name argument.
pub open spec fn guest_prefix() -> Seq<u8> {
    seq![103u8, 117u8, 101u8, 115u8, 116u8, 61u8]
}

/// The name one `-name` value denotes: the part before the first comma,
/// with a `guest=` prefix removed.
pub open spec fn spec_name_of_value(v: Seq<u8>) -> Seq<u8> {
    let first = v.subrange(0, crate::text::sep_pos_from(v, 44, 0));
    if crate::text::starts_with_seq(first, guest_prefix()) {
        first.subrange(guest_prefix().len() as int, first.len() as int)
    } else {
        first
    }
}

/// Extract the VM name from the QEMU command line: the value after the
/// first `-name` flag, or "unknown-vm" when none exists.
pub fn extract_vm_name(args: &Vec<String>) -> (r: String)
    ensures
        ({
            let names = args@.map_values(|a: String| string_bytes(a@));
            let flag = seq![45u8, 110u8, 97u8, 109u8, 101u8];
            match first_flag_value(names, flag, 0) {
                Some(vi) => (forall|i: int|
                    0 <= i < spec_name_of_value(names[vi]).len() ==> spec_name_of_value(
                        names[vi],
                    )[i] < 128) ==> string_bytes(r@) == spec_name_of_value(names[vi]),
                None => r@ == "unknown-vm"@,
            }
        }),
{
    let flag: Vec<u8> = vec![45u8, 110u8, 97u8, 109u8, 101u8];  // -name
    let guest: Vec<u8> = vec![103u8, 117u8, 101u8, 115u8, 116u8, 61u8];  // guest=
    proof {
        assert(flag@ =~= seq![45u8, 110u8, 97u8, 109u8, 101u8]);
        assert(guest@ =~= guest_prefix());
    }
    let ghost names = args@.map_values(|a: String| string_bytes(a@));
    let n: usize = args.len();
    let mut i: usize = 0;
    while i < n
        invariant
            0 <= i <= n,
            n == args@.len(),
            names == args@.map_values(|a: String| string_bytes(a@)),
            flag@ == seq![45u8, 110u8, 97u8, 109u8, 101u8],
            guest@ == guest_prefix(),
            first_flag_value(names, flag@, 0) == first_flag_value(names, flag@, i as int),
        decreases n - i,
    {
        let a: &String = &args[i];
        if crate::text::eq_bytes(a.as_str().as_bytes(), flag.as_slice()) && i + 1 < n {
            let v: &String = &args[i + 1];
            let vb = v.as_str().as_bytes();
            let vn: usize = vb.len();
            let mut c: usize = 0;
            while c < vn && vb[c] != 44
                invariant
                    0 <= c <= vn,
                    vn == vb@.len(),
                    forall|j: int| 0 <= j < c ==> vb@[j] != 44,
                decreases vn - c,
            {
                c = c + 1;
            }
            proof {
                crate::text::lemma_sep_pos_from(vb@, 44, 0, c as int);
            }
            let first = crate::text::subvec(vb, 0, c);
            let stripped: Vec<u8> = if crate::text::starts_with_bytes(
                first.as_slice(),
                guest.as_slice(),
            ) {
                crate::text::subvec(first.as_slice(), 6, first.len())
            } else {
                first
            };
            proof {
                assert(first_flag_value(names, flag@, i as int) == Some(i + 1));
                assert(names[i + 1] == vb@);
                assert(stripped@ == spec_name_of_value(names[i + 1]));
            }
            return conv_name(&stripped);
        }
        proof {
            assert(first_flag_value(names, flag@, i as int) == first_flag_value(
                names,
                flag@,
                i + 1,
            ));
        }
        i = i + 1;
    }
    String::from_str("unknown-vm")
}

/// The index of the value following the first occurrence of `flag` that
/// has one.
pub open spec fn first_flag_value(args: Seq<Seq<u8>>, flag: Seq<u8>, from: int) -> Option<int>
    decreases args.len() - from,
{
    if from < 0 || from >= args.len() {
        None
    } else if args[from] == flag && from + 1 < args.len() {
        Some(from + 1)
    } else {
        first_flag_value(args, flag, from + 1)
    }
}

/// Bytes to text, exact for ASCII.
fn conv_name(v: &Vec<u8>) -> (r: String)
    ensures
        (forall|i: int| 0 <= i < v@.len() ==> v@[i] < 128) ==> string_bytes(r@) == v@,
{
    let n: usize = v.len();
    let mut ascii: bool = true;
    let mut i: usize = 0;
    while i < n
        invariant
            0 <= i <= n,
            n == v@.len(),
            ascii == forall|j: int| 0 <= j < i ==> v@[j] < 128,
        decreases n - i,
    {
        let ghost pre = ascii;
        if v[i] >= 128 {
            ascii = false;
        }
        proof {
            if ascii {
                assert(v@[i as int] < 128);
            } else {
                if pre && v@[i as int] < 128 {
                    assert(false);
                }
            }
        }
        i = i + 1;
    }
    if ascii {
        crate::text::bytes_to_string_exact(v.as_slice())
    } else {
        crate::text::bytes_to_string(v.as_slice())
    }
}

/// The class of a VM: a gaming-sounding name with a passed-through GPU is
/// a gaming VM; ML keywords make an AI VM; a display-streaming token in
/// the arguments makes a gaming VM; development keywords make a dev VM;
/// otherwise a GPU means gaming and no GPU means dev.
pub open spec fn spec_classify_vm(name: Seq<u8>, args_text: Seq<u8>, has_gpu: bool) -> VmWorkloadType {
    let nl = lower_seq(name);
    let al = lower_seq(args_text);
    if matches_any(nl, gaming_vm_name_patterns()) && has_gpu {
        VmWorkloadType::Gaming
    } else if matches_any(nl, ai_vm_name_patterns()) {
        VmWorkloadType::Ai
    } else if matches_any(al, gaming_vm_args_patterns()) {
        VmWorkloadType::Gaming
    } else if matches_any(nl, dev_vm_name_patterns()) {
        VmWorkloadType::Dev
    } else if has_gpu {
        VmWorkloadType::Gaming
    } else {
        VmWorkloadType::Dev
    }
}

/// Classify a VM from its name, the joined command line, and whether a
/// GPU is passed through.
pub fn classify_vm_workload(name: &str, args_text: &str, has_gpu: bool) -> (r: VmWorkloadType)
    ensures
        r == spec_classify_vm(name.spec_bytes(), args_text.spec_bytes(), has_gpu),
{
    let nl = to_lower_bytes(name.as_bytes());
    let al = to_lower_bytes(args_text.as_bytes());
    let gaming = gaming_vm_name_pattern_vec();
    proof {
        assert(views_of(gaming@) =~= gaming_vm_name_patterns());
    }
    if contains_any(nl.as_slice(), &gaming) && has_gpu {
        return VmWorkloadType::Gaming;
    }
    let ai = ai_vm_name_pattern_vec();
    proof {
        assert(views_of(ai@) =~= ai_vm_name_patterns());
    }
    if contains_any(nl.as_slice(), &ai) {
        return VmWorkloadType::Ai;
    }
    let gargs = gaming_vm_args_pattern_vec();
    proof {
        assert(views_of(gargs@) =~= gaming_vm_args_patterns());
    }
    if contains_any(al.as_slice(), &gargs) {
        return VmWorkloadType::Gaming;
    }
    let dev = dev_vm_name_pattern_vec();
    proof {
        assert(views_of(dev@) =~= dev_vm_name_patterns());
    }
    if contains_any(nl.as_slice(), &dev) {
        return VmWorkloadType::Dev;
    }
    if has_gpu {
        VmWorkloadType::Gaming
    } else {
        VmWorkloadType::Dev
    }
}

/// A pinned CPU mask: any mask character other than 'f', 'F' or ','.
pub open spec fn spec_mask_pinned(mask: Seq<u8>) -> bool {
    exists|i: int|
        0 <= i < mask.len() && #[trigger] mask[i] != 102 && mask[i] != 70 && mask[i] != 44
}

/// Whether a CPU-affinity mask shows pinning: any nibble other than F.
pub fn mask_pinned(mask: &str) -> (r: bool)
    ensures
        r == spec_mask_pinned(mask.spec_bytes()),
{
    let b = mask.as_bytes();
    let n: usize = b.len();
    let mut i: usize = 0;
    while i < n
        invariant
            0 <= i <= n,
            n == b@.len(),
            b@ == mask.spec_bytes(),
            forall|j: int|
                0 <= j < i ==> (#[trigger] b@[j] == 102) || b@[j] == 70 || b@[j] == 44,
        decreases n - i,
    {
        let c = b[i];
        if c != 102 && c != 70 && c != 44 {
            assert(b@[i as int] != 102 && b@[i as int] != 70 && b@[i as int] != 44);
            return true;
        }
        i = i + 1;
    }
    false
}

/// Information about a detected VM.
#[derive(Debug, Clone)]
pub struct VmInfo {
    /// QEMU process PID.
    pub qemu_pid: u32,
    /// VM name, from the command line.
    pub name: String,
    /// Workload type.
    pub workload_type: VmWorkloadType,
    /// vCPU thread PIDs.
    pub vcpu_pids: Vec<u32>,
    /// Whether the VM has GPU passthrough.
    pub has_gpu_passthrough: bool,
    /// PCI addresses of passed-through GPUs.
    pub passthrough_gpus: Vec<String>,
    /// Whether the vCPUs are pinned.
    pub vcpus_pinned: bool,
}

/// An IOMMU group.
#[derive(Debug, Clone)]
pub struct IommuGroup {
    pub id: u32,
    /// PCI addresses in the group.
    pub devices: Vec<String>,
    pub has_gpu: bool,
    /// A well-isolated group: at most two devices.
    pub is_isolated: bool,
}

/// One raw IOMMU group as read from sysfs: its id and, per device, the
/// PCI address and the content of the device's class file.
pub struct RawIommuGroup {
    pub id: u32,
    pub devices: Vec<(String, Option<String>)>,
}

/// A device class marking a display controller: the class text starts
/// with "0x03" after trimming.
pub open spec fn spec_is_gpu_class(class: Option<Seq<u8>>) -> bool {
    match class {
        Some(c) => crate::text::starts_with_seq(
            crate::text::trim_seq(c),
            seq![48u8, 120u8, 48u8, 51u8],
        ),
        None => false,
    }
}

/// Some device of the group is a GPU.
pub open spec fn group_has_gpu(devices: Seq<(String, Option<String>)>) -> bool {
    exists|i: int|
        0 <= i < devices.len() && spec_is_gpu_class(
            match (#[trigger] devices[i]).1 {
                Some(c) => Some(string_bytes(c@)),
                None => None,
            },
        )
}

/// Build the IOMMU group table from the raw per-group readings: a group
/// holds a GPU when a device class starts with the display-controller
/// prefix, and counts as isolated with at most two devices. Groups keep
/// the caller's order.
pub fn detect_iommu_groups(raw: Vec<RawIommuGroup>) -> (r: Vec<IommuGroup>)
    ensures
        r@.len() == raw@.len(),
        forall|k: int| #![trigger r@[k]]
            0 <= k < r@.len() ==> {
                &&& r@[k].id == raw@[k].id
                &&& r@[k].has_gpu == group_has_gpu(raw@[k].devices@)
                &&& r@[k].is_isolated == (raw@[k].devices@.len() <= 2)
                &&& r@[k].devices@.len() == raw@[k].devices@.len()
            },
{
    let n: usize = raw.len();
    let mut out: Vec<IommuGroup> = Vec::new();
    let mut k: usize = 0;
    while k < n
        invariant
            0 <= k <= n,
            n == raw@.len(),
            out@.len() == k,
            forall|j: int| #![trigger out@[j]]
                0 <= j < k ==> {
                    &&& out@[j].id == raw@[j].id
                    &&& out@[j].has_gpu == group_has_gpu(raw@[j].devices@)
                    &&& out@[j].is_isolated == (raw@[j].devices@.len() <= 2)
                    &&& out@[j].devices@.len() == raw@[j].devices@.len()
                },
        decreases n - k,
    {
        let g: &RawIommuGroup = &raw[k];
        let dn: usize = g.devices.len();
        let mut devices: Vec<String> = Vec::new();
        let mut has_gpu: bool = false;
        let mut d: usize = 0;
        let prefix: Vec<u8> = vec![48u8, 120u8, 48u8, 51u8];  // 0x03
        proof {
            assert(prefix@ =~= seq![48u8, 120u8, 48u8, 51u8]);
        }
        while d < dn
            invariant
                0 <= d <= dn,
                dn == g.devices@.len(),
                devices@.len() == d,
                prefix@ == seq![48u8, 120u8, 48u8, 51u8],
                has_gpu == exists|i: int|
                    0 <= i < d && spec_is_gpu_class(
                        match (#[trigger] g.devices@[i]).1 {
                            Some(c) => Some(string_bytes(c@)),
                            None => None,
                        },
                    ),
            decreases dn - d,
        {
            let ghost has_pre = has_gpu;
            let dev: &(String, Option<String>) = &g.devices[d];
            devices.push(dev.0.clone());
            let is_gpu: bool = match &dev.1 {
                Some(c) => {
                    let t = crate::text::trim_exact(c.as_str().as_bytes());
                    crate::text::starts_with_bytes(t.as_slice(), prefix.as_slice())
                },
                None => false,
            };
            if is_gpu {
                has_gpu = true;
            }
            proof {
                if has_gpu {
                    if is_gpu {
                        assert(spec_is_gpu_class(
                            match g.devices@[d as int].1 {
                                Some(c) => Some(string_bytes(c@)),
                                None => None,
                            },
                        ));
                    } else {
                        let i = choose|i: int|
                            0 <= i < d && spec_is_gpu_class(
                                match (#[trigger] g.devices@[i]).1 {
                                    Some(c) => Some(string_bytes(c@)),
                                    None => None,
                                },
                            );
                        assert(0 <= i < d + 1);
                    }
                } else {
                    assert forall|i: int| 0 <= i < d + 1 implies !spec_is_gpu_class(
                        match (#[trigger] g.devices@[i]).1 {
                            Some(c) => Some(string_bytes(c@)),
                            None => None,
                        },
                    ) by {
                        if i == d as int {
                            assert(!is_gpu);
                        }
                    }
                }
            }
            d = d + 1;
        }
        let is_isolated = dn <= 2;
        out.push(IommuGroup { id: g.id, devices, has_gpu, is_isolated });
        k = k + 1;
    }
    out
}


/// The PCI addresses named by one vfio device argument: each `host=`
/// part's address, with the default domain prefixed when missing.
pub open spec fn addrs_of_dev(dev: Seq<u8>) -> Seq<Seq<u8>> {
    addrs_of_pieces(crate::text::split_seq(dev, 44))
}

/// The address one comma-piece names, if it is a `host=` part.
pub open spec fn addr_of_part(part: Seq<u8>) -> Option<Seq<u8>> {
    if crate::text::starts_with_seq(part, seq![104u8, 111u8, 115u8, 116u8, 61u8]) {
        let a = part.subrange(5, part.len() as int);
        if contains_seq(a, seq![58u8]) && !crate::text::starts_with_seq(
            a,
            seq![48u8, 48u8, 48u8, 48u8, 58u8],
        ) {
            Some(seq![48u8, 48u8, 48u8, 48u8, 58u8] + a)
        } else {
            Some(a)
        }
    } else {
        None
    }
}

pub open spec fn addrs_of_pieces(pieces: Seq<Seq<u8>>) -> Seq<Seq<u8>>
    decreases pieces.len(),
{
    if pieces.len() == 0 {
        Seq::<Seq<u8>>::empty()
    } else {
        (match addr_of_part(pieces[0]) {
            Some(a) => seq![a],
            None => Seq::<Seq<u8>>::empty(),
        }) + addrs_of_pieces(pieces.drop_first())
    }
}

proof fn lemma_addrs_of_pieces_snoc(pieces: Seq<Seq<u8>>, x: Seq<u8>)
    ensures
        addrs_of_pieces(pieces.push(x)) == addrs_of_pieces(pieces) + (match addr_of_part(x) {
            Some(a) => seq![a],
            None => Seq::<Seq<u8>>::empty(),
        }),
    decreases pieces.len(),
{
    let tail: Seq<Seq<u8>> = match addr_of_part(x) {
        Some(a) => seq![a],
        None => Seq::<Seq<u8>>::empty(),
    };
    if pieces.len() == 0 {
        assert(pieces.push(x).drop_first() =~= Seq::<Seq<u8>>::empty());
        assert(pieces.push(x)[0] == x);
        assert(addrs_of_pieces(pieces.push(x)) == tail + addrs_of_pieces(
            Seq::<Seq<u8>>::empty(),
        ));
        assert(addrs_of_pieces(Seq::<Seq<u8>>::empty()) =~= Seq::<Seq<u8>>::empty());
        assert(tail + Seq::<Seq<u8>>::empty() =~= tail);
        assert(addrs_of_pieces(pieces) =~= Seq::<Seq<u8>>::empty());
        assert(Seq::<Seq<u8>>::empty() + tail =~= tail);
    } else {
        assert(pieces.push(x).drop_first() =~= pieces.drop_first().push(x));
        assert(pieces.push(x)[0] == pieces[0]);
        lemma_addrs_of_pieces_snoc(pieces.drop_first(), x);
        assert(addrs_of_pieces(pieces.push(x)) =~= addrs_of_pieces(pieces) + tail);
    }
}

/// The passed-through GPU addresses over the whole command line, from
/// argument `i` on.
pub open spec fn spec_passthrough(args: Seq<Seq<u8>>, i: int) -> Seq<Seq<u8>>
    decreases args.len() - i,
{
    if i < 0 || i >= args.len() {
        Seq::<Seq<u8>>::empty()
    } else {
        (if args[i] == seq![45u8, 100u8, 101u8, 118u8, 105u8, 99u8, 101u8] && i + 1 < args.len()
            && contains_seq(args[i + 1], seq![118u8, 102u8, 105u8, 111u8, 45u8, 112u8, 99u8, 105u8]) {
            addrs_of_dev(args[i + 1])
        } else {
            Seq::<Seq<u8>>::empty()
        }) + spec_passthrough(args, i + 1)
    }
}

/// The addresses one vfio device argument names.
fn addrs_of_dev_exec(dev: &str) -> (r: Vec<Vec<u8>>)
    ensures
        views_of(r@) == addrs_of_dev(dev.spec_bytes()),
{
    let pieces = crate::text::split_at_seps(dev.as_bytes(), 44);
    let m: usize = pieces.len();
    let mut out: Vec<Vec<u8>> = Vec::new();
    let mut k: usize = 0;
    let host: Vec<u8> = vec![104u8, 111u8, 115u8, 116u8, 61u8];  // host=
    let domain: Vec<u8> = vec![48u8, 48u8, 48u8, 48u8, 58u8];  // 0000:
    let colon: Vec<u8> = vec![58u8];
    proof {
        assert(host@ =~= seq![104u8, 111u8, 115u8, 116u8, 61u8]);
        assert(domain@ =~= seq![48u8, 48u8, 48u8, 48u8, 58u8]);
        assert(colon@ =~= seq![58u8]);
        assert(views_of(pieces@).subrange(0, 0) =~= Seq::<Seq<u8>>::empty());
        assert(views_of(out@) =~= addrs_of_pieces(views_of(pieces@).subrange(0, 0)));
    }
    while k < m
        invariant
            0 <= k <= m,
            m == pieces@.len(),
            host@ == seq![104u8, 111u8, 115u8, 116u8, 61u8],
            domain@ == seq![48u8, 48u8, 48u8, 48u8, 58u8],
            colon@ == seq![58u8],
            views_of(pieces@) == crate::text::split_seq(dev.spec_bytes(), 44),
            views_of(out@) == addrs_of_pieces(views_of(pieces@).subrange(0, k as int)),
        decreases m - k,
    {
        let ghost out_pre = out@;
        let piece: &Vec<u8> = &pieces[k];
        if crate::text::starts_with_bytes(piece.as_slice(), host.as_slice()) {
            let a = crate::text::subvec(piece.as_slice(), 5, piece.len());
            let addr: Vec<u8> = if contains_bytes(a.as_slice(), colon.as_slice())
                && !crate::text::starts_with_bytes(a.as_slice(), domain.as_slice()) {
                let mut pre: Vec<u8> = vec![48u8, 48u8, 48u8, 48u8, 58u8];
                let mut full = pre;
                let an: usize = a.len();
                let mut j: usize = 0;
                while j < an
                    invariant
                        0 <= j <= an,
                        an == a@.len(),
                        full@ =~= seq![48u8, 48u8, 48u8, 48u8, 58u8] + a@.subrange(0, j as int),
                    decreases an - j,
                {
                    full.push(a[j]);
                    proof {
                        assert(full@ =~= seq![48u8, 48u8, 48u8, 48u8, 58u8] + a@.subrange(
                            0,
                            j + 1,
                        ));
                    }
                    j = j + 1;
                }
                proof {
                    assert(a@.subrange(0, an as int) =~= a@);
                }
                full
            } else {
                a
            };
            proof {
                assert(addr@ == addr_of_part(views_of(pieces@)[k as int])->0);
            }
            out.push(addr);
        }
        proof {
            assert(views_of(pieces@).subrange(0, k + 1) =~= views_of(pieces@).subrange(
                0,
                k as int,
            ).push(views_of(pieces@)[k as int]));
            lemma_addrs_of_pieces_snoc(
                views_of(pieces@).subrange(0, k as int),
                views_of(pieces@)[k as int],
            );
            assert(views_of(out@) =~= addrs_of_pieces(views_of(pieces@).subrange(0, k + 1)));
        }
        k = k + 1;
    }
    proof {
        assert(views_of(pieces@).subrange(0, m as int) =~= views_of(pieces@));
    }
    out
}

/// The PCI addresses of GPUs passed through on the QEMU command line:
/// every `host=` address of every vfio device argument, in order.
pub fn detect_vm_passthrough_gpus(args: &Vec<String>) -> (r: Vec<String>)
    ensures
        ({
            let spec = spec_passthrough(args@.map_values(|a: String| string_bytes(a@)), 0);
            &&& r@.len() == spec.len()
            &&& forall|t: int| #![trigger r@[t]]
                0 <= t < r@.len() ==> ((forall|i: int| 0 <= i < spec[t].len() ==> spec[t][i] < 128)
                    ==> string_bytes(r@[t]@) == spec[t])
        }),
{
    let ghost names = args@.map_values(|a: String| string_bytes(a@));
    let device: Vec<u8> = vec![45u8, 100u8, 101u8, 118u8, 105u8, 99u8, 101u8];  // -device
    let vfio: Vec<u8> = vec![118u8, 102u8, 105u8, 111u8, 45u8, 112u8, 99u8, 105u8];  // vfio-pci
    proof {
        assert(device@ =~= seq![45u8, 100u8, 101u8, 118u8, 105u8, 99u8, 101u8]);
        assert(vfio@ =~= seq![118u8, 102u8, 105u8, 111u8, 45u8, 112u8, 99u8, 105u8]);
    }
    let n: usize = args.len();
    let mut out: Vec<String> = Vec::new();
    let mut i: usize = 0;
    let ghost mut coll = Seq::<Seq<u8>>::empty();
    proof {
        assert(spec_passthrough(names, 0) =~= coll + spec_passthrough(names, 0));
        assert(out@.len() == coll.len());
    }
    while i < n
        invariant
            0 <= i <= n,
            n == args@.len(),
            names == args@.map_values(|a: String| string_bytes(a@)),
            device@ == seq![45u8, 100u8, 101u8, 118u8, 105u8, 99u8, 101u8],
            vfio@ == seq![118u8, 102u8, 105u8, 111u8, 45u8, 112u8, 99u8, 105u8],
            spec_passthrough(names, 0) == coll + spec_passthrough(names, i as int),
            out@.len() == coll.len(),
            forall|t: int| #![trigger out@[t]]
                0 <= t < out@.len() ==> ((forall|q: int| 0 <= q < coll[t].len() ==> coll[t][q] < 128)
                    ==> string_bytes(out@[t]@) == coll[t]),
        decreases n - i,
    {
        let ghost coll_pre = coll;
        let a: &String = &args[i];
        let mut group: Seq<Seq<u8>>;
        if crate::text::eq_bytes(a.as_str().as_bytes(), device.as_slice()) && i + 1 < n {
            let d: &String = &args[i + 1];
            if contains_bytes(d.as_str().as_bytes(), vfio.as_slice()) {
                let addrs = addrs_of_dev_exec(d.as_str());
                let an: usize = addrs.len();
                let mut j: usize = 0;
                while j < an
                    invariant
                        0 <= j <= an,
                        an == addrs@.len(),
                        out@.len() == coll_pre.len() + j,
                        forall|t: int| #![trigger out@[t]]
                            0 <= t < coll_pre.len() ==> ((forall|q: int|
                                0 <= q < coll_pre[t].len() ==> coll_pre[t][q] < 128)
                                ==> string_bytes(out@[t]@) == coll_pre[t]),
                        forall|t: int| #![trigger out@[t]]
                            coll_pre.len() <= t < out@.len() ==> ((forall|q: int|
                                0 <= q < addrs@[t - coll_pre.len()]@.len() ==> #[trigger] addrs@[t
                                    - coll_pre.len()]@[q] < 128) ==> string_bytes(out@[t]@)
                                == addrs@[t - coll_pre.len()]@),
                    decreases an - j,
                {
                    let sv = conv_name(&addrs[j]);
                    out.push(sv);
                    j = j + 1;
                }
                proof {
                    coll = coll_pre + views_of(addrs@);
                }
            } else {
                proof {
                    coll = coll_pre;
                }
            }
        } else {
            proof {
                coll = coll_pre;
            }
        }
        proof {
            assert(spec_passthrough(names, i as int) == (if names[i as int] == seq![
                45u8,
                100u8,
                101u8,
                118u8,
                105u8,
                99u8,
                101u8,
            ] && i + 1 < names.len() && contains_seq(
                names[i as int + 1],
                seq![118u8, 102u8, 105u8, 111u8, 45u8, 112u8, 99u8, 105u8],
            ) {
                addrs_of_dev(names[i as int + 1])
            } else {
                Seq::<Seq<u8>>::empty()
            }) + spec_passthrough(names, i as int + 1));
            assert(coll + spec_passthrough(names, i + 1) =~= spec_passthrough(names, 0));
        }
        i = i + 1;
    }
    proof {
        assert(spec_passthrough(names, n as int) =~= Seq::<Seq<u8>>::empty());
        assert(coll =~= spec_passthrough(names, 0));
    }
    out
}


/// A status text shows pinning: some "Cpus_allowed:" line carries a mask
/// with a nibble other than F.
pub open spec fn spec_status_pinned(status: Seq<u8>) -> bool {
    exists|k: int|
        0 <= k < crate::text::split_seq(status, 10).len() && line_shows_pinning(
            #[trigger] crate::text::split_seq(status, 10)[k],
        )
}

/// One status line shows pinning.
pub open spec fn line_shows_pinning(line: Seq<u8>) -> bool {
    &&& crate::text::starts_with_seq(
        line,
        seq![67u8, 112u8, 117u8, 115u8, 95u8, 97u8, 108u8, 108u8, 111u8, 119u8, 101u8, 100u8, 58u8],
    )
    &&& spec_mask_pinned(
        crate::text::trim_seq(line.subrange(13, line.len() as int)),
    )
}

/// Whether a process status text shows a restricted CPU mask.
pub fn vcpu_pinned_status(status: &str) -> (r: bool)
    ensures
        r == spec_status_pinned(status.spec_bytes()),
{
    let lines = crate::text::split_at_seps(status.as_bytes(), 10);
    let m: usize = lines.len();
    let key: Vec<u8> = vec![
        67u8, 112u8, 117u8, 115u8, 95u8, 97u8, 108u8, 108u8, 111u8, 119u8, 101u8, 100u8, 58u8,
    ];  // Cpus_allowed:
    proof {
        assert(key@ =~= seq![
            67u8, 112u8, 117u8, 115u8, 95u8, 97u8, 108u8, 108u8, 111u8, 119u8, 101u8, 100u8, 58u8,
        ]);
    }
    let mut k: usize = 0;
    while k < m
        invariant
            0 <= k <= m,
            m == lines@.len(),
            key@ == seq![
                67u8, 112u8, 117u8, 115u8, 95u8, 97u8, 108u8, 108u8, 111u8, 119u8, 101u8, 100u8,
                58u8,
            ],
            views_of(lines@) == crate::text::split_seq(status.spec_bytes(), 10),
            forall|j: int| 0 <= j < k ==> !line_shows_pinning(#[trigger] views_of(lines@)[j]),
        decreases m - k,
    {
        let line: &Vec<u8> = &lines[k];
        if crate::text::starts_with_bytes(line.as_slice(), key.as_slice()) {
            let rest = crate::text::subvec(line.as_slice(), 13, line.len());
            let mask = crate::text::trim_exact(rest.as_slice());
            let mut pinned: bool = false;
            let mn: usize = mask.len();
            let mut i: usize = 0;
            while i < mn
                invariant
                    0 <= i <= mn,
                    mn == mask@.len(),
                    pinned == exists|q: int|
                        0 <= q < i && #[trigger] mask@[q] != 102 && mask@[q] != 70 && mask@[q]
                            != 44,
                decreases mn - i,
            {
                let ghost pre = pinned;
                let c = mask[i];
                if c != 102 && c != 70 && c != 44 {
                    pinned = true;
                    assert(mask@[i as int] != 102 && mask@[i as int] != 70 && mask@[i as int]
                        != 44);
                }
                proof {
                    if !pinned {
                        assert forall|q: int|
                            0 <= q < i + 1 implies !(#[trigger] mask@[q] != 102 && mask@[q] != 70
                            && mask@[q] != 44) by {
                            if q < i as int {
                                if mask@[q] != 102 && mask@[q] != 70 && mask@[q] != 44 {
                                    assert(false);
                                }
                            }
                        }
                    } else {
                        if pre {
                            let q = choose|q: int|
                                0 <= q < i && #[trigger] mask@[q] != 102 && mask@[q] != 70
                                    && mask@[q] != 44;
                            assert(0 <= q < i + 1);
                        }
                    }
                }
                i = i + 1;
            }
            if pinned {
                assert(line_shows_pinning(views_of(lines@)[k as int]));
                return true;
            }
        }
        proof {
            assert(!line_shows_pinning(views_of(lines@)[k as int]));
        }
        k = k + 1;
    }
    false
}

/// The libvirt cgroup markers for pinned vCPUs.
pub open spec fn spec_cgroup_pinned(cg: Seq<u8>) -> bool {
    contains_seq(cg, seq![118u8, 99u8, 112u8, 117u8]) && contains_seq(
        cg,
        seq![101u8, 109u8, 117u8, 108u8, 97u8, 116u8, 111u8, 114u8],
    )
}

/// Whether the vCPUs are pinned: any vCPU's CPU mask is restricted, or
/// the cgroup text carries both libvirt markers.
pub fn check_vcpu_pinning(statuses: &Vec<Option<String>>, cgroup: Option<&str>) -> (r: bool)
    ensures
        r == ((exists|i: int|
            0 <= i < statuses@.len() && (#[trigger] statuses@[i]) is Some && spec_status_pinned(
                string_bytes(statuses@[i]->0@),
            )) || (match cgroup {
            Some(cg) => spec_cgroup_pinned(cg.spec_bytes()),
            None => false,
        })),
{
    let n: usize = statuses.len();
    let mut i: usize = 0;
    while i < n
        invariant
            0 <= i <= n,
            n == statuses@.len(),
            forall|j: int|
                0 <= j < i ==> !((#[trigger] statuses@[j]) is Some && spec_status_pinned(
                    string_bytes(statuses@[j]->0@),
                )),
        decreases n - i,
    {
        if let Some(st) = &statuses[i] {
            if vcpu_pinned_status(st.as_str()) {
                assert(statuses@[i as int] is Some && spec_status_pinned(
                    string_bytes(statuses@[i as int]->0@),
                ));
                return true;
            }
        }
        i = i + 1;
    }
    match cgroup {
        Some(cg) => {
            let vcpu: Vec<u8> = vec![118u8, 99u8, 112u8, 117u8];  // vcpu
            let emulator: Vec<u8> = vec![101u8, 109u8, 117u8, 108u8, 97u8, 116u8, 111u8, 114u8];  // emulator
            proof {
                assert(vcpu@ =~= seq![118u8, 99u8, 112u8, 117u8]);
                assert(emulator@ =~= seq![101u8, 109u8, 117u8, 108u8, 97u8, 116u8, 111u8, 114u8]);
            }
            contains_bytes(cg.as_bytes(), vcpu.as_slice()) && contains_bytes(
                cg.as_bytes(),
                emulator.as_slice(),
            )
        },
        None => false,
    }
}

/// The task list holds a vCPU-named thread with this id.
pub open spec fn task_names_vcpu(tasks: Seq<(u32, String)>, pid: u32) -> bool {
    exists|j: int|
        0 <= j < tasks.len() && (#[trigger] tasks[j]).0 == pid && spec_is_vcpu_thread_name(
            string_bytes(tasks[j].1@),
        )
}

/// The vCPU thread ids among a task list: those whose name marks a vCPU.
pub fn find_vcpu_threads(tasks: &Vec<(u32, String)>) -> (r: Vec<u32>)
    ensures
        forall|t: int| #![trigger r@[t]]
            0 <= t < r@.len() ==> task_names_vcpu(tasks@, r@[t]),
        forall|j: int| #![trigger tasks@[j]]
            0 <= j < tasks@.len() && spec_is_vcpu_thread_name(string_bytes(tasks@[j].1@))
                ==> r@.contains(tasks@[j].0),
{
    let n: usize = tasks.len();
    let mut out: Vec<u32> = Vec::new();
    let mut i: usize = 0;
    while i < n
        invariant
            0 <= i <= n,
            n == tasks@.len(),
            forall|t: int| #![trigger out@[t]]
                0 <= t < out@.len() ==> task_names_vcpu(tasks@, out@[t]),
            forall|j: int| #![trigger tasks@[j]]
                0 <= j < i && spec_is_vcpu_thread_name(string_bytes(tasks@[j].1@))
                    ==> out@.contains(tasks@[j].0),
        decreases n - i,
    {
        let ghost out_pre = out@;
        let e: &(u32, String) = &tasks[i];
        if is_vcpu_thread_name(e.1.as_str()) {
            out.push(e.0);
            assert(out@[out@.len() - 1] == tasks@[i as int].0);
        }
        proof {
            assert forall|j: int| #![trigger tasks@[j]]
                0 <= j < i + 1 && spec_is_vcpu_thread_name(
                    string_bytes(tasks@[j].1@),
                ) implies out@.contains(tasks@[j].0) by {
                if j < i as int {
                    let t = choose|t: int| 0 <= t < out_pre.len() && out_pre[t] == tasks@[j].0;
                    assert(out@[t] == tasks@[j].0);
                } else {
                    assert(out@[out@.len() - 1] == tasks@[j].0);
                }
            }
        }
        i = i + 1;
    }
    out
}

/// Everything read about one QEMU process candidate.
pub struct QemuProcScan {
    pub pid: u32,
    /// The process name.
    pub comm: String,
    /// The command-line arguments.
    pub args: Vec<String>,
    /// The command line joined with spaces, for keyword checks.
    pub args_text: String,
    /// Per-task (thread id, thread name).
    pub tasks: Vec<(u32, String)>,
    /// Per-vCPU status file texts.
    pub statuses: Vec<Option<String>>,
    /// The process's cgroup text.
    pub cgroup: Option<String>,
}

/// Assemble VM information for one process, if it is a QEMU process:
/// the name from the command line, the vCPU threads by name, pinning
/// from masks and cgroup markers, the passed-through GPUs, and the class
/// from name, arguments and GPU.
pub fn check_qemu_process(scan: &QemuProcScan) -> (r: Option<VmInfo>)
    ensures
        r is Some <==> spec_is_qemu_comm(string_bytes(scan.comm@)),
        r is Some ==> {
            let vm = r->0;
            &&& vm.qemu_pid == scan.pid
            &&& vm.has_gpu_passthrough == (vm.passthrough_gpus@.len() > 0)
            &&& vm.passthrough_gpus@.len() == spec_passthrough(
                scan.args@.map_values(|a: String| string_bytes(a@)),
                0,
            ).len()
            &&& vm.workload_type == spec_classify_vm(
                string_bytes(vm.name@),
                string_bytes(scan.args_text@),
                vm.has_gpu_passthrough,
            )
            &&& (forall|j: int| #![trigger scan.tasks@[j]]
                0 <= j < scan.tasks@.len() && spec_is_vcpu_thread_name(
                    string_bytes(scan.tasks@[j].1@),
                ) ==> vm.vcpu_pids@.contains(scan.tasks@[j].0))
            &&& (forall|t: int| #![trigger vm.vcpu_pids@[t]]
                0 <= t < vm.vcpu_pids@.len() ==> task_names_vcpu(scan.tasks@, vm.vcpu_pids@[t]))
            &&& vm.vcpus_pinned == ((exists|i: int|
                0 <= i < scan.statuses@.len() && (#[trigger] scan.statuses@[i]) is Some
                    && spec_status_pinned(string_bytes(scan.statuses@[i]->0@))) || (
            match scan.cgroup {
                Some(cg) => spec_cgroup_pinned(string_bytes(cg@)),
                None => false,
            }))
        },
{
    if !is_qemu_comm(scan.comm.as_str()) {
        return None;
    }
    let name = extract_vm_name(&scan.args);
    let vcpu_pids = find_vcpu_threads(&scan.tasks);
    let cgroup_ref: Option<&str> = match &scan.cgroup {
        Some(cg) => Some(cg.as_str()),
        None => None,
    };
    let vcpus_pinned = check_vcpu_pinning(&scan.statuses, cgroup_ref);
    let passthrough_gpus = detect_vm_passthrough_gpus(&scan.args);
    let has_gpu_passthrough = passthrough_gpus.len() > 0;
    let workload_type = classify_vm_workload(
        name.as_str(),
        scan.args_text.as_str(),
        has_gpu_passthrough,
    );
    Some(
        VmInfo {
            qemu_pid: scan.pid,
            name,
            workload_type,
            vcpu_pids,
            has_gpu_passthrough,
            passthrough_gpus,
            vcpus_pinned,
        },
    )
}

/// Scan a table of QEMU process candidates for VMs.
pub fn scan_vms(scans: &Vec<QemuProcScan>) -> (r: Vec<VmInfo>)
    ensures
        forall|t: int| #![trigger r@[t]]
            0 <= t < r@.len() ==> exists|j: int|
                0 <= j < scans@.len() && (#[trigger] scans@[j]).pid == r@[t].qemu_pid
                    && spec_is_qemu_comm(string_bytes(scans@[j].comm@)),
        forall|j: int| #![trigger scans@[j]]
            0 <= j < scans@.len() && spec_is_qemu_comm(string_bytes(scans@[j].comm@)) ==> exists|
                t: int,
            |
                0 <= t < r@.len() && (#[trigger] r@[t]).qemu_pid == scans@[j].pid,
{
    let n: usize = scans.len();
    let mut out: Vec<VmInfo> = Vec::new();
    let mut i: usize = 0;
    while i < n
        invariant
            0 <= i <= n,
            n == scans@.len(),
            forall|t: int| #![trigger out@[t]]
                0 <= t < out@.len() ==> exists|j: int|
                    0 <= j < scans@.len() && (#[trigger] scans@[j]).pid == out@[t].qemu_pid
                        && spec_is_qemu_comm(string_bytes(scans@[j].comm@)),
            forall|j: int| #![trigger scans@[j]]
                0 <= j < i && spec_is_qemu_comm(string_bytes(scans@[j].comm@)) ==> exists|t: int|
                    0 <= t < out@.len() && (#[trigger] out@[t]).qemu_pid == scans@[j].pid,
        decreases n - i,
    {
        let ghost out_pre = out@;
        let sc: &QemuProcScan = &scans[i];
        if let Some(vm) = check_qemu_process(sc) {
            out.push(vm);
            assert(out@[out@.len() - 1].qemu_pid == scans@[i as int].pid);
        }
        proof {
            assert forall|j: int| #![trigger scans@[j]]
                0 <= j < i + 1 && spec_is_qemu_comm(string_bytes(scans@[j].comm@)) implies exists|
                t: int,
            |
                0 <= t < out@.len() && (#[trigger] out@[t]).qemu_pid == scans@[j].pid by {
                if j < i as int {
                    let t0 = choose|t0: int|
                        0 <= t0 < out_pre.len() && (#[trigger] out_pre[t0]).qemu_pid
                            == scans@[j].pid;
                    assert(out@[t0].qemu_pid == scans@[j].pid);
                } else {
                    assert(out@[out@.len() - 1].qemu_pid == scans@[j].pid);
                }
            }
        }
        i = i + 1;
    }
    out
}

/// The total vCPU count of the VMs with this class, among the first
/// `upto`.
pub open spec fn vcpu_count_upto(vms: Seq<VmInfo>, class: VmWorkloadType, upto: int) -> int
    decreases upto,
{
    if upto <= 0 {
        0
    } else if vms[upto - 1].workload_type == class {
        vcpu_count_upto(vms, class, upto - 1) + vms[upto - 1].vcpu_pids@.len()
    } else {
        vcpu_count_upto(vms, class, upto - 1)
    }
}

/// Some VM of the list owns this vCPU PID with this class.
pub open spec fn vm_lists_vcpu(vms: Seq<VmInfo>, pid: u32, class: VmWorkloadType) -> bool {
    exists|j: int|
        0 <= j < vms.len() && (#[trigger] vms[j]).vcpu_pids@.contains(pid) && vms[j].workload_type
            == class
}

/// The pair list holds this (vCPU PID, class) pair.
pub open spec fn vcpu_pair_listed(
    r: Seq<(u32, VmWorkloadType)>,
    pid: u32,
    class: VmWorkloadType,
) -> bool {
    exists|t: int| 0 <= t < r.len() && #[trigger] r[t] == (pid, class)
}

/// The total vCPU count of the first `upto` VMs.
pub open spec fn vcpus_total(vms: Seq<VmInfo>, upto: int) -> int
    decreases upto,
{
    if upto <= 0 {
        0
    } else {
        vcpus_total(vms, upto - 1) + vms[upto - 1].vcpu_pids@.len()
    }
}

/// Tracks the VMs between scans, keyed by QEMU PID.
pub struct VmMonitor {
    vms: Vec<VmInfo>,
    iommu_groups: Vec<IommuGroup>,
    passthrough_gpus: Vec<String>,
}

/// The scan holds a VM with this QEMU PID.
pub open spec fn vms_have_pid(vms: Seq<VmInfo>, pid: u32) -> bool {
    exists|j: int| 0 <= j < vms.len() && (#[trigger] vms[j]).qemu_pid == pid
}

impl VmMonitor {
    /// The VMs of the last scan.
    pub closed spec fn view(&self) -> Seq<VmInfo> {
        self.vms@
    }

    /// The IOMMU groups found at startup.
    pub closed spec fn groups(&self) -> Seq<IommuGroup> {
        self.iommu_groups@
    }

    /// A monitor over the startup readings.
    pub fn new(vms: Vec<VmInfo>, iommu_groups: Vec<IommuGroup>, passthrough_gpus: Vec<String>) -> (
        r: VmMonitor)
        ensures
            r@ == vms@,
            r.groups() == iommu_groups@,
    {
        VmMonitor { vms, iommu_groups, passthrough_gpus }
    }

    /// Take a fresh scan: the VMs whose PID is new, and the PIDs that
    /// went away; the scan becomes the current state.
    pub fn rescan(&mut self, current: Vec<VmInfo>) -> (r: (Vec<VmInfo>, Vec<u32>))
        ensures
            final(self)@ == current@,
            final(self).groups() == old(self).groups(),
            forall|t: int| #![trigger r.0@[t]]
                0 <= t < r.0@.len() ==> !vms_have_pid(old(self)@, r.0@[t].qemu_pid) && vms_have_pid(
                    current@,
                    r.0@[t].qemu_pid,
                ),
            forall|j: int| #![trigger current@[j]]
                0 <= j < current@.len() && !vms_have_pid(old(self)@, current@[j].qemu_pid)
                    ==> vms_have_pid(r.0@, current@[j].qemu_pid),
            forall|t: int| #![trigger r.1@[t]]
                0 <= t < r.1@.len() ==> vms_have_pid(old(self)@, r.1@[t]) && !vms_have_pid(
                    current@,
                    r.1@[t],
                ),
            forall|j: int| #![trigger old(self)@[j]]
                0 <= j < old(self)@.len() && !vms_have_pid(current@, old(self)@[j].qemu_pid)
                    ==> r.1@.contains(old(self)@[j].qemu_pid),
    {
        let ghost pre = self.vms@;
        let mut added: Vec<VmInfo> = Vec::new();
        let n: usize = current.len();
        let mut i: usize = 0;
        while i < n
            invariant
                0 <= i <= n,
                n == current@.len(),
                self.vms@ == pre,
                forall|t: int| #![trigger added@[t]]
                    0 <= t < added@.len() ==> !vms_have_pid(pre, added@[t].qemu_pid)
                        && vms_have_pid(current@, added@[t].qemu_pid),
                forall|j: int| #![trigger current@[j]]
                    0 <= j < i && !vms_have_pid(pre, current@[j].qemu_pid) ==> vms_have_pid(
                        added@,
                        current@[j].qemu_pid,
                    ),
            decreases n - i,
        {
            let ghost added_pre = added@;
            let vm: &VmInfo = &current[i];
            if !Self::pid_in_vms(&self.vms, vm.qemu_pid) {
                added.push(vm.clone_info());
                assert(added@[added@.len() - 1].qemu_pid == current@[i as int].qemu_pid);
                assert(current@[i as int].qemu_pid == current@[i as int].qemu_pid);
            }
            proof {
                assert forall|j: int| #![trigger current@[j]]
                    0 <= j < i + 1 && !vms_have_pid(pre, current@[j].qemu_pid) implies vms_have_pid(
                    added@,
                    current@[j].qemu_pid,
                ) by {
                    if j < i as int {
                        let t = choose|t: int|
                            0 <= t < added_pre.len() && (#[trigger] added_pre[t]).qemu_pid
                                == current@[j].qemu_pid;
                        assert(added@[t].qemu_pid == current@[j].qemu_pid);
                    } else {
                        assert(added@[added@.len() - 1].qemu_pid == current@[j].qemu_pid);
                    }
                }
            }
            i = i + 1;
        }
        let mut removed: Vec<u32> = Vec::new();
        let m: usize = self.vms.len();
        let mut t: usize = 0;
        while t < m
            invariant
                0 <= t <= m,
                m == pre.len(),
                self.vms@ == pre,
                forall|a: int| #![trigger removed@[a]]
                    0 <= a < removed@.len() ==> vms_have_pid(pre, removed@[a]) && !vms_have_pid(
                        current@,
                        removed@[a],
                    ),
                forall|j: int| #![trigger pre[j]]
                    0 <= j < t && !vms_have_pid(current@, pre[j].qemu_pid) ==> removed@.contains(
                        pre[j].qemu_pid,
                    ),
            decreases m - t,
        {
            let ghost removed_pre = removed@;
            let pid = self.vms[t].qemu_pid;
            if !Self::pid_in_vms(&current, pid) {
                removed.push(pid);
                assert(pre[t as int].qemu_pid == removed@[removed@.len() - 1]);
            }
            proof {
                assert forall|j: int| #![trigger pre[j]]
                    0 <= j < t + 1 && !vms_have_pid(
                        current@,
                        pre[j].qemu_pid,
                    ) implies removed@.contains(pre[j].qemu_pid) by {
                    if j < t as int {
                        let a = choose|a: int|
                            0 <= a < removed_pre.len() && removed_pre[a] == pre[j].qemu_pid;
                        assert(removed@[a] == pre[j].qemu_pid);
                    } else {
                        assert(removed@[removed@.len() - 1] == pre[j].qemu_pid);
                    }
                }
            }
            t = t + 1;
        }
        self.vms = current;
        (added, removed)
    }

    /// Whether a VM list holds this PID.
    fn pid_in_vms(vms: &Vec<VmInfo>, pid: u32) -> (r: bool)
        ensures
            r == vms_have_pid(vms@, pid),
    {
        let n: usize = vms.len();
        let mut i: usize = 0;
        while i < n
            invariant
                0 <= i <= n,
                n == vms@.len(),
                forall|j: int| 0 <= j < i ==> (#[trigger] vms@[j]).qemu_pid != pid,
            decreases n - i,
        {
            if vms[i].qemu_pid == pid {
                assert(vms@[i as int].qemu_pid == pid);
                return true;
            }
            i = i + 1;
        }
        false
    }

    /// Every vCPU PID of every tracked VM, each with its VM's workload
    /// class: one pair per vCPU, in VM order.
    pub fn get_vcpu_workloads(&self) -> (r: Vec<(u32, VmWorkloadType)>)
        ensures
            r@.len() == vcpus_total(self@, self@.len() as int),
            forall|t: int| #![trigger r@[t]]
                0 <= t < r@.len() ==> vm_lists_vcpu(self@, r@[t].0, r@[t].1),
            forall|j: int, p: int|
                #![trigger self@[j].vcpu_pids@[p]]
                0 <= j < self@.len() && 0 <= p < self@[j].vcpu_pids@.len() ==> vcpu_pair_listed(
                    r@,
                    self@[j].vcpu_pids@[p],
                    self@[j].workload_type,
                ),
    {
        let n: usize = self.vms.len();
        let mut out: Vec<(u32, VmWorkloadType)> = Vec::new();
        let mut i: usize = 0;
        while i < n
            invariant
                0 <= i <= n,
                n == self.vms@.len(),
                out@.len() == vcpus_total(self.vms@, i as int),
                forall|t: int| #![trigger out@[t]]
                    0 <= t < out@.len() ==> vm_lists_vcpu(self.vms@, out@[t].0, out@[t].1),
                forall|j: int, p: int|
                    #![trigger self.vms@[j].vcpu_pids@[p]]
                    0 <= j < i && 0 <= p < self.vms@[j].vcpu_pids@.len() ==> vcpu_pair_listed(
                        out@,
                        self.vms@[j].vcpu_pids@[p],
                        self.vms@[j].workload_type,
                    ),
            decreases n - i,
        {
            let vm: &VmInfo = &self.vms[i];
            let vn: usize = vm.vcpu_pids.len();
            let mut v: usize = 0;
            while v < vn
                invariant
                    0 <= v <= vn,
                    0 <= i < n,
                    n == self.vms@.len(),
                    vn == self.vms@[i as int].vcpu_pids@.len(),
                    vm == &self.vms[i as int],
                    out@.len() == vcpus_total(self.vms@, i as int) + v,
                    forall|t: int| #![trigger out@[t]]
                        0 <= t < out@.len() ==> vm_lists_vcpu(self.vms@, out@[t].0, out@[t].1),
                    forall|j: int, p: int|
                        #![trigger self.vms@[j].vcpu_pids@[p]]
                        0 <= j < i && 0 <= p < self.vms@[j].vcpu_pids@.len() ==> vcpu_pair_listed(
                            out@,
                            self.vms@[j].vcpu_pids@[p],
                            self.vms@[j].workload_type,
                        ),
                    forall|p: int| #![trigger self.vms@[i as int].vcpu_pids@[p]]
                        0 <= p < v ==> vcpu_pair_listed(
                            out@,
                            self.vms@[i as int].vcpu_pids@[p],
                            self.vms@[i as int].workload_type,
                        ),
                decreases vn - v,
            {
                let ghost out_pre = out@;
                out.push((vm.vcpu_pids[v], vm.workload_type));
                proof {
                    assert(self.vms@[i as int].vcpu_pids@.contains(
                        self.vms@[i as int].vcpu_pids@[v as int],
                    ));
                    assert(out@[out@.len() - 1] == (
                        self.vms@[i as int].vcpu_pids@[v as int],
                        self.vms@[i as int].workload_type,
                    ));
                    assert forall|j: int, p: int|
                        #![trigger self.vms@[j].vcpu_pids@[p]]
                        0 <= j < i && 0 <= p
                            < self.vms@[j].vcpu_pids@.len() implies vcpu_pair_listed(
                        out@,
                        self.vms@[j].vcpu_pids@[p],
                        self.vms@[j].workload_type,
                    ) by {
                        let t0 = choose|t0: int|
                            0 <= t0 < out_pre.len() && #[trigger] out_pre[t0] == (
                                self.vms@[j].vcpu_pids@[p],
                                self.vms@[j].workload_type,
                            );
                        assert(out@[t0] == out_pre[t0]);
                    }
                    assert forall|p: int|
                        #![trigger self.vms@[i as int].vcpu_pids@[p]]
                        0 <= p < v + 1 implies vcpu_pair_listed(
                        out@,
                        self.vms@[i as int].vcpu_pids@[p],
                        self.vms@[i as int].workload_type,
                    ) by {
                        if p < v as int {
                            let t0 = choose|t0: int|
                                0 <= t0 < out_pre.len() && #[trigger] out_pre[t0] == (
                                    self.vms@[i as int].vcpu_pids@[p],
                                    self.vms@[i as int].workload_type,
                                );
                            assert(out@[t0] == out_pre[t0]);
                        } else {
                            assert(out@[out@.len() - 1] == (
                                self.vms@[i as int].vcpu_pids@[p],
                                self.vms@[i as int].workload_type,
                            ));
                        }
                    }
                }
                v = v + 1;
            }
            i = i + 1;
        }
        out
    }

    /// Number of vCPUs of gaming VMs.
    pub fn gaming_vcpu_count(&self) -> (r: usize)
        ensures
            vcpu_count_upto(self@, VmWorkloadType::Gaming, self@.len() as int) <= usize::MAX ==> r
                == vcpu_count_upto(self@, VmWorkloadType::Gaming, self@.len() as int),
            vcpu_count_upto(self@, VmWorkloadType::Gaming, self@.len() as int) > usize::MAX ==> r
                == usize::MAX,
    {
        self.count_vcpus(VmWorkloadType::Gaming)
    }

    /// Number of vCPUs of dev VMs.
    pub fn dev_vcpu_count(&self) -> (r: usize)
        ensures
            vcpu_count_upto(self@, VmWorkloadType::Dev, self@.len() as int) <= usize::MAX ==> r
                == vcpu_count_upto(self@, VmWorkloadType::Dev, self@.len() as int),
            vcpu_count_upto(self@, VmWorkloadType::Dev, self@.len() as int) > usize::MAX ==> r
                == usize::MAX,
    {
        self.count_vcpus(VmWorkloadType::Dev)
    }

    /// Sum the vCPU counts of the VMs with this class, holding at the
    /// maximum only on overflow.
    fn count_vcpus(&self, class: VmWorkloadType) -> (r: usize)
        ensures
            vcpu_count_upto(self@, class, self@.len() as int) <= usize::MAX ==> r
                == vcpu_count_upto(self@, class, self@.len() as int),
            vcpu_count_upto(self@, class, self@.len() as int) > usize::MAX ==> r == usize::MAX,
    {
        let n: usize = self.vms.len();
        let mut total: usize = 0;
        let mut i: usize = 0;
        while i < n
            invariant
                0 <= i <= n,
                n == self.vms@.len(),
                vcpu_count_upto(self.vms@, class, i as int) <= usize::MAX ==> total
                    == vcpu_count_upto(self.vms@, class, i as int),
                vcpu_count_upto(self.vms@, class, i as int) > usize::MAX ==> total == usize::MAX,
            decreases n - i,
        {
            let vm: &VmInfo = &self.vms[i];
            let is_class: bool = match (vm.workload_type, class) {
                (VmWorkloadType::Dev, VmWorkloadType::Dev) => true,
                (VmWorkloadType::Gaming, VmWorkloadType::Gaming) => true,
                (VmWorkloadType::Ai, VmWorkloadType::Ai) => true,
                (VmWorkloadType::Unknown, VmWorkloadType::Unknown) => true,
                _ => false,
            };
            if is_class {
                let add = vm.vcpu_pids.len();
                if total <= usize::MAX - add {
                    total = total + add;
                } else {
                    total = usize::MAX;
                }
            }
            i = i + 1;
        }
        total
    }

    /// Number of VMs seen by the last scan.
    pub fn vm_count(&self) -> (r: usize)
        ensures
            r == self@.len(),
    {
        self.vms.len()
    }

    /// Number of passed-through GPUs found at startup.
    pub fn passthrough_gpu_count(&self) -> (r: usize) {
        self.passthrough_gpus.len()
    }

    /// Whether any IOMMU group exists.
    pub fn has_iommu(&self) -> (r: bool)
        ensures
            r == (self.groups().len() > 0),
    {
        self.iommu_groups.len() > 0
    }

    /// A short text summary of the GPU-carrying IOMMU groups.
    pub fn iommu_summary(&self) -> (r: String) {
        let n: usize = self.iommu_groups.len();
        let mut gpu_groups: u64 = 0;
        let mut isolated: u64 = 0;
        let mut i: usize = 0;
        while i < n
            invariant
                0 <= i <= n,
                n == self.iommu_groups@.len(),
                gpu_groups <= i,
                isolated <= i,
            decreases n - i,
        {
            let g: &IommuGroup = &self.iommu_groups[i];
            if g.has_gpu {
                gpu_groups = gpu_groups + 1;
                if g.is_isolated {
                    isolated = isolated + 1;
                }
            }
            i = i + 1;
        }
        if gpu_groups == 0 {
            return String::from_str("no GPU groups");
        }
        let mut msg: Vec<u8> = Vec::new();
        let digits = crate::textnum::u64_to_dec(gpu_groups);
        crate::profile_text::append_bytes(&mut msg, digits.as_slice());
        let mid: Vec<u8> = vec![
            32u8, 71u8, 80u8, 85u8, 32u8, 103u8, 114u8, 111u8, 117u8, 112u8, 115u8, 32u8, 40u8,
        ];  //  GPU groups (
        crate::profile_text::append_bytes(&mut msg, mid.as_slice());
        let digits2 = crate::textnum::u64_to_dec(isolated);
        crate::profile_text::append_bytes(&mut msg, digits2.as_slice());
        let tail: Vec<u8> = vec![
            32u8, 105u8, 115u8, 111u8, 108u8, 97u8, 116u8, 101u8, 100u8, 41u8,
        ];  //  isolated)
        crate::profile_text::append_bytes(&mut msg, tail.as_slice());
        crate::text::bytes_to_string(msg.as_slice())
    }
}

impl VmInfo {
    /// Field-for-field copy.
    pub fn clone_info(&self) -> (r: VmInfo)
        ensures
            r.qemu_pid == self.qemu_pid,
            r.workload_type == self.workload_type,
            r.vcpu_pids@ == self.vcpu_pids@,
            r.has_gpu_passthrough == self.has_gpu_passthrough,
            r.vcpus_pinned == self.vcpus_pinned,
            r.name@ == self.name@,
    {
        let mut vcpu_pids: Vec<u32> = Vec::new();
        let n: usize = self.vcpu_pids.len();
        let mut i: usize = 0;
        while i < n
            invariant
                0 <= i <= n,
                n == self.vcpu_pids@.len(),
                vcpu_pids@ =~= self.vcpu_pids@.subrange(0, i as int),
            decreases n - i,
        {
            vcpu_pids.push(self.vcpu_pids[i]);
            proof {
                assert(vcpu_pids@ =~= self.vcpu_pids@.subrange(0, i + 1));
            }
            i = i + 1;
        }
        proof {
            assert(vcpu_pids@ =~= self.vcpu_pids@);
        }
        let mut passthrough_gpus: Vec<String> = Vec::new();
        let m: usize = self.passthrough_gpus.len();
        let mut j: usize = 0;
        while j < m
            invariant
                0 <= j <= m,
                m == self.passthrough_gpus@.len(),
            decreases m - j,
        {
            passthrough_gpus.push(self.passthrough_gpus[j].clone());
            j = j + 1;
        }
        VmInfo {
            qemu_pid: self.qemu_pid,
            name: self.name.clone(),
            workload_type: self.workload_type,
            vcpu_pids,
            has_gpu_passthrough: self.has_gpu_passthrough,
            passthrough_gpus,
            vcpus_pinned: self.vcpus_pinned,
        }
    }
}

} // verus!
