//! The profile file format: one profile per file, `key = value` lines
//! with quoted strings and unsigned numbers, and one `[tunables]` section.
//! Parsing and serializing are exact inverses for well-formed profiles.

use vstd::prelude::*;

use vstd::string::StringSliceAdditionalSpecFns;

use crate::profiles::ProfileView;
use crate::profiles::SmtPreference;
use crate::profiles::VCachePreference;
use crate::text::contains_seq;
use crate::text::sep_pos_from;
use crate::text::split_seq;
use crate::text::trim_seq;
use crate::textnum::all_digits;
use crate::textnum::dec_value;

verus! {

/// The bytes "name".
pub open spec fn k_name() -> Seq<u8> {
    seq![110u8, 97u8, 109u8, 101u8]
}

/// The bytes "exe_name".
pub open spec fn k_exe() -> Seq<u8> {
    seq![101u8, 120u8, 101u8, 95u8, 110u8, 97u8, 109u8, 101u8]
}

/// The bytes "steam_appid".
pub open spec fn k_appid() -> Seq<u8> {
    seq![115u8, 116u8, 101u8, 97u8, 109u8, 95u8, 97u8, 112u8, 112u8, 105u8, 100u8]
}

/// The bytes "comm_pattern".
pub open spec fn k_comm() -> Seq<u8> {
    seq![99u8, 111u8, 109u8, 109u8, 95u8, 112u8, 97u8, 116u8, 116u8, 101u8, 114u8, 110u8]
}

/// The bytes "vcache_preference".
pub open spec fn k_vcache() -> Seq<u8> {
    seq![
        118u8, 99u8, 97u8, 99u8, 104u8, 101u8, 95u8, 112u8, 114u8, 101u8, 102u8, 101u8, 114u8,
        101u8, 110u8, 99u8, 101u8,
    ]
}

/// The bytes "smt_preference".
pub open spec fn k_smt() -> Seq<u8> {
    seq![115u8, 109u8, 116u8, 95u8, 112u8, 114u8, 101u8, 102u8, 101u8, 114u8, 101u8, 110u8, 99u8, 101u8]
}

/// The bytes "burst_threshold_ns".
pub open spec fn k_burst() -> Seq<u8> {
    seq![
        98u8, 117u8, 114u8, 115u8, 116u8, 95u8, 116u8, 104u8, 114u8, 101u8, 115u8, 104u8, 111u8,
        108u8, 100u8, 95u8, 110u8, 115u8,
    ]
}

/// The bytes "slice_ns".
pub open spec fn k_slice() -> Seq<u8> {
    seq![115u8, 108u8, 105u8, 99u8, 101u8, 95u8, 110u8, 115u8]
}

/// The bytes "[tunables]".
pub open spec fn sect_tunables() -> Seq<u8> {
    seq![91u8, 116u8, 117u8, 110u8, 97u8, 98u8, 108u8, 101u8, 115u8, 93u8]
}

/// The bytes "auto".
pub open spec fn w_auto() -> Seq<u8> {
    seq![97u8, 117u8, 116u8, 111u8]
}

/// The bytes "cache".
pub open spec fn w_cache() -> Seq<u8> {
    seq![99u8, 97u8, 99u8, 104u8, 101u8]
}

/// The bytes "frequency".
pub open spec fn w_frequency() -> Seq<u8> {
    seq![102u8, 114u8, 101u8, 113u8, 117u8, 101u8, 110u8, 99u8, 121u8]
}

/// The bytes "prefer_idle".
pub open spec fn w_prefer_idle() -> Seq<u8> {
    seq![112u8, 114u8, 101u8, 102u8, 101u8, 114u8, 95u8, 105u8, 100u8, 108u8, 101u8]
}

/// The bytes "allow_shared".
pub open spec fn w_allow_shared() -> Seq<u8> {
    seq![97u8, 108u8, 108u8, 111u8, 119u8, 95u8, 115u8, 104u8, 97u8, 114u8, 101u8, 100u8]
}

/// A quoted string value: the bytes between the two quotes, which must
/// not themselves contain a quote.
pub open spec fn string_value(v: Seq<u8>) -> Option<Seq<u8>> {
    if v.len() >= 2 && v[0] == 34 && v[v.len() - 1] == 34 && !contains_seq(
        v.subrange(1, v.len() - 1),
        seq![34u8],
    ) {
        Some(v.subrange(1, v.len() - 1))
    } else {
        None
    }
}

/// An unsigned 64-bit number value.
pub open spec fn u64_value(v: Seq<u8>) -> Option<u64> {
    if v.len() > 0 && all_digits(v) && dec_value(v) <= u64::MAX {
        Some(dec_value(v) as u64)
    } else {
        None
    }
}

/// An unsigned 32-bit number value.
pub open spec fn u32_value(v: Seq<u8>) -> Option<u32> {
    if v.len() > 0 && all_digits(v) && dec_value(v) <= u32::MAX {
        Some(dec_value(v) as u32)
    } else {
        None
    }
}

/// A V-Cache preference value: a quoted keyword.
pub open spec fn vcache_value(v: Seq<u8>) -> Option<VCachePreference> {
    match string_value(v) {
        Some(w) => {
            if w == w_auto() {
                Some(VCachePreference::Auto)
            } else if w == w_cache() {
                Some(VCachePreference::Cache)
            } else if w == w_frequency() {
                Some(VCachePreference::Frequency)
            } else {
                None
            }
        },
        None => None,
    }
}

/// An SMT preference value: a quoted keyword.
pub open spec fn smt_value(v: Seq<u8>) -> Option<SmtPreference> {
    match string_value(v) {
        Some(w) => {
            if w == w_auto() {
                Some(SmtPreference::Auto)
            } else if w == w_prefer_idle() {
                Some(SmtPreference::PreferIdle)
            } else if w == w_allow_shared() {
                Some(SmtPreference::AllowShared)
            } else {
                None
            }
        },
        None => None,
    }
}

/// The parser state: every field collected so far and the current
/// section (0 the top, 1 the tunables table, 2 an unknown table).
pub struct PState {
    pub name: Option<Seq<u8>>,
    pub exe_name: Option<Seq<u8>>,
    pub steam_appid: Option<u32>,
    pub comm_pattern: Option<Seq<u8>>,
    pub burst_threshold_ns: Option<u64>,
    pub slice_ns: Option<u64>,
    pub vcache_preference: VCachePreference,
    pub smt_preference: SmtPreference,
    pub section: int,
}

/// The state before any line.
pub open spec fn p_init() -> PState {
    PState {
        name: None,
        exe_name: None,
        steam_appid: None,
        comm_pattern: None,
        burst_threshold_ns: None,
        slice_ns: None,
        vcache_preference: VCachePreference::Auto,
        smt_preference: SmtPreference::Auto,
        section: 0,
    }
}

/// One line's effect on the state. Blank lines and comments change
/// nothing; `[tunables]` enters the tunables table and any other header
/// an unknown table whose keys are ignored; a known key must carry a
/// well-formed value; unknown keys are ignored. A non-header line
/// without `=` is an error.
pub open spec fn p_step(st: PState, line: Seq<u8>) -> Option<PState> {
    let t = trim_seq(line);
    if t.len() == 0 || t[0] == 35 {
        Some(st)
    } else if t == sect_tunables() {
        Some(PState { section: 1, ..st })
    } else if t[0] == 91 {
        Some(PState { section: 2, ..st })
    } else {
        let d = sep_pos_from(t, 61, 0);
        if !(0 <= d < t.len()) {
            None
        } else {
            let key = trim_seq(t.subrange(0, d));
            let value = trim_seq(t.subrange(d + 1, t.len() as int));
            if st.section == 0 {
                if key == k_name() {
                    match string_value(value) {
                        Some(s) => Some(PState { name: Some(s), ..st }),
                        None => None,
                    }
                } else if key == k_exe() {
                    match string_value(value) {
                        Some(s) => Some(PState { exe_name: Some(s), ..st }),
                        None => None,
                    }
                } else if key == k_appid() {
                    match u32_value(value) {
                        Some(v) => Some(PState { steam_appid: Some(v), ..st }),
                        None => None,
                    }
                } else if key == k_comm() {
                    match string_value(value) {
                        Some(s) => Some(PState { comm_pattern: Some(s), ..st }),
                        None => None,
                    }
                } else if key == k_vcache() {
                    match vcache_value(value) {
                        Some(v) => Some(PState { vcache_preference: v, ..st }),
                        None => None,
                    }
                } else if key == k_smt() {
                    match smt_value(value) {
                        Some(v) => Some(PState { smt_preference: v, ..st }),
                        None => None,
                    }
                } else {
                    Some(st)
                }
            } else if st.section == 1 {
                if key == k_burst() {
                    match u64_value(value) {
                        Some(v) => Some(PState { burst_threshold_ns: Some(v), ..st }),
                        None => None,
                    }
                } else if key == k_slice() {
                    match u64_value(value) {
                        Some(v) => Some(PState { slice_ns: Some(v), ..st }),
                        None => None,
                    }
                } else {
                    Some(st)
                }
            } else {
                Some(st)
            }
        }
    }
}

/// The state after a run of lines.
pub open spec fn p_run(st: Option<PState>, lines: Seq<Seq<u8>>) -> Option<PState>
    decreases lines.len(),
{
    if lines.len() == 0 {
        st
    } else {
        match st {
            None => None,
            Some(s) => p_run(p_step(s, lines[0]), lines.drop_first()),
        }
    }
}

/// The profile value a final state denotes; the name is required.
pub open spec fn p_finish(st: Option<PState>) -> Option<ProfileView> {
    match st {
        Some(s) => {
            if s.name is Some {
                Some(
                    ProfileView {
                        name: s.name->0,
                        exe_name: s.exe_name,
                        steam_appid: s.steam_appid,
                        comm_pattern: s.comm_pattern,
                        burst_threshold_ns: s.burst_threshold_ns,
                        slice_ns: s.slice_ns,
                        vcache_preference: s.vcache_preference,
                        smt_preference: s.smt_preference,
                    },
                )
            } else {
                None
            }
        },
        None => None,
    }
}

/// The profile a file's text denotes.
pub open spec fn spec_parse_profile(s: Seq<u8>) -> Option<ProfileView> {
    p_finish(p_run(Some(p_init()), split_seq(s, 10)))
}


proof fn lemma_p_run_none(lines: Seq<Seq<u8>>)
    ensures
        p_run(None, lines) is None,
{
    if lines.len() > 0 {
    }
}

proof fn lemma_p_run_snoc(st: Option<PState>, lines: Seq<Seq<u8>>, x: Seq<u8>)
    ensures
        p_run(st, lines.push(x)) == (match p_run(st, lines) {
            Some(s) => p_step(s, x),
            None => None,
        }),
    decreases lines.len(),
{
    match st {
        None => {
            lemma_p_run_none(lines.push(x));
            lemma_p_run_none(lines);
        },
        Some(s0) => {
            if lines.len() == 0 {
                assert(lines.push(x).drop_first() =~= Seq::<Seq<u8>>::empty());
                assert(lines.push(x)[0] == x);
            } else {
                assert(lines.push(x).drop_first() =~= lines.drop_first().push(x));
                assert(lines.push(x)[0] == lines[0]);
                lemma_p_run_snoc(p_step(s0, lines[0]), lines.drop_first(), x);
            }
        },
    }
}

/// The byte string an optionally collected value holds.
pub open spec fn ov(o: Option<Vec<u8>>) -> Option<Seq<u8>> {
    match o {
        Some(v) => Some(v@),
        None => None,
    }
}

/// Extract a quoted string value.
fn string_value_exec(v: &Vec<u8>) -> (r: Option<Vec<u8>>)
    ensures
        r is Some <==> string_value(v@) is Some,
        r is Some ==> string_value(v@) == Some(r->0@),
{
    let n: usize = v.len();
    if n < 2 || v[0] != 34 || v[n - 1] != 34 {
        return None;
    }
    let inner = crate::text::subvec(v.as_slice(), 1, n - 1);
    let quote: Vec<u8> = vec![34u8];
    proof {
        assert(quote@ =~= seq![34u8]);
    }
    if crate::text::contains_bytes(inner.as_slice(), quote.as_slice()) {
        return None;
    }
    Some(inner)
}

/// Every string field of the profile is ASCII.
pub open spec fn ascii_view(v: ProfileView) -> bool {
    &&& forall|i: int| 0 <= i < v.name.len() ==> v.name[i] < 128
    &&& (v.exe_name matches Some(e) ==> forall|i: int| 0 <= i < e.len() ==> e[i] < 128)
    &&& (v.comm_pattern matches Some(c) ==> forall|i: int| 0 <= i < c.len() ==> c[i] < 128)
}

/// Parse one profile file. Fails exactly where the format does not parse
/// or no name is given; for a file whose string fields are ASCII the
/// value is exactly the one the format specifies.
pub fn parse_profile(content: &str) -> (r: Option<crate::profiles::GameProfile>)
    ensures
        r is Some <==> spec_parse_profile(content.spec_bytes()) is Some,
        r is Some && ascii_view(spec_parse_profile(content.spec_bytes())->0) ==> r->0@
            == spec_parse_profile(content.spec_bytes())->0,
{
    let lines = crate::text::split_at_seps(content.as_bytes(), 10);
    let m: usize = lines.len();
    let mut name_b: Option<Vec<u8>> = None;
    let mut exe_b: Option<Vec<u8>> = None;
    let mut appid: Option<u32> = None;
    let mut comm_b: Option<Vec<u8>> = None;
    let mut burst: Option<u64> = None;
    let mut slice: Option<u64> = None;
    let mut vcache: VCachePreference = VCachePreference::Auto;
    let mut smt: SmtPreference = SmtPreference::Auto;
    let mut section: u8 = 0;
    let mut k: usize = 0;
    proof {
        assert(crate::text::views_of(lines@).subrange(0, 0) =~= Seq::<Seq<u8>>::empty());
    }
    while k < m
        invariant
            0 <= k <= m,
            m == lines@.len(),
            crate::text::views_of(lines@) == split_seq(content.spec_bytes(), 10),
            section == 0 || section == 1 || section == 2,
            p_run(Some(p_init()), crate::text::views_of(lines@).subrange(0, k as int)) == Some(
                PState {
                    name: ov(name_b),
                    exe_name: ov(exe_b),
                    steam_appid: appid,
                    comm_pattern: ov(comm_b),
                    burst_threshold_ns: burst,
                    slice_ns: slice,
                    vcache_preference: vcache,
                    smt_preference: smt,
                    section: section as int,
                },
            ),
        decreases m - k,
    {
        let ghost st_pre = PState {
            name: ov(name_b),
            exe_name: ov(exe_b),
            steam_appid: appid,
            comm_pattern: ov(comm_b),
            burst_threshold_ns: burst,
            slice_ns: slice,
            vcache_preference: vcache,
            smt_preference: smt,
            section: section as int,
        };
        let line: &Vec<u8> = &lines[k];
        let ghost lv = line@;
        let t = crate::text::trim_exact(line.as_slice());
        let tn: usize = t.len();
        let sect: Vec<u8> = vec![91u8, 116u8, 117u8, 110u8, 97u8, 98u8, 108u8, 101u8, 115u8, 93u8];  // [tunables]
        proof {
            assert(sect@ =~= sect_tunables());
        }
        if tn == 0 || t[0] == 35 {
            // blank or comment: nothing changes
        } else if crate::text::eq_bytes(t.as_slice(), sect.as_slice()) {
            section = 1;
        } else if t[0] == 91 {
            section = 2;
        } else {
            let mut d: usize = 0;
            while d < tn && t[d] != 61
                invariant
                    0 <= d <= tn,
                    tn == t@.len(),
                    forall|j: int| 0 <= j < d ==> t@[j] != 61,
                decreases tn - d,
            {
                d = d + 1;
            }
            proof {
                crate::text::lemma_sep_pos_from(t@, 61, 0, d as int);
            }
            if d >= tn {
                proof {
                    assert(p_step(st_pre, lv) is None);
                    assert(crate::text::views_of(lines@).subrange(0, k + 1)
                        =~= crate::text::views_of(lines@).subrange(0, k as int).push(lv));
                    lemma_p_run_snoc(
                        Some(p_init()),
                        crate::text::views_of(lines@).subrange(0, k as int),
                        lv,
                    );
                    lemma_p_run_split_none(
                        crate::text::views_of(lines@),
                        k + 1,
                    );
                }
                return None;
            }
            let key = crate::text::trim_exact(
                crate::text::subvec(t.as_slice(), 0, d).as_slice(),
            );
            let value = crate::text::trim_exact(
                crate::text::subvec(t.as_slice(), d + 1, tn).as_slice(),
            );
            let kb = key.as_slice();
            let kname: Vec<u8> = vec![110u8, 97u8, 109u8, 101u8];  // name
            let kexe: Vec<u8> = vec![101u8, 120u8, 101u8, 95u8, 110u8, 97u8, 109u8, 101u8];  // exe_name
            let kappid: Vec<u8> = vec![
                115u8, 116u8, 101u8, 97u8, 109u8, 95u8, 97u8, 112u8, 112u8, 105u8, 100u8,
            ];  // steam_appid
            let kcomm: Vec<u8> = vec![
                99u8, 111u8, 109u8, 109u8, 95u8, 112u8, 97u8, 116u8, 116u8, 101u8, 114u8, 110u8,
            ];  // comm_pattern
            let kvc: Vec<u8> = vec![
                118u8, 99u8, 97u8, 99u8, 104u8, 101u8, 95u8, 112u8, 114u8, 101u8, 102u8, 101u8,
                114u8, 101u8, 110u8, 99u8, 101u8,
            ];  // vcache_preference
            let ksmt: Vec<u8> = vec![
                115u8, 109u8, 116u8, 95u8, 112u8, 114u8, 101u8, 102u8, 101u8, 114u8, 101u8, 110u8,
                99u8, 101u8,
            ];  // smt_preference
            let kburst: Vec<u8> = vec![
                98u8, 117u8, 114u8, 115u8, 116u8, 95u8, 116u8, 104u8, 114u8, 101u8, 115u8, 104u8,
                111u8, 108u8, 100u8, 95u8, 110u8, 115u8,
            ];  // burst_threshold_ns
            let kslice: Vec<u8> = vec![115u8, 108u8, 105u8, 99u8, 101u8, 95u8, 110u8, 115u8];  // slice_ns
            proof {
                assert(kname@ =~= k_name());
                assert(kexe@ =~= k_exe());
                assert(kappid@ =~= k_appid());
                assert(kcomm@ =~= k_comm());
                assert(kvc@ =~= k_vcache());
                assert(ksmt@ =~= k_smt());
                assert(kburst@ =~= k_burst());
                assert(kslice@ =~= k_slice());
            }
            let mut failed: bool = false;
            if section == 0 {
                if crate::text::eq_bytes(kb, kname.as_slice()) {
                    match string_value_exec(&value) {
                        Some(sv) => {
                            name_b = Some(sv);
                        },
                        None => {
                            failed = true;
                        },
                    }
                } else if crate::text::eq_bytes(kb, kexe.as_slice()) {
                    match string_value_exec(&value) {
                        Some(sv) => {
                            exe_b = Some(sv);
                        },
                        None => {
                            failed = true;
                        },
                    }
                } else if crate::text::eq_bytes(kb, kappid.as_slice()) {
                    match crate::textnum::parse_u32(value.as_slice()) {
                        Some(v) => {
                            appid = Some(v);
                        },
                        None => {
                            failed = true;
                        },
                    }
                } else if crate::text::eq_bytes(kb, kcomm.as_slice()) {
                    match string_value_exec(&value) {
                        Some(sv) => {
                            comm_b = Some(sv);
                        },
                        None => {
                            failed = true;
                        },
                    }
                } else if crate::text::eq_bytes(kb, kvc.as_slice()) {
                    match string_value_exec(&value) {
                        Some(sv) => {
                            let wauto: Vec<u8> = vec![97u8, 117u8, 116u8, 111u8];  // auto
                            let wcache: Vec<u8> = vec![99u8, 97u8, 99u8, 104u8, 101u8];  // cache
                            let wfreq: Vec<u8> = vec![
                                102u8, 114u8, 101u8, 113u8, 117u8, 101u8, 110u8, 99u8, 121u8,
                            ];  // frequency
                            proof {
                                assert(wauto@ =~= w_auto());
                                assert(wcache@ =~= w_cache());
                                assert(wfreq@ =~= w_frequency());
                            }
                            if crate::text::eq_bytes(sv.as_slice(), wauto.as_slice()) {
                                vcache = VCachePreference::Auto;
                            } else if crate::text::eq_bytes(sv.as_slice(), wcache.as_slice()) {
                                vcache = VCachePreference::Cache;
                            } else if crate::text::eq_bytes(sv.as_slice(), wfreq.as_slice()) {
                                vcache = VCachePreference::Frequency;
                            } else {
                                failed = true;
                            }
                        },
                        None => {
                            failed = true;
                        },
                    }
                } else if crate::text::eq_bytes(kb, ksmt.as_slice()) {
                    match string_value_exec(&value) {
                        Some(sv) => {
                            let wauto: Vec<u8> = vec![97u8, 117u8, 116u8, 111u8];  // auto
                            let wpi: Vec<u8> = vec![
                                112u8, 114u8, 101u8, 102u8, 101u8, 114u8, 95u8, 105u8, 100u8,
                                108u8, 101u8,
                            ];  // prefer_idle
                            let was: Vec<u8> = vec![
                                97u8, 108u8, 108u8, 111u8, 119u8, 95u8, 115u8, 104u8, 97u8, 114u8,
                                101u8, 100u8,
                            ];  // allow_shared
                            proof {
                                assert(wauto@ =~= w_auto());
                                assert(wpi@ =~= w_prefer_idle());
                                assert(was@ =~= w_allow_shared());
                            }
                            if crate::text::eq_bytes(sv.as_slice(), wauto.as_slice()) {
                                smt = SmtPreference::Auto;
                            } else if crate::text::eq_bytes(sv.as_slice(), wpi.as_slice()) {
                                smt = SmtPreference::PreferIdle;
                            } else if crate::text::eq_bytes(sv.as_slice(), was.as_slice()) {
                                smt = SmtPreference::AllowShared;
                            } else {
                                failed = true;
                            }
                        },
                        None => {
                            failed = true;
                        },
                    }
                }
            } else if section == 1 {
                if crate::text::eq_bytes(kb, kburst.as_slice()) {
                    match crate::textnum::parse_u64(value.as_slice()) {
                        Some(v) => {
                            burst = Some(v);
                        },
                        None => {
                            failed = true;
                        },
                    }
                } else if crate::text::eq_bytes(kb, kslice.as_slice()) {
                    match crate::textnum::parse_u64(value.as_slice()) {
                        Some(v) => {
                            slice = Some(v);
                        },
                        None => {
                            failed = true;
                        },
                    }
                }
            }
            if failed {
                proof {
                    assert(p_step(st_pre, lv) is None);
                    assert(crate::text::views_of(lines@).subrange(0, k + 1)
                        =~= crate::text::views_of(lines@).subrange(0, k as int).push(lv));
                    lemma_p_run_snoc(
                        Some(p_init()),
                        crate::text::views_of(lines@).subrange(0, k as int),
                        lv,
                    );
                    lemma_p_run_split_none(crate::text::views_of(lines@), k + 1);
                }
                return None;
            }
        }
        proof {
            let st_post = PState {
                name: ov(name_b),
                exe_name: ov(exe_b),
                steam_appid: appid,
                comm_pattern: ov(comm_b),
                burst_threshold_ns: burst,
                slice_ns: slice,
                vcache_preference: vcache,
                smt_preference: smt,
                section: section as int,
            };
            assert(p_step(st_pre, lv) == Some(st_post));
            assert(crate::text::views_of(lines@).subrange(0, k + 1) =~= crate::text::views_of(
                lines@,
            ).subrange(0, k as int).push(lv));
            lemma_p_run_snoc(
                Some(p_init()),
                crate::text::views_of(lines@).subrange(0, k as int),
                lv,
            );
        }
        k = k + 1;
    }
    proof {
        assert(crate::text::views_of(lines@).subrange(0, m as int) =~= crate::text::views_of(
            lines@,
        ));
    }
    let ghost st_final = PState {
        name: ov(name_b),
        exe_name: ov(exe_b),
        steam_appid: appid,
        comm_pattern: ov(comm_b),
        burst_threshold_ns: burst,
        slice_ns: slice,
        vcache_preference: vcache,
        smt_preference: smt,
        section: section as int,
    };
    let name_bytes = match name_b {
        Some(v) => v,
        None => {
            return None;
        },
    };
    let name = conv_string(&name_bytes);
    let exe_name: Option<String>;
    match exe_b {
        Some(v) => {
            let sv = conv_string(&v);
            proof {
                assert(st_final.exe_name == Some(v@));
            }
            exe_name = Some(sv);
        },
        None => {
            exe_name = None;
        },
    }
    let comm_pattern: Option<String>;
    match comm_b {
        Some(v) => {
            let sv = conv_string(&v);
            proof {
                assert(st_final.comm_pattern == Some(v@));
            }
            comm_pattern = Some(sv);
        },
        None => {
            comm_pattern = None;
        },
    }
    let result = crate::profiles::GameProfile {
        name,
        exe_name,
        steam_appid: appid,
        comm_pattern,
        tunables: crate::profiles::ProfileTunables { burst_threshold_ns: burst, slice_ns: slice },
        vcache_preference: vcache,
        smt_preference: smt,
    };
    proof {
        let specv = spec_parse_profile(content.spec_bytes())->0;
        if ascii_view(specv) {
            assert(specv.name == name_bytes@);
            assert(crate::text::string_bytes(result.name@) == name_bytes@);
            match st_final.exe_name {
                Some(vb) => {
                    assert(specv.exe_name == Some(vb));
                    assert(result.exe_name is Some);
                    assert(crate::text::string_bytes(result.exe_name->0@) == vb);
                },
                None => {
                    assert(result.exe_name is None);
                },
            }
            match st_final.comm_pattern {
                Some(vb) => {
                    assert(specv.comm_pattern == Some(vb));
                    assert(result.comm_pattern is Some);
                    assert(crate::text::string_bytes(result.comm_pattern->0@) == vb);
                },
                None => {
                    assert(result.comm_pattern is None);
                },
            }
            assert(result@ == specv);
        }
    }
    Some(result)
}

/// Once a step has failed, the whole run fails.
proof fn lemma_p_run_split_none(lines: Seq<Seq<u8>>, k: int)
    requires
        0 <= k <= lines.len(),
        p_run(Some(p_init()), lines.subrange(0, k)) is None,
    ensures
        p_run(Some(p_init()), lines) is None,
    decreases lines.len() - k,
{
    if k < lines.len() {
        assert(lines.subrange(0, k + 1) =~= lines.subrange(0, k).push(lines[k]));
        lemma_p_run_snoc(Some(p_init()), lines.subrange(0, k), lines[k]);
        lemma_p_run_split_none(lines, k + 1);
    } else {
        assert(lines.subrange(0, k) =~= lines);
    }
}

/// Bytes to text: exact for ASCII bytes.
fn conv_string(v: &Vec<u8>) -> (r: String)
    ensures
        (forall|i: int| 0 <= i < v@.len() ==> v@[i] < 128) ==> crate::text::string_bytes(r@) == v@,
{
    let n: usize = v.len();
    let mut ascii: bool = true;
    let mut i: usize = 0;
    while i < n
        invariant
            0 <= i <= n,
            n == v@.len(),
            ascii == forall|j: int| 0 <= j < i ==> v@[j] < 128,
        decreases n - i,
    {
        let ghost ascii_pre = ascii;
        if v[i] >= 128 {
            ascii = false;
        }
        proof {
            if ascii {
                assert(v@[i as int] < 128);
            } else {
                if ascii_pre && v@[i as int] < 128 {
                    assert(false);
                }
            }
        }
        i = i + 1;
    }
    if ascii {
        crate::text::bytes_to_string_exact(v.as_slice())
    } else {
        crate::text::bytes_to_string(v.as_slice())
    }
}


/// A `key = "value"` line.
pub open spec fn str_line(key: Seq<u8>, v: Seq<u8>) -> Seq<u8> {
    key + seq![32u8, 61u8, 32u8, 34u8] + v + seq![34u8]
}

/// A `key = number` line.
pub open spec fn num_line(key: Seq<u8>, n: nat) -> Seq<u8> {
    key + seq![32u8, 61u8, 32u8] + crate::textnum::dec_bytes(n)
}

/// The keyword of a V-Cache preference.
pub open spec fn vcache_word(p: VCachePreference) -> Seq<u8> {
    match p {
        VCachePreference::Auto => w_auto(),
        VCachePreference::Cache => w_cache(),
        VCachePreference::Frequency => w_frequency(),
    }
}

/// The keyword of an SMT preference.
pub open spec fn smt_word(p: SmtPreference) -> Seq<u8> {
    match p {
        SmtPreference::Auto => w_auto(),
        SmtPreference::PreferIdle => w_prefer_idle(),
        SmtPreference::AllowShared => w_allow_shared(),
    }
}

/// The lines a profile serializes to: the top-level fields (set ones
/// only), the preferences, then the tunables table.
pub open spec fn ser_lines(v: ProfileView) -> Seq<Seq<u8>> {
    seq![str_line(k_name(), v.name)] + (match v.exe_name {
        Some(e) => seq![str_line(k_exe(), e)],
        None => Seq::<Seq<u8>>::empty(),
    }) + (match v.steam_appid {
        Some(a) => seq![num_line(k_appid(), a as nat)],
        None => Seq::<Seq<u8>>::empty(),
    }) + (match v.comm_pattern {
        Some(c) => seq![str_line(k_comm(), c)],
        None => Seq::<Seq<u8>>::empty(),
    }) + seq![str_line(k_vcache(), vcache_word(v.vcache_preference))] + seq![
        str_line(k_smt(), smt_word(v.smt_preference)),
    ] + seq![sect_tunables()] + (match v.burst_threshold_ns {
        Some(b) => seq![num_line(k_burst(), b as nat)],
        None => Seq::<Seq<u8>>::empty(),
    }) + (match v.slice_ns {
        Some(sl) => seq![num_line(k_slice(), sl as nat)],
        None => Seq::<Seq<u8>>::empty(),
    })
}

/// Lines joined with a newline after each.
pub open spec fn join_lines(lines: Seq<Seq<u8>>) -> Seq<u8>
    decreases lines.len(),
{
    if lines.len() == 0 {
        Seq::<u8>::empty()
    } else {
        lines[0] + seq![10u8] + join_lines(lines.drop_first())
    }
}

/// The text a profile serializes to.
pub open spec fn spec_serialize_profile(v: ProfileView) -> Seq<u8> {
    join_lines(ser_lines(v))
}

/// Append bytes.
pub fn append_bytes(out: &mut Vec<u8>, b: &[u8])
    ensures
        final(out)@ == old(out)@ + b@,
{
    push_all(out, b)
}

/// Append bytes.
fn push_all(out: &mut Vec<u8>, b: &[u8])
    ensures
        final(out)@ == old(out)@ + b@,
{
    let n: usize = b.len();
    let mut i: usize = 0;
    while i < n
        invariant
            0 <= i <= n,
            n == b@.len(),
            out@ == old(out)@ + b@.subrange(0, i as int),
        decreases n - i,
    {
        out.push(b[i]);
        proof {
            assert(out@ =~= old(out)@ + b@.subrange(0, i + 1));
        }
        i = i + 1;
    }
    proof {
        assert(b@.subrange(0, n as int) =~= b@);
    }
}

/// Append one `key = "value"` line and its newline.
fn emit_str_line(out: &mut Vec<u8>, key: &[u8], value: &[u8])
    ensures
        final(out)@ == old(out)@ + str_line(key@, value@) + seq![10u8],
{
    let eq_quote: Vec<u8> = vec![32u8, 61u8, 32u8, 34u8];  //  = "
    let quote_nl: Vec<u8> = vec![34u8, 10u8];
    push_all(out, key);
    push_all(out, eq_quote.as_slice());
    push_all(out, value);
    push_all(out, quote_nl.as_slice());
    proof {
        assert(final(out)@ =~= old(out)@ + str_line(key@, value@) + seq![10u8]);
    }
}

/// Append one `key = number` line and its newline.
fn emit_num_line(out: &mut Vec<u8>, key: &[u8], v: u64)
    ensures
        final(out)@ == old(out)@ + num_line(key@, v as nat) + seq![10u8],
{
    let eq_plain: Vec<u8> = vec![32u8, 61u8, 32u8];  //  =
    push_all(out, key);
    push_all(out, eq_plain.as_slice());
    let digits = crate::textnum::u64_to_dec(v);
    push_all(out, digits.as_slice());
    out.push(10);
    proof {
        assert(final(out)@ =~= old(out)@ + num_line(key@, v as nat) + seq![10u8]);
    }
}

/// Serialize the top-level fields: name, the optional matchers, and the
/// two preferences.
#[verifier::rlimit(100)]
#[verifier::spinoff_prover]
fn serialize_top(p: &crate::profiles::GameProfile) -> (r: Vec<u8>)
    ensures
        r@ == join_lines(top_lines(p@)),
{
    let mut out: Vec<u8> = Vec::new();
    let kname: Vec<u8> = vec![110u8, 97u8, 109u8, 101u8];  // name
    let kexe: Vec<u8> = vec![101u8, 120u8, 101u8, 95u8, 110u8, 97u8, 109u8, 101u8];  // exe_name
    let kappid: Vec<u8> = vec![
        115u8, 116u8, 101u8, 97u8, 109u8, 95u8, 97u8, 112u8, 112u8, 105u8, 100u8,
    ];  // steam_appid
    let kcomm: Vec<u8> = vec![
        99u8, 111u8, 109u8, 109u8, 95u8, 112u8, 97u8, 116u8, 116u8, 101u8, 114u8, 110u8,
    ];  // comm_pattern
    let kvc: Vec<u8> = vec![
        118u8, 99u8, 97u8, 99u8, 104u8, 101u8, 95u8, 112u8, 114u8, 101u8, 102u8, 101u8, 114u8,
        101u8, 110u8, 99u8, 101u8,
    ];  // vcache_preference
    let ksmt: Vec<u8> = vec![
        115u8, 109u8, 116u8, 95u8, 112u8, 114u8, 101u8, 102u8, 101u8, 114u8, 101u8, 110u8, 99u8,
        101u8,
    ];  // smt_preference
    let wauto: Vec<u8> = vec![97u8, 117u8, 116u8, 111u8];  // auto
    let wcache: Vec<u8> = vec![99u8, 97u8, 99u8, 104u8, 101u8];  // cache
    let wfreq: Vec<u8> = vec![102u8, 114u8, 101u8, 113u8, 117u8, 101u8, 110u8, 99u8, 121u8];  // frequency
    let wpi: Vec<u8> = vec![
        112u8, 114u8, 101u8, 102u8, 101u8, 114u8, 95u8, 105u8, 100u8, 108u8, 101u8,
    ];  // prefer_idle
    let was: Vec<u8> = vec![
        97u8, 108u8, 108u8, 111u8, 119u8, 95u8, 115u8, 104u8, 97u8, 114u8, 101u8, 100u8,
    ];  // allow_shared
    proof {
        assert(kname@ =~= k_name());
        assert(kexe@ =~= k_exe());
        assert(kappid@ =~= k_appid());
        assert(kcomm@ =~= k_comm());
        assert(kvc@ =~= k_vcache());
        assert(ksmt@ =~= k_smt());
        assert(wauto@ =~= w_auto());
        assert(wcache@ =~= w_cache());
        assert(wfreq@ =~= w_frequency());
        assert(wpi@ =~= w_prefer_idle());
        assert(was@ =~= w_allow_shared());
    }
    emit_str_line(&mut out, kname.as_slice(), p.name.as_str().as_bytes());
    let ghost l1: Seq<Seq<u8>> = seq![str_line(k_name(), p@.name)];
    proof {
        lemma_join_one(str_line(k_name(), p@.name));
        assert(out@ =~= join_lines(l1));
    }
    if let Some(e) = &p.exe_name {
        emit_str_line(&mut out, kexe.as_slice(), e.as_str().as_bytes());
    }
    let ghost l2 = l1 + (match p@.exe_name {
        Some(e) => seq![str_line(k_exe(), e)],
        None => Seq::<Seq<u8>>::empty(),
    });
    proof {
        let g = l2.subrange(1, l2.len() as int);
        if g.len() > 0 {
            lemma_join_one(g[0]);
            assert(g =~= seq![g[0]]);
        }
        lemma_join_concat(l1, g);
        assert(l2 =~= l1 + g);
        assert(out@ =~= join_lines(l2));
    }
    if let Some(a) = p.steam_appid {
        emit_num_line(&mut out, kappid.as_slice(), a as u64);
    }
    let ghost l3 = l2 + (match p@.steam_appid {
        Some(a) => seq![num_line(k_appid(), a as nat)],
        None => Seq::<Seq<u8>>::empty(),
    });
    proof {
        let g = l3.subrange(l2.len() as int, l3.len() as int);
        if g.len() > 0 {
            lemma_join_one(g[0]);
            assert(g =~= seq![g[0]]);
        }
        lemma_join_concat(l2, g);
        assert(l3 =~= l2 + g);
        assert(out@ =~= join_lines(l3));
    }
    if let Some(c) = &p.comm_pattern {
        emit_str_line(&mut out, kcomm.as_slice(), c.as_str().as_bytes());
    }
    let ghost l4 = l3 + (match p@.comm_pattern {
        Some(c) => seq![str_line(k_comm(), c)],
        None => Seq::<Seq<u8>>::empty(),
    });
    proof {
        let g = l4.subrange(l3.len() as int, l4.len() as int);
        if g.len() > 0 {
            lemma_join_one(g[0]);
            assert(g =~= seq![g[0]]);
        }
        lemma_join_concat(l3, g);
        assert(l4 =~= l3 + g);
        assert(out@ =~= join_lines(l4));
    }
    match p.vcache_preference {
        VCachePreference::Auto => emit_str_line(&mut out, kvc.as_slice(), wauto.as_slice()),
        VCachePreference::Cache => emit_str_line(&mut out, kvc.as_slice(), wcache.as_slice()),
        VCachePreference::Frequency => emit_str_line(&mut out, kvc.as_slice(), wfreq.as_slice()),
    }
    let ghost l5 = l4 + seq![str_line(k_vcache(), vcache_word(p@.vcache_preference))];
    proof {
        let g = seq![str_line(k_vcache(), vcache_word(p@.vcache_preference))];
        lemma_join_one(g[0]);
        lemma_join_concat(l4, g);
        assert(out@ =~= join_lines(l5));
    }
    match p.smt_preference {
        SmtPreference::Auto => emit_str_line(&mut out, ksmt.as_slice(), wauto.as_slice()),
        SmtPreference::PreferIdle => emit_str_line(&mut out, ksmt.as_slice(), wpi.as_slice()),
        SmtPreference::AllowShared => emit_str_line(&mut out, ksmt.as_slice(), was.as_slice()),
    }
    let ghost l6 = l5 + seq![str_line(k_smt(), smt_word(p@.smt_preference))];
    proof {
        let g = seq![str_line(k_smt(), smt_word(p@.smt_preference))];
        lemma_join_one(g[0]);
        lemma_join_concat(l5, g);
        assert(l6 =~= top_lines(p@));
        assert(out@ =~= join_lines(top_lines(p@)));
    }
    out
}

/// The top-section lines of a profile.
pub open spec fn top_lines(v: ProfileView) -> Seq<Seq<u8>> {
    seq![str_line(k_name(), v.name)] + (match v.exe_name {
        Some(e) => seq![str_line(k_exe(), e)],
        None => Seq::<Seq<u8>>::empty(),
    }) + (match v.steam_appid {
        Some(a) => seq![num_line(k_appid(), a as nat)],
        None => Seq::<Seq<u8>>::empty(),
    }) + (match v.comm_pattern {
        Some(c) => seq![str_line(k_comm(), c)],
        None => Seq::<Seq<u8>>::empty(),
    }) + seq![str_line(k_vcache(), vcache_word(v.vcache_preference))] + seq![
        str_line(k_smt(), smt_word(v.smt_preference)),
    ]
}

/// The tunables-section lines of a profile.
pub open spec fn tunables_lines(v: ProfileView) -> Seq<Seq<u8>> {
    seq![sect_tunables()] + (match v.burst_threshold_ns {
        Some(b) => seq![num_line(k_burst(), b as nat)],
        None => Seq::<Seq<u8>>::empty(),
    }) + (match v.slice_ns {
        Some(sl) => seq![num_line(k_slice(), sl as nat)],
        None => Seq::<Seq<u8>>::empty(),
    })
}

/// Serialize the tunables table.
fn serialize_tunables(p: &crate::profiles::GameProfile) -> (r: Vec<u8>)
    ensures
        r@ == join_lines(tunables_lines(p@)),
{
    let mut out: Vec<u8> = Vec::new();
    let kburst: Vec<u8> = vec![
        98u8, 117u8, 114u8, 115u8, 116u8, 95u8, 116u8, 104u8, 114u8, 101u8, 115u8, 104u8, 111u8,
        108u8, 100u8, 95u8, 110u8, 115u8,
    ];  // burst_threshold_ns
    let kslice: Vec<u8> = vec![115u8, 108u8, 105u8, 99u8, 101u8, 95u8, 110u8, 115u8];  // slice_ns
    let sect: Vec<u8> = vec![91u8, 116u8, 117u8, 110u8, 97u8, 98u8, 108u8, 101u8, 115u8, 93u8];  // [tunables]
    proof {
        assert(kburst@ =~= k_burst());
        assert(kslice@ =~= k_slice());
        assert(sect@ =~= sect_tunables());
    }
    push_all(&mut out, sect.as_slice());
    out.push(10);
    let ghost l1: Seq<Seq<u8>> = seq![sect_tunables()];
    proof {
        lemma_join_one(sect_tunables());
        assert(out@ =~= join_lines(l1));
    }
    if let Some(b) = p.tunables.burst_threshold_ns {
        emit_num_line(&mut out, kburst.as_slice(), b);
    }
    let ghost l2 = l1 + (match p@.burst_threshold_ns {
        Some(b) => seq![num_line(k_burst(), b as nat)],
        None => Seq::<Seq<u8>>::empty(),
    });
    proof {
        let g = l2.subrange(1, l2.len() as int);
        if g.len() > 0 {
            lemma_join_one(g[0]);
            assert(g =~= seq![g[0]]);
        }
        lemma_join_concat(l1, g);
        assert(l2 =~= l1 + g);
        assert(out@ =~= join_lines(l2));
    }
    if let Some(sl) = p.tunables.slice_ns {
        emit_num_line(&mut out, kslice.as_slice(), sl);
    }
    let ghost l3 = l2 + (match p@.slice_ns {
        Some(sl) => seq![num_line(k_slice(), sl as nat)],
        None => Seq::<Seq<u8>>::empty(),
    });
    proof {
        let g = l3.subrange(l2.len() as int, l3.len() as int);
        if g.len() > 0 {
            lemma_join_one(g[0]);
            assert(g =~= seq![g[0]]);
        }
        lemma_join_concat(l2, g);
        assert(l3 =~= l2 + g);
        assert(l3 =~= tunables_lines(p@));
        assert(out@ =~= join_lines(tunables_lines(p@)));
    }
    out
}

/// Serialize one profile to its file text.
pub fn serialize_profile(p: &crate::profiles::GameProfile) -> (r: Vec<u8>)
    ensures
        r@ == spec_serialize_profile(p@),
{
    let mut out = serialize_top(p);
    let rest = serialize_tunables(p);
    push_all(&mut out, rest.as_slice());
    proof {
        lemma_join_concat(top_lines(p@), tunables_lines(p@));
        assert(top_lines(p@) + tunables_lines(p@) =~= ser_lines(p@));
        assert(out@ =~= join_lines(ser_lines(p@)));
    }
    out
}

/// Joining distributes over appending lines.
proof fn lemma_join_concat(l1: Seq<Seq<u8>>, l2: Seq<Seq<u8>>)
    ensures
        join_lines(l1 + l2) == join_lines(l1) + join_lines(l2),
    decreases l1.len(),
{
    if l1.len() == 0 {
        assert(l1 + l2 =~= l2);
        assert(join_lines(l1) =~= Seq::<u8>::empty());
        assert(Seq::<u8>::empty() + join_lines(l2) =~= join_lines(l2));
    } else {
        assert((l1 + l2).drop_first() =~= l1.drop_first() + l2);
        assert((l1 + l2)[0] == l1[0]);
        lemma_join_concat(l1.drop_first(), l2);
        assert(join_lines(l1 + l2) =~= join_lines(l1) + join_lines(l2));
    }
}

/// The join of a single line is the line and its newline.
proof fn lemma_join_one(x: Seq<u8>)
    ensures
        join_lines(seq![x]) == x + seq![10u8],
{
    assert(seq![x].drop_first() =~= Seq::<Seq<u8>>::empty());
    assert(join_lines(Seq::<Seq<u8>>::empty()) == Seq::<u8>::empty());
    assert(join_lines(seq![x]) == (x + seq![10u8]) + Seq::<u8>::empty());
    assert((x + seq![10u8]) + Seq::<u8>::empty() =~= x + seq![10u8]);
}


/// No newline occurs in the string.
pub open spec fn no_nl(s: Seq<u8>) -> bool {
    forall|i: int| 0 <= i < s.len() ==> s[i] != 10
}

/// A text field that survives the round trip: no newline and no quote.
pub open spec fn clean_field(s: Seq<u8>) -> bool {
    forall|i: int| 0 <= i < s.len() ==> s[i] != 10 && s[i] != 34
}

/// A profile whose text fields are clean.
pub open spec fn wf_profile_text(v: ProfileView) -> bool {
    &&& clean_field(v.name)
    &&& (v.exe_name matches Some(e) ==> clean_field(e))
    &&& (v.comm_pattern matches Some(c) ==> clean_field(c))
}

/// Splitting after a first line without newline peels that line off.
proof fn lemma_split_prepend(a: Seq<u8>, rest: Seq<u8>)
    requires
        no_nl(a),
    ensures
        split_seq(a + seq![10u8] + rest, 10) == seq![a] + split_seq(rest, 10),
{
    let s = a + seq![10u8] + rest;
    assert forall|j: int| 0 <= j < a.len() implies s[j] != 10 by {
        assert(s[j] == a[j]);
    }
    assert(s[a.len() as int] == 10);
    crate::text::lemma_sep_pos_from(s, 10, 0, a.len() as int);
    assert(s.subrange(0, a.len() as int) =~= a);
    assert(s.subrange(a.len() as int + 1, s.len() as int) =~= rest);
    assert(split_seq(s, 10) =~= seq![a] + split_seq(rest, 10));
}

/// Splitting the join of newline-free lines gives the lines back, plus
/// the empty piece after the final newline.
proof fn lemma_split_join(lines: Seq<Seq<u8>>)
    requires
        forall|k: int| 0 <= k < lines.len() ==> no_nl(#[trigger] lines[k]),
    ensures
        split_seq(join_lines(lines), 10) == lines + seq![Seq::<u8>::empty()],
    decreases lines.len(),
{
    if lines.len() == 0 {
        assert(join_lines(lines) =~= Seq::<u8>::empty());
        crate::text::lemma_sep_pos_bounds(Seq::<u8>::empty(), 10, 0);
        assert(split_seq(Seq::<u8>::empty(), 10) =~= seq![Seq::<u8>::empty()]);
        assert(lines + seq![Seq::<u8>::empty()] =~= seq![Seq::<u8>::empty()]);
    } else {
        assert forall|k: int| 0 <= k < lines.drop_first().len() implies no_nl(
            #[trigger] lines.drop_first()[k],
        ) by {
            assert(lines.drop_first()[k] == lines[k + 1]);
        }
        lemma_split_join(lines.drop_first());
        lemma_split_prepend(lines[0], join_lines(lines.drop_first()));
        assert(join_lines(lines) == lines[0] + seq![10u8] + join_lines(lines.drop_first()));
        assert(seq![lines[0]] + (lines.drop_first() + seq![Seq::<u8>::empty()]) =~= lines + seq![
            Seq::<u8>::empty(),
        ]);
    }
}

/// Running lines in two parts runs them in sequence.
proof fn lemma_p_run_append(st: Option<PState>, l1: Seq<Seq<u8>>, l2: Seq<Seq<u8>>)
    ensures
        p_run(st, l1 + l2) == p_run(p_run(st, l1), l2),
    decreases l1.len(),
{
    if l1.len() == 0 {
        assert(l1 + l2 =~= l2);
    } else {
        match st {
            None => {
                lemma_p_run_none(l1 + l2);
                lemma_p_run_none(l1);
                lemma_p_run_none(l2);
            },
            Some(s0) => {
                assert((l1 + l2)[0] == l1[0]);
                assert((l1 + l2).drop_first() =~= l1.drop_first() + l2);
                lemma_p_run_append(p_step(s0, l1[0]), l1.drop_first(), l2);
            },
        }
    }
}

/// A quoted clean string parses back to itself.
proof fn lemma_string_value_quoted(v: Seq<u8>)
    requires
        clean_field(v),
    ensures
        string_value(seq![34u8] + v + seq![34u8]) == Some(v),
{
    let q = seq![34u8] + v + seq![34u8];
    assert(q[0] == 34 && q[q.len() - 1] == 34);
    assert(q.subrange(1, q.len() - 1) =~= v);
    if contains_seq(v, seq![34u8]) {
        let i = choose|i: int| crate::text::matches_at(v, seq![34u8], i);
        assert(v.subrange(i, i + 1) =~= seq![v[i]]);
        assert(v[i] == 34);
        assert(false);
    }
}

/// How one `key = value` line splits into its key and value.
proof fn lemma_kv(key: Seq<u8>, value: Seq<u8>)
    requires
        key.len() > 0,
        forall|j: int| 0 <= j < key.len() ==> key[j] != 61,
        !crate::text::is_space(key[0]),
        !crate::text::is_space(key[key.len() - 1]),
        value.len() > 0,
        !crate::text::is_space(value[0]),
        !crate::text::is_space(value[value.len() - 1]),
    ensures
        ({
            let line = key + seq![32u8, 61u8, 32u8] + value;
            &&& trim_seq(line) == line
            &&& sep_pos_from(line, 61, 0) == key.len() as int + 1
            &&& trim_seq(line.subrange(0, key.len() as int + 1)) == key
            &&& trim_seq(line.subrange(key.len() as int + 2, line.len() as int)) == value
        }),
{
    let line = key + seq![32u8, 61u8, 32u8] + value;
    assert(line[0] == key[0]);
    assert(line[line.len() - 1] == value[value.len() - 1]);
    crate::text::lemma_trim_seq(line, 0, line.len() as int);
    assert(line.subrange(0, line.len() as int) =~= line);
    assert forall|j: int| 0 <= j < key.len() as int + 1 implies line[j] != 61 by {
        if j < key.len() {
            assert(line[j] == key[j]);
        } else {
            assert(line[j] == 32);
        }
    }
    assert(line[key.len() as int + 1] == 61);
    crate::text::lemma_sep_pos_from(line, 61, 0, key.len() as int + 1);
    let kp = line.subrange(0, key.len() as int + 1);
    assert(kp =~= key + seq![32u8]);
    assert(!crate::text::is_space(kp[0]));
    assert forall|j: int| key.len() <= j < kp.len() implies crate::text::is_space(
        #[trigger] kp[j],
    ) by {
        assert(kp[j] == 32);
    }
    crate::text::lemma_trim_seq(kp, 0, key.len() as int);
    assert(kp.subrange(0, key.len() as int) =~= key);
    let vp = line.subrange(key.len() as int + 2, line.len() as int);
    assert(vp =~= seq![32u8] + value);
    assert(crate::text::is_space(vp[0]));
    assert(!crate::text::is_space(vp[1]));
    assert(!crate::text::is_space(vp[vp.len() - 1]));
    crate::text::lemma_trim_seq(vp, 1, vp.len() as int);
    assert(vp.subrange(1, vp.len() as int) =~= value);
}

/// A `key = "value"` line with a clean value and a known key steps the
/// state by that key's field rule.
proof fn lemma_line_shape(key: Seq<u8>, value: Seq<u8>)
    requires
        key.len() > 0,
        forall|j: int| 0 <= j < key.len() ==> key[j] != 61,
        !crate::text::is_space(key[0]),
        !crate::text::is_space(key[key.len() - 1]),
        key[0] != 35 && key[0] != 91,
        value.len() > 0,
        !crate::text::is_space(value[0]),
        !crate::text::is_space(value[value.len() - 1]),
    ensures
        ({
            let line = key + seq![32u8, 61u8, 32u8] + value;
            let t = trim_seq(line);
            &&& t == line
            &&& t.len() > 0
            &&& t[0] != 35 && t[0] != 91
            &&& t != sect_tunables()
            &&& sep_pos_from(t, 61, 0) == key.len() as int + 1
            &&& trim_seq(t.subrange(0, key.len() as int + 1)) == key
            &&& trim_seq(t.subrange(key.len() as int + 2, t.len() as int)) == value
        }),
{
    lemma_kv(key, value);
    let line = key + seq![32u8, 61u8, 32u8] + value;
    assert(line[0] == key[0]);
    if line == sect_tunables() {
        assert(line[0] == 91);
        assert(false);
    }
}


/// Every line of the list is newline-free.
pub open spec fn all_no_nl(ls: Seq<Seq<u8>>) -> bool {
    forall|k: int| 0 <= k < ls.len() ==> no_nl(#[trigger] ls[k])
}

proof fn lemma_all_no_nl_concat(l1: Seq<Seq<u8>>, l2: Seq<Seq<u8>>)
    requires
        all_no_nl(l1),
        all_no_nl(l2),
    ensures
        all_no_nl(l1 + l2),
{
    assert forall|k: int| 0 <= k < (l1 + l2).len() implies no_nl(#[trigger] (l1 + l2)[k]) by {
        if k < l1.len() {
            assert((l1 + l2)[k] == l1[k]);
        } else {
            assert((l1 + l2)[k] == l2[k - l1.len()]);
        }
    }
}

proof fn lemma_no_nl_str_line(key: Seq<u8>, v: Seq<u8>)
    requires
        no_nl(key),
        clean_field(v),
    ensures
        no_nl(str_line(key, v)),
{
    let line = str_line(key, v);
    assert forall|j: int| 0 <= j < line.len() implies line[j] != 10 by {
        if j < key.len() {
            assert(line[j] == key[j]);
        } else if j < key.len() + 4 {
            assert(line[j] == seq![32u8, 61u8, 32u8, 34u8][j - key.len()]);
        } else if j < key.len() + 4 + v.len() {
            assert(line[j] == v[j - key.len() - 4]);
        } else {
            assert(line[j] == 34);
        }
    }
}

proof fn lemma_no_nl_num_line(key: Seq<u8>, n: nat)
    requires
        no_nl(key),
    ensures
        no_nl(num_line(key, n)),
{
    crate::textnum::lemma_dec_roundtrip(n);
    let d = crate::textnum::dec_bytes(n);
    let line = num_line(key, n);
    assert forall|j: int| 0 <= j < line.len() implies line[j] != 10 by {
        if j < key.len() {
            assert(line[j] == key[j]);
        } else if j < key.len() + 3 {
            assert(line[j] == seq![32u8, 61u8, 32u8][j - key.len()]);
        } else {
            assert(line[j] == d[j - key.len() - 3]);
            assert(crate::textnum::is_digit(d[j - key.len() - 3]));
        }
    }
}

/// The `[tunables]` header enters the tunables section.
proof fn lemma_step_sect(st: PState)
    ensures
        p_step(st, sect_tunables()) == Some(PState { section: 1, ..st }),
{
    let line = sect_tunables();
    assert(!crate::text::is_space(line[0]));
    assert(!crate::text::is_space(line[line.len() - 1]));
    crate::text::lemma_trim_seq(line, 0, line.len() as int);
    assert(line.subrange(0, line.len() as int) =~= line);
    assert(trim_seq(line)[0] != 35);
}



/// Running one line is one step.
proof fn lemma_p_run_one(st: PState, l: Seq<u8>)
    ensures
        p_run(Some(st), seq![l]) == p_step(st, l),
{
    assert(seq![l].drop_first() =~= Seq::<Seq<u8>>::empty());
    assert(seq![l][0] == l);
    match p_step(st, l) {
        Some(s2) => {
            assert(p_run(p_step(st, l), Seq::<Seq<u8>>::empty()) == Some(s2));
        },
        None => {
            lemma_p_run_none(Seq::<Seq<u8>>::empty());
        },
    }
}

/// The preference keywords are clean fields.
proof fn lemma_words_clean()
    ensures
        clean_field(w_auto()),
        clean_field(w_cache()),
        clean_field(w_frequency()),
        clean_field(w_prefer_idle()),
        clean_field(w_allow_shared()),
{
}

/// The step a serialized field line takes: setting exactly its field.
/// `which` selects the field: the name, the three optional matchers, the
/// two preferences, and the two tunables, in serialization order.
#[verifier::rlimit(100)]
#[verifier::spinoff_prover]
proof fn lemma_step_field(st: PState, v: ProfileView, which: int)
    requires
        wf_profile_text(v),
        0 <= which <= 5 ==> st.section == 0,
        6 <= which <= 7 ==> st.section == 1,
        which == 1 ==> v.exe_name is Some,
        which == 2 ==> v.steam_appid is Some,
        which == 3 ==> v.comm_pattern is Some,
        which == 6 ==> v.burst_threshold_ns is Some,
        which == 7 ==> v.slice_ns is Some,
        0 <= which <= 7,
    ensures
        which == 0 ==> p_step(st, str_line(k_name(), v.name)) == Some(
            PState { name: Some(v.name), ..st },
        ),
        which == 1 ==> p_step(st, str_line(k_exe(), v.exe_name->0)) == Some(
            PState { exe_name: v.exe_name, ..st },
        ),
        which == 2 ==> p_step(st, num_line(k_appid(), v.steam_appid->0 as nat)) == Some(
            PState { steam_appid: v.steam_appid, ..st },
        ),
        which == 3 ==> p_step(st, str_line(k_comm(), v.comm_pattern->0)) == Some(
            PState { comm_pattern: v.comm_pattern, ..st },
        ),
        which == 4 ==> p_step(st, str_line(k_vcache(), vcache_word(v.vcache_preference))) == Some(
            PState { vcache_preference: v.vcache_preference, ..st },
        ),
        which == 5 ==> p_step(st, str_line(k_smt(), smt_word(v.smt_preference))) == Some(
            PState { smt_preference: v.smt_preference, ..st },
        ),
        which == 6 ==> p_step(st, num_line(k_burst(), v.burst_threshold_ns->0 as nat)) == Some(
            PState { burst_threshold_ns: v.burst_threshold_ns, ..st },
        ),
        which == 7 ==> p_step(st, num_line(k_slice(), v.slice_ns->0 as nat)) == Some(
            PState { slice_ns: v.slice_ns, ..st },
        ),
{
    if which == 0 {
        let q = seq![34u8] + v.name + seq![34u8];
        lemma_line_shape(k_name(), q);
        lemma_string_value_quoted(v.name);
        assert(str_line(k_name(), v.name) =~= k_name() + seq![32u8, 61u8, 32u8] + q);
    } else if which == 1 {
        let q = seq![34u8] + v.exe_name->0 + seq![34u8];
        lemma_line_shape(k_exe(), q);
        lemma_string_value_quoted(v.exe_name->0);
        assert(str_line(k_exe(), v.exe_name->0) =~= k_exe() + seq![32u8, 61u8, 32u8] + q);
    } else if which == 2 {
        let d = crate::textnum::dec_bytes(v.steam_appid->0 as nat);
        crate::textnum::lemma_dec_roundtrip(v.steam_appid->0 as nat);
        assert(crate::textnum::is_digit(d[0]));
        assert(crate::textnum::is_digit(d[d.len() - 1]));
        lemma_line_shape(k_appid(), d);
        assert(num_line(k_appid(), v.steam_appid->0 as nat) =~= k_appid() + seq![
            32u8,
            61u8,
            32u8,
        ] + d);
        assert(u32_value(d) == Some(v.steam_appid->0));
    } else if which == 3 {
        let q = seq![34u8] + v.comm_pattern->0 + seq![34u8];
        lemma_line_shape(k_comm(), q);
        lemma_string_value_quoted(v.comm_pattern->0);
        assert(str_line(k_comm(), v.comm_pattern->0) =~= k_comm() + seq![32u8, 61u8, 32u8] + q);
    } else if which == 4 {
        lemma_words_clean();
        let w = vcache_word(v.vcache_preference);
        let q = seq![34u8] + w + seq![34u8];
        lemma_line_shape(k_vcache(), q);
        lemma_string_value_quoted(w);
        match v.vcache_preference {
            VCachePreference::Auto => {
                assert(w == w_auto());
            },
            VCachePreference::Cache => {
                assert(w == w_cache());
                assert(w != w_auto());
            },
            VCachePreference::Frequency => {
                assert(w == w_frequency());
                assert(w != w_auto() && w != w_cache());
            },
        }
        assert(vcache_value(q) == Some(v.vcache_preference));
        assert(str_line(k_vcache(), w) =~= k_vcache() + seq![32u8, 61u8, 32u8] + q);
    } else if which == 5 {
        lemma_words_clean();
        let w = smt_word(v.smt_preference);
        let q = seq![34u8] + w + seq![34u8];
        lemma_line_shape(k_smt(), q);
        lemma_string_value_quoted(w);
        match v.smt_preference {
            SmtPreference::Auto => {
                assert(w == w_auto());
            },
            SmtPreference::PreferIdle => {
                assert(w == w_prefer_idle());
                assert(w != w_auto());
            },
            SmtPreference::AllowShared => {
                assert(w == w_allow_shared());
                assert(w != w_auto() && w != w_prefer_idle());
            },
        }
        assert(smt_value(q) == Some(v.smt_preference));
        assert(str_line(k_smt(), w) =~= k_smt() + seq![32u8, 61u8, 32u8] + q);
    } else if which == 6 {
        let d = crate::textnum::dec_bytes(v.burst_threshold_ns->0 as nat);
        crate::textnum::lemma_dec_roundtrip(v.burst_threshold_ns->0 as nat);
        assert(crate::textnum::is_digit(d[0]));
        assert(crate::textnum::is_digit(d[d.len() - 1]));
        lemma_line_shape(k_burst(), d);
        assert(num_line(k_burst(), v.burst_threshold_ns->0 as nat) =~= k_burst() + seq![
            32u8,
            61u8,
            32u8,
        ] + d);
        assert(u64_value(d) == Some(v.burst_threshold_ns->0));
    } else {
        let d = crate::textnum::dec_bytes(v.slice_ns->0 as nat);
        crate::textnum::lemma_dec_roundtrip(v.slice_ns->0 as nat);
        assert(crate::textnum::is_digit(d[0]));
        assert(crate::textnum::is_digit(d[d.len() - 1]));
        lemma_line_shape(k_slice(), d);
        assert(num_line(k_slice(), v.slice_ns->0 as nat) =~= k_slice() + seq![32u8, 61u8, 32u8]
            + d);
        assert(u64_value(d) == Some(v.slice_ns->0));
    }
}

/// Parsing the serialized text of a clean profile gives the profile back,
/// field for field.
#[verifier::rlimit(100)]
#[verifier::spinoff_prover]
pub proof fn lemma_profile_roundtrip(v: ProfileView)
    requires
        wf_profile_text(v),
    ensures
        spec_parse_profile(spec_serialize_profile(v)) == Some(v),
{
    let lines = ser_lines(v);
    let name_line = str_line(k_name(), v.name);
    let vc_line = str_line(k_vcache(), vcache_word(v.vcache_preference));
    let smt_line = str_line(k_smt(), smt_word(v.smt_preference));
    let g_exe: Seq<Seq<u8>> = match v.exe_name {
        Some(e) => seq![str_line(k_exe(), e)],
        None => Seq::<Seq<u8>>::empty(),
    };
    let g_appid: Seq<Seq<u8>> = match v.steam_appid {
        Some(a) => seq![num_line(k_appid(), a as nat)],
        None => Seq::<Seq<u8>>::empty(),
    };
    let g_comm: Seq<Seq<u8>> = match v.comm_pattern {
        Some(c) => seq![str_line(k_comm(), c)],
        None => Seq::<Seq<u8>>::empty(),
    };
    let g_burst: Seq<Seq<u8>> = match v.burst_threshold_ns {
        Some(b) => seq![num_line(k_burst(), b as nat)],
        None => Seq::<Seq<u8>>::empty(),
    };
    let g_slice: Seq<Seq<u8>> = match v.slice_ns {
        Some(sl) => seq![num_line(k_slice(), sl as nat)],
        None => Seq::<Seq<u8>>::empty(),
    };
    // Every line is free of newlines.
    lemma_no_nl_str_line(k_name(), v.name);
    if v.exe_name is Some {
        lemma_no_nl_str_line(k_exe(), v.exe_name->0);
    }
    if v.steam_appid is Some {
        lemma_no_nl_num_line(k_appid(), v.steam_appid->0 as nat);
    }
    if v.comm_pattern is Some {
        lemma_no_nl_str_line(k_comm(), v.comm_pattern->0);
    }
    lemma_no_nl_str_line(k_vcache(), vcache_word(v.vcache_preference));
    lemma_no_nl_str_line(k_smt(), smt_word(v.smt_preference));
    if v.burst_threshold_ns is Some {
        lemma_no_nl_num_line(k_burst(), v.burst_threshold_ns->0 as nat);
    }
    if v.slice_ns is Some {
        lemma_no_nl_num_line(k_slice(), v.slice_ns->0 as nat);
    }
    assert(all_no_nl(seq![name_line]));
    assert(all_no_nl(g_exe));
    assert(all_no_nl(g_appid));
    assert(all_no_nl(g_comm));
    assert(all_no_nl(seq![vc_line]));
    assert(all_no_nl(seq![smt_line]));
    assert(all_no_nl(seq![sect_tunables()]));
    assert(all_no_nl(g_burst));
    assert(all_no_nl(g_slice));
    lemma_all_no_nl_concat(seq![name_line], g_exe);
    lemma_all_no_nl_concat(seq![name_line] + g_exe, g_appid);
    lemma_all_no_nl_concat(seq![name_line] + g_exe + g_appid, g_comm);
    lemma_all_no_nl_concat(seq![name_line] + g_exe + g_appid + g_comm, seq![vc_line]);
    lemma_all_no_nl_concat(
        seq![name_line] + g_exe + g_appid + g_comm + seq![vc_line],
        seq![smt_line],
    );
    lemma_all_no_nl_concat(
        seq![name_line] + g_exe + g_appid + g_comm + seq![vc_line] + seq![smt_line],
        seq![sect_tunables()],
    );
    lemma_all_no_nl_concat(
        seq![name_line] + g_exe + g_appid + g_comm + seq![vc_line] + seq![smt_line] + seq![
            sect_tunables(),
        ],
        g_burst,
    );
    lemma_all_no_nl_concat(
        seq![name_line] + g_exe + g_appid + g_comm + seq![vc_line] + seq![smt_line] + seq![
            sect_tunables(),
        ] + g_burst,
        g_slice,
    );
    assert(all_no_nl(lines));
    lemma_split_join(lines);
    // Walk the lines.
    let st0 = p_init();
    let st1 = PState { name: Some(v.name), ..st0 };
    lemma_step_field(st0, v, 0);
    assert(p_step(st0, name_line) == Some(st1));
    let st2 = PState { exe_name: v.exe_name, ..st1 };
    let st3 = PState { steam_appid: v.steam_appid, ..st2 };
    let st4 = PState { comm_pattern: v.comm_pattern, ..st3 };
    let st5 = PState { vcache_preference: v.vcache_preference, ..st4 };
    let st6 = PState { smt_preference: v.smt_preference, ..st5 };
    let st7 = PState { section: 1, ..st6 };
    let st8 = PState { burst_threshold_ns: v.burst_threshold_ns, ..st7 };
    let st9 = PState { slice_ns: v.slice_ns, ..st8 };
    if v.exe_name is Some {
        lemma_step_field(st1, v, 1);
        lemma_p_run_one(st1, g_exe[0]);
        assert(g_exe =~= seq![g_exe[0]]);
    }
    assert(p_run(Some(st1), g_exe) == Some(st2));
    if v.steam_appid is Some {
        lemma_step_field(st2, v, 2);
        lemma_p_run_one(st2, g_appid[0]);
        assert(g_appid =~= seq![g_appid[0]]);
    }
    assert(p_run(Some(st2), g_appid) == Some(st3));
    if v.comm_pattern is Some {
        lemma_step_field(st3, v, 3);
        lemma_p_run_one(st3, g_comm[0]);
        assert(g_comm =~= seq![g_comm[0]]);
    }
    assert(p_run(Some(st3), g_comm) == Some(st4));
    lemma_step_field(st4, v, 4);
    lemma_p_run_one(st4, vc_line);
    assert(p_run(Some(st4), seq![vc_line]) == Some(st5));
    lemma_step_field(st5, v, 5);
    lemma_p_run_one(st5, smt_line);
    assert(p_run(Some(st5), seq![smt_line]) == Some(st6));
    lemma_step_sect(st6);
    lemma_p_run_one(st6, sect_tunables());
    assert(p_run(Some(st6), seq![sect_tunables()]) == Some(st7));
    if v.burst_threshold_ns is Some {
        lemma_step_field(st7, v, 6);
        lemma_p_run_one(st7, g_burst[0]);
        assert(g_burst =~= seq![g_burst[0]]);
    }
    assert(p_run(Some(st7), g_burst) == Some(st8));
    if v.slice_ns is Some {
        lemma_step_field(st8, v, 7);
        lemma_p_run_one(st8, g_slice[0]);
        assert(g_slice =~= seq![g_slice[0]]);
    }
    assert(p_run(Some(st8), g_slice) == Some(st9));
    // Compose the run over the whole file.
    let l_a = seq![name_line];
    let l_b = l_a + g_exe;
    let l_c = l_b + g_appid;
    let l_d = l_c + g_comm;
    let l_e = l_d + seq![vc_line];
    let l_f = l_e + seq![smt_line];
    let l_g = l_f + seq![sect_tunables()];
    let l_h = l_g + g_burst;
    let l_i = l_h + g_slice;
    lemma_p_run_one(st0, name_line);
    assert(p_run(Some(st0), l_a) == Some(st1));
    lemma_p_run_append(Some(st0), l_a, g_exe);
    lemma_p_run_append(Some(st0), l_b, g_appid);
    assert(l_c =~= l_b + g_appid);
    lemma_p_run_append(Some(st0), l_c, g_comm);
    assert(l_d =~= l_c + g_comm);
    lemma_p_run_append(Some(st0), l_d, seq![vc_line]);
    assert(l_e =~= l_d + seq![vc_line]);
    lemma_p_run_append(Some(st0), l_e, seq![smt_line]);
    assert(l_f =~= l_e + seq![smt_line]);
    lemma_p_run_append(Some(st0), l_f, seq![sect_tunables()]);
    assert(l_g =~= l_f + seq![sect_tunables()]);
    lemma_p_run_append(Some(st0), l_g, g_burst);
    assert(l_h =~= l_g + g_burst);
    lemma_p_run_append(Some(st0), l_h, g_slice);
    assert(l_i =~= l_h + g_slice);
    assert(p_run(Some(st0), l_i) == Some(st9));
    // The trailing empty piece after the final newline changes nothing.
    assert(lines =~= l_i);
    lemma_p_run_append(Some(st0), lines, seq![Seq::<u8>::empty()]);
    assert(trim_seq(Seq::<u8>::empty()).len() == 0);
    assert(p_step(st9, Seq::<u8>::empty()) == Some(st9));
    lemma_p_run_one(st9, Seq::<u8>::empty());
    assert(p_run(Some(st9), seq![Seq::<u8>::empty()]) == Some(st9));
    assert(p_run(Some(st0), lines + seq![Seq::<u8>::empty()]) == Some(st9));
    assert(p_finish(Some(st9)) == Some(v));
}


/// The state's collected text fields are clean: no quote, no newline.
pub open spec fn st_clean(st: PState) -> bool {
    &&& (st.name matches Some(x) ==> clean_field(x))
    &&& (st.exe_name matches Some(x) ==> clean_field(x))
    &&& (st.comm_pattern matches Some(x) ==> clean_field(x))
}

/// A quoted value's inner string is clean when the value holds no
/// newline: the quotes exclude embedded quotes and the line embeds no
/// newline.
proof fn lemma_inner_clean(value: Seq<u8>)
    requires
        forall|i: int| 0 <= i < value.len() ==> value[i] != 10,
        string_value(value) is Some,
    ensures
        clean_field(string_value(value)->0),
{
    let inner = string_value(value)->0;
    assert(inner == value.subrange(1, value.len() - 1));
    assert forall|i: int| 0 <= i < inner.len() implies inner[i] != 10 && inner[i] != 34 by {
        assert(inner[i] == value[i + 1]);
        if inner[i] == 34 {
            crate::text::lemma_byte_contains(inner, i);
            assert(contains_seq(inner, seq![34u8]));
            assert(false);
        }
    }
}

/// One parsing step keeps the collected fields clean, for a line without
/// a newline.
proof fn lemma_step_clean(st: PState, line: Seq<u8>)
    requires
        no_nl(line),
        st_clean(st),
    ensures
        p_step(st, line) matches Some(st2) ==> st_clean(st2),
{
    let t = trim_seq(line);
    crate::text::lemma_trim_keeps_free(line, 10);
    if t.len() == 0 || t[0] == 35 {
    } else if t == sect_tunables() {
    } else if t[0] == 91 {
    } else {
        let d = sep_pos_from(t, 61, 0);
        crate::text::lemma_sep_pos_bounds(t, 61, 0);
        if 0 <= d < t.len() {
            let raw = t.subrange(d + 1, t.len() as int);
            assert forall|i: int| 0 <= i < raw.len() implies raw[i] != 10 by {
                assert(raw[i] == t[i + d + 1]);
            }
            crate::text::lemma_trim_keeps_free(raw, 10);
            let value = trim_seq(raw);
            if string_value(value) is Some {
                lemma_inner_clean(value);
            }
        }
    }
}

/// A run of newline-free lines keeps the collected fields clean.
proof fn lemma_p_run_clean(st: PState, lines: Seq<Seq<u8>>)
    requires
        st_clean(st),
        forall|k: int, j: int|
            0 <= k < lines.len() && 0 <= j < lines[k].len() ==> #[trigger] lines[k][j] != 10,
    ensures
        p_run(Some(st), lines) matches Some(st2) ==> st_clean(st2),
    decreases lines.len(),
{
    if lines.len() > 0 {
        assert forall|j: int| 0 <= j < lines[0].len() implies lines[0][j] != 10 by {
            assert(lines[0][j] != 10);
        }
        lemma_step_clean(st, lines[0]);
        match p_step(st, lines[0]) {
            Some(st1) => {
                assert forall|k: int, j: int|
                    0 <= k < lines.drop_first().len() && 0 <= j
                        < lines.drop_first()[k].len() implies #[trigger] lines.drop_first()[k][j]
                    != 10 by {
                    assert(lines.drop_first()[k] == lines[k + 1]);
                }
                lemma_p_run_clean(st1, lines.drop_first());
            },
            None => {
                lemma_p_run_none(lines.drop_first());
            },
        }
    }
}

/// Every profile the parser accepts is clean: its text fields hold no
/// quote and no newline, so it survives the serialize-then-parse round
/// trip.
pub proof fn lemma_parsed_profile_clean(s: Seq<u8>)
    ensures
        spec_parse_profile(s) matches Some(v) ==> wf_profile_text(v),
{
    let lines = split_seq(s, 10);
    crate::text::lemma_split_no_sep(s, 10);
    lemma_p_run_clean(p_init(), lines);
}

/// Parsing, serializing and parsing again reproduces the first parse:
/// the general round trip for every text the parser accepts.
pub proof fn lemma_parse_serialize_parse(s: Seq<u8>)
    ensures
        spec_parse_profile(s) matches Some(v) ==> spec_parse_profile(spec_serialize_profile(v))
            == Some(v),
{
    lemma_parsed_profile_clean(s);
    match spec_parse_profile(s) {
        Some(v) => {
            lemma_profile_roundtrip(v);
        },
        None => {
        },
    }
}

} // verus!
