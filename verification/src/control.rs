//! The file-based runtime control channel: parsing `key=value` lines into
//! tunable commands and applying them, in order, to the runtime-tunables
//! record.

use vstd::prelude::*;

use vstd::string::StringSliceAdditionalSpecFns;

use crate::text::lower_seq;
use crate::text::sep_pos_from;
use crate::text::split_seq;
use crate::text::trim_seq;
use crate::textnum::all_digits;
use crate::textnum::dec_value;
use crate::tunables::RuntimeTunables;

verus! {

/// One runtime tuning command.
#[derive(Debug, Clone, Copy, PartialEq, Eq, Structural)]
pub enum ControlCommand {
    /// Set the burst threshold in nanoseconds.
    SetBurstThreshold(u64),
    /// Set the time slice in nanoseconds.
    SetSlice(u64),
    /// Enable or disable gaming mode.
    GamingMode(bool),
    /// Enable or disable work mode.
    WorkMode(bool),
}

/// The boolean a value string denotes: true/1/yes/on or false/0/no/off,
/// case-insensitively.
pub open spec fn spec_parse_bool(s: Seq<u8>) -> Option<bool> {
    let t = lower_seq(s);
    if t == seq![116u8, 114u8, 117u8, 101u8] || t == seq![49u8] || t == seq![121u8, 101u8, 115u8]
        || t == seq![111u8, 110u8] {
        Some(true)
    } else if t == seq![102u8, 97u8, 108u8, 115u8, 101u8] || t == seq![48u8] || t == seq![
        110u8,
        111u8,
    ] || t == seq![111u8, 102u8, 102u8] {
        Some(false)
    } else {
        None
    }
}

/// Parse a boolean value.
pub fn parse_bool(s: &str) -> (r: Option<bool>)
    ensures
        r == spec_parse_bool(s.spec_bytes()),
{
    parse_bool_bytes(s.as_bytes())
}

/// The bytes "burst_threshold_ns".
pub open spec fn key_burst() -> Seq<u8> {
    seq![
        98u8, 117u8, 114u8, 115u8, 116u8, 95u8, 116u8, 104u8, 114u8, 101u8, 115u8, 104u8, 111u8,
        108u8, 100u8, 95u8, 110u8, 115u8,
    ]
}

/// The bytes "slice_ns".
pub open spec fn key_slice() -> Seq<u8> {
    seq![115u8, 108u8, 105u8, 99u8, 101u8, 95u8, 110u8, 115u8]
}

/// The bytes "gaming_mode".
pub open spec fn key_gaming() -> Seq<u8> {
    seq![103u8, 97u8, 109u8, 105u8, 110u8, 103u8, 95u8, 109u8, 111u8, 100u8, 101u8]
}

/// The bytes "work_mode".
pub open spec fn key_work() -> Seq<u8> {
    seq![119u8, 111u8, 114u8, 107u8, 95u8, 109u8, 111u8, 100u8, 101u8]
}

/// A digit string whose value fits in 64 bits.
pub open spec fn ok64(s: Seq<u8>) -> bool {
    s.len() > 0 && all_digits(s) && dec_value(s) <= u64::MAX
}

/// The command one `key=value` line denotes: the key (trimmed, lowered)
/// picks the tunable; a nanosecond key takes an unsigned value, a mode
/// key a boolean. A line without `=`, an unknown key, or a malformed
/// value yields nothing.
pub open spec fn spec_parse_command(line: Seq<u8>) -> Option<ControlCommand> {
    let d = sep_pos_from(line, 61, 0);
    if !(0 <= d < line.len()) {
        None
    } else {
        let key = lower_seq(trim_seq(line.subrange(0, d)));
        let value = trim_seq(line.subrange(d + 1, line.len() as int));
        if key == key_burst() {
            if ok64(value) {
                Some(ControlCommand::SetBurstThreshold(dec_value(value) as u64))
            } else {
                None
            }
        } else if key == key_slice() {
            if ok64(value) {
                Some(ControlCommand::SetSlice(dec_value(value) as u64))
            } else {
                None
            }
        } else if key == key_gaming() {
            match spec_parse_bool(value) {
                Some(b) => Some(ControlCommand::GamingMode(b)),
                None => None,
            }
        } else if key == key_work() {
            match spec_parse_bool(value) {
                Some(b) => Some(ControlCommand::WorkMode(b)),
                None => None,
            }
        } else {
            None
        }
    }
}

/// Parse a single command line.
pub fn parse_command(line: &str) -> (r: Option<ControlCommand>)
    ensures
        r == spec_parse_command(line.spec_bytes()),
{
    parse_command_bytes(line.as_bytes())
}

/// Parse a boolean value from bytes.
fn parse_bool_bytes(s: &[u8]) -> (r: Option<bool>)
    ensures
        r == spec_parse_bool(s@),
{
    let t = crate::text::to_lower_bytes(s);
    let w_true: Vec<u8> = vec![116u8, 114u8, 117u8, 101u8];  // true
    let w_one: Vec<u8> = vec![49u8];  // 1
    let w_yes: Vec<u8> = vec![121u8, 101u8, 115u8];  // yes
    let w_on: Vec<u8> = vec![111u8, 110u8];  // on
    let w_false: Vec<u8> = vec![102u8, 97u8, 108u8, 115u8, 101u8];  // false
    let w_zero: Vec<u8> = vec![48u8];  // 0
    let w_no: Vec<u8> = vec![110u8, 111u8];  // no
    let w_off: Vec<u8> = vec![111u8, 102u8, 102u8];  // off
    proof {
        assert(w_true@ =~= seq![116u8, 114u8, 117u8, 101u8]);
        assert(w_one@ =~= seq![49u8]);
        assert(w_yes@ =~= seq![121u8, 101u8, 115u8]);
        assert(w_on@ =~= seq![111u8, 110u8]);
        assert(w_false@ =~= seq![102u8, 97u8, 108u8, 115u8, 101u8]);
        assert(w_zero@ =~= seq![48u8]);
        assert(w_no@ =~= seq![110u8, 111u8]);
        assert(w_off@ =~= seq![111u8, 102u8, 102u8]);
    }
    let tb = t.as_slice();
    if crate::text::eq_bytes(tb, w_true.as_slice()) || crate::text::eq_bytes(tb, w_one.as_slice())
        || crate::text::eq_bytes(tb, w_yes.as_slice()) || crate::text::eq_bytes(
        tb,
        w_on.as_slice(),
    ) {
        Some(true)
    } else if crate::text::eq_bytes(tb, w_false.as_slice()) || crate::text::eq_bytes(
        tb,
        w_zero.as_slice(),
    ) || crate::text::eq_bytes(tb, w_no.as_slice()) || crate::text::eq_bytes(
        tb,
        w_off.as_slice(),
    ) {
        Some(false)
    } else {
        None
    }
}

/// A line the parser skips: blank or a comment.
pub open spec fn spec_is_skipped_line(line: Seq<u8>) -> bool {
    let t = trim_seq(line);
    t.len() == 0 || t[0] == 35
}

/// The commands of a list of lines, in order: blank and comment lines
/// and unparsable lines contribute nothing.
pub open spec fn cmds_of(lines: Seq<Seq<u8>>) -> Seq<ControlCommand>
    decreases lines.len(),
{
    if lines.len() == 0 {
        Seq::<ControlCommand>::empty()
    } else {
        let head: Seq<ControlCommand> = if spec_is_skipped_line(lines[0]) {
            Seq::<ControlCommand>::empty()
        } else {
            match spec_parse_command(trim_seq(lines[0])) {
                Some(c) => seq![c],
                None => Seq::<ControlCommand>::empty(),
            }
        };
        head + cmds_of(lines.drop_first())
    }
}

proof fn lemma_cmds_of_snoc(lines: Seq<Seq<u8>>, x: Seq<u8>)
    ensures
        cmds_of(lines.push(x)) == cmds_of(lines) + (if spec_is_skipped_line(x) {
            Seq::<ControlCommand>::empty()
        } else {
            match spec_parse_command(trim_seq(x)) {
                Some(c) => seq![c],
                None => Seq::<ControlCommand>::empty(),
            }
        }),
    decreases lines.len(),
{
    let tail: Seq<ControlCommand> = if spec_is_skipped_line(x) {
        Seq::<ControlCommand>::empty()
    } else {
        match spec_parse_command(trim_seq(x)) {
            Some(c) => seq![c],
            None => Seq::<ControlCommand>::empty(),
        }
    };
    if lines.len() == 0 {
        assert(lines.push(x).drop_first() =~= Seq::<Seq<u8>>::empty());
        assert(lines.push(x)[0] == x);
        assert(cmds_of(lines.push(x)) == tail + cmds_of(Seq::<Seq<u8>>::empty()));
        assert(cmds_of(Seq::<Seq<u8>>::empty()) =~= Seq::<ControlCommand>::empty());
        assert(tail + Seq::<ControlCommand>::empty() =~= tail);
        assert(cmds_of(lines) =~= Seq::<ControlCommand>::empty());
        assert(Seq::<ControlCommand>::empty() + tail =~= tail);
    } else {
        assert(lines.push(x).drop_first() =~= lines.drop_first().push(x));
        assert(lines.push(x)[0] == lines[0]);
        lemma_cmds_of_snoc(lines.drop_first(), x);
        assert(cmds_of(lines.push(x)) =~= cmds_of(lines) + tail);
    }
}

/// Parse the whole control file: each non-blank, non-comment line is a
/// command; lines are kept in file order so a later assignment to a key
/// wins when the commands are applied in order.
pub fn parse_commands(content: &str) -> (r: Vec<ControlCommand>)
    ensures
        r@ == cmds_of(split_seq(content.spec_bytes(), 10)),
{
    let lines = crate::text::split_at_seps(content.as_bytes(), 10);
    let m: usize = lines.len();
    let mut out: Vec<ControlCommand> = Vec::new();
    let mut k: usize = 0;
    proof {
        assert(crate::text::views_of(lines@).subrange(0, 0) =~= Seq::<Seq<u8>>::empty());
        assert(out@ =~= cmds_of(crate::text::views_of(lines@).subrange(0, 0)));
    }
    while k < m
        invariant
            0 <= k <= m,
            m == lines@.len(),
            crate::text::views_of(lines@) == split_seq(content.spec_bytes(), 10),
            out@ == cmds_of(crate::text::views_of(lines@).subrange(0, k as int)),
        decreases m - k,
    {
        let line: &Vec<u8> = &lines[k];
        let t = crate::text::trim_exact(line.as_slice());
        let skipped: bool = t.len() == 0 || t[0] == 35;
        if !skipped {
            let cmd = parse_command_bytes(t.as_slice());
            if let Some(c) = cmd {
                out.push(c);
            }
        }
        proof {
            assert(crate::text::views_of(lines@).subrange(0, k + 1) =~= crate::text::views_of(
                lines@,
            ).subrange(0, k as int).push(lines@[k as int]@));
            lemma_cmds_of_snoc(
                crate::text::views_of(lines@).subrange(0, k as int),
                lines@[k as int]@,
            );
            assert(out@ =~= cmds_of(crate::text::views_of(lines@).subrange(0, k + 1)));
        }
        k = k + 1;
    }
    proof {
        assert(crate::text::views_of(lines@).subrange(0, m as int) =~= crate::text::views_of(
            lines@,
        ));
    }
    out
}

/// Parse a single command line given as bytes.
fn parse_command_bytes(line: &[u8]) -> (r: Option<ControlCommand>)
    ensures
        r == spec_parse_command(line@),
{
    let b = line;
    let n: usize = b.len();
    let mut d: usize = 0;
    while d < n && b[d] != 61
        invariant
            0 <= d <= n,
            n == b@.len(),
            forall|j: int| 0 <= j < d ==> b@[j] != 61,
        decreases n - d,
    {
        d = d + 1;
    }
    proof {
        crate::text::lemma_sep_pos_from(b@, 61, 0, d as int);
    }
    if d >= n {
        return None;
    }
    let key_raw = crate::text::subvec(b, 0, d);
    let key_trimmed = crate::text::trim_exact(key_raw.as_slice());
    let key = crate::text::to_lower_bytes(key_trimmed.as_slice());
    let value_raw = crate::text::subvec(b, d + 1, n);
    let value = crate::text::trim_exact(value_raw.as_slice());
    let kb = key.as_slice();
    let burst: Vec<u8> = vec![
        98u8, 117u8, 114u8, 115u8, 116u8, 95u8, 116u8, 104u8, 114u8, 101u8, 115u8, 104u8, 111u8,
        108u8, 100u8, 95u8, 110u8, 115u8,
    ];  // burst_threshold_ns
    let slice: Vec<u8> = vec![115u8, 108u8, 105u8, 99u8, 101u8, 95u8, 110u8, 115u8];  // slice_ns
    let gaming: Vec<u8> = vec![
        103u8, 97u8, 109u8, 105u8, 110u8, 103u8, 95u8, 109u8, 111u8, 100u8, 101u8,
    ];  // gaming_mode
    let work: Vec<u8> = vec![119u8, 111u8, 114u8, 107u8, 95u8, 109u8, 111u8, 100u8, 101u8];  // work_mode
    proof {
        assert(burst@ =~= key_burst());
        assert(slice@ =~= key_slice());
        assert(gaming@ =~= key_gaming());
        assert(work@ =~= key_work());
    }
    if crate::text::eq_bytes(kb, burst.as_slice()) {
        match crate::textnum::parse_u64(value.as_slice()) {
            Some(v) => Some(ControlCommand::SetBurstThreshold(v)),
            None => None,
        }
    } else if crate::text::eq_bytes(kb, slice.as_slice()) {
        match crate::textnum::parse_u64(value.as_slice()) {
            Some(v) => Some(ControlCommand::SetSlice(v)),
            None => None,
        }
    } else if crate::text::eq_bytes(kb, gaming.as_slice()) {
        match parse_bool_bytes(value.as_slice()) {
            Some(bv) => Some(ControlCommand::GamingMode(bv)),
            None => None,
        }
    } else if crate::text::eq_bytes(kb, work.as_slice()) {
        match parse_bool_bytes(value.as_slice()) {
            Some(bv) => Some(ControlCommand::WorkMode(bv)),
            None => None,
        }
    } else {
        None
    }
}

/// The record after one command.
pub open spec fn spec_apply_command(t: RuntimeTunables, cmd: ControlCommand) -> RuntimeTunables {
    match cmd {
        ControlCommand::SetBurstThreshold(v) => RuntimeTunables { burst_threshold_ns: v, ..t },
        ControlCommand::SetSlice(v) => RuntimeTunables { slice_ns: v, ..t },
        ControlCommand::GamingMode(b) => RuntimeTunables { gaming_mode: b, ..t },
        ControlCommand::WorkMode(b) => RuntimeTunables { work_mode: b, ..t },
    }
}

/// The record after a run of commands, applied in order.
pub open spec fn spec_apply_commands(t: RuntimeTunables, cmds: Seq<ControlCommand>) -> RuntimeTunables
    decreases cmds.len(),
{
    if cmds.len() == 0 {
        t
    } else {
        spec_apply_commands(spec_apply_command(t, cmds[0]), cmds.drop_first())
    }
}

/// Apply one command to the runtime tunables.
pub fn apply_command(t: &mut RuntimeTunables, cmd: ControlCommand)
    ensures
        *final(t) == spec_apply_command(*old(t), cmd),
{
    match cmd {
        ControlCommand::SetBurstThreshold(v) => {
            t.burst_threshold_ns = v;
        },
        ControlCommand::SetSlice(v) => {
            t.slice_ns = v;
        },
        ControlCommand::GamingMode(b) => {
            t.gaming_mode = b;
        },
        ControlCommand::WorkMode(b) => {
            t.work_mode = b;
        },
    }
}

/// Apply the commands of one file read, in order: the last assignment to
/// a key wins.
pub fn apply_commands(t: &mut RuntimeTunables, cmds: &Vec<ControlCommand>)
    ensures
        *final(t) == spec_apply_commands(*old(t), cmds@),
{
    let n: usize = cmds.len();
    let mut i: usize = 0;
    proof {
        assert(cmds@.subrange(0, n as int) =~= cmds@);
    }
    while i < n
        invariant
            0 <= i <= n,
            n == cmds@.len(),
            spec_apply_commands(*t, cmds@.subrange(i as int, n as int)) == spec_apply_commands(
                *old(t),
                cmds@,
            ),
        decreases n - i,
    {
        proof {
            assert(cmds@.subrange(i as int, n as int)[0] == cmds@[i as int]);
            assert(cmds@.subrange(i as int, n as int).drop_first() =~= cmds@.subrange(
                i + 1,
                n as int,
            ));
        }
        apply_command(t, cmds[i]);
        i = i + 1;
    }
    proof {
        assert(cmds@.subrange(n as int, n as int) =~= Seq::<ControlCommand>::empty());
    }
}

} // verus!
