//! Byte-string utilities shared by the classifiers: substring search,
//! prefix/suffix tests, ASCII case folding, splitting and trimming.

use vstd::prelude::*;

verus! {

/// `needle` occurs in `hay` starting at `i`.
pub open spec fn matches_at(hay: Seq<u8>, needle: Seq<u8>, i: int) -> bool {
    0 <= i && i + needle.len() <= hay.len() && hay.subrange(i, i + needle.len() as int)
        == needle
}

/// `needle` occurs somewhere in `hay`.
pub open spec fn contains_seq(hay: Seq<u8>, needle: Seq<u8>) -> bool {
    exists|i: int| matches_at(hay, needle, i)
}

pub open spec fn starts_with_seq(hay: Seq<u8>, needle: Seq<u8>) -> bool {
    matches_at(hay, needle, 0)
}

pub open spec fn ends_with_seq(hay: Seq<u8>, needle: Seq<u8>) -> bool {
    needle.len() <= hay.len() && matches_at(hay, needle, hay.len() - needle.len())
}

/// ASCII lower-casing of one byte.
pub open spec fn lower_byte(b: u8) -> u8 {
    if 65 <= b && b <= 90 {
        (b + 32) as u8
    } else {
        b
    }
}

/// ASCII lower-casing of a byte string.
pub open spec fn lower_seq(s: Seq<u8>) -> Seq<u8> {
    s.map_values(|b: u8| lower_byte(b))
}

/// The two byte strings are equal.
pub fn eq_bytes(a: &[u8], b: &[u8]) -> (r: bool)
    ensures
        r == (a@ == b@),
{
    let an: usize = a.len();
    let bn: usize = b.len();
    if an != bn {
        assert(a@ != b@);
        return false;
    }
    let mut i: usize = 0;
    while i < an
        invariant
            0 <= i <= an,
            an == a@.len() && an == b@.len(),
            forall|j: int| 0 <= j < i ==> a@[j] == b@[j],
        decreases an - i,
    {
        if a[i] != b[i] {
            return false;
        }
        i = i + 1;
    }
    proof {
        assert(a@ =~= b@);
    }
    true
}

/// `needle` occurs in `hay` starting at position `at`.
fn matches_at_exec(hay: &[u8], needle: &[u8], at: usize) -> (r: bool)
    requires
        at + needle@.len() <= hay@.len(),
    ensures
        r == matches_at(hay@, needle@, at as int),
{
    let n: usize = needle.len();
    let hl: usize = hay.len();
    let mut i: usize = 0;
    while i < n
        invariant
            0 <= i <= n,
            n == needle@.len(),
            hl == hay@.len(),
            at + n <= hl,
            forall|j: int| 0 <= j < i ==> hay@[at + j] == needle@[j],
        decreases n - i,
    {
        if hay[at + i] != needle[i] {
            assert(hay@.subrange(at as int, at + n) != needle@);
            return false;
        }
        i = i + 1;
    }
    proof {
        assert(hay@.subrange(at as int, at + n) =~= needle@);
    }
    true
}

/// Substring search.
pub fn contains_bytes(hay: &[u8], needle: &[u8]) -> (r: bool)
    ensures
        r == contains_seq(hay@, needle@),
{
    let hn: usize = hay.len();
    let nn: usize = needle.len();
    if nn > hn {
        assert(forall|i: int| !matches_at(hay@, needle@, i));
        return false;
    }
    if nn == 0 {
        assert(hay@.subrange(0, 0) =~= needle@);
        assert(matches_at(hay@, needle@, 0));
        return true;
    }
    let mut at: usize = 0;
    while at <= hn - nn
        invariant
            0 <= at <= hn - nn + 1,
            0 < nn <= hn,
            hn == hay@.len() && nn == needle@.len(),
            forall|i: int| 0 <= i < at ==> !matches_at(hay@, needle@, i),
        decreases hn - nn + 1 - at,
    {
        if matches_at_exec(hay, needle, at) {
            return true;
        }
        at = at + 1;
    }
    assert(forall|i: int| matches_at(hay@, needle@, i) ==> 0 <= i <= hn - nn);
    false
}

/// Prefix test.
pub fn starts_with_bytes(hay: &[u8], needle: &[u8]) -> (r: bool)
    ensures
        r == starts_with_seq(hay@, needle@),
{
    if needle.len() > hay.len() {
        return false;
    }
    matches_at_exec(hay, needle, 0)
}

/// Suffix test.
pub fn ends_with_bytes(hay: &[u8], needle: &[u8]) -> (r: bool)
    ensures
        r == ends_with_seq(hay@, needle@),
{
    let hn: usize = hay.len();
    let nn: usize = needle.len();
    if nn > hn {
        return false;
    }
    matches_at_exec(hay, needle, hn - nn)
}

/// ASCII lower-casing.
pub fn to_lower_bytes(s: &[u8]) -> (r: Vec<u8>)
    ensures
        r@ == lower_seq(s@),
{
    let n: usize = s.len();
    let mut out: Vec<u8> = Vec::new();
    let mut i: usize = 0;
    while i < n
        invariant
            0 <= i <= n,
            n == s@.len(),
            out@.len() == i,
            forall|j: int| 0 <= j < i ==> out@[j] == lower_byte(s@[j]),
        decreases n - i,
    {
        let b = s[i];
        if 65 <= b && b <= 90 {
            out.push(b + 32);
        } else {
            out.push(b);
        }
        i = i + 1;
    }
    proof {
        assert(out@ =~= lower_seq(s@));
    }
    out
}

/// Bytes of `s` with leading and trailing ASCII whitespace removed.
pub open spec fn is_space(b: u8) -> bool {
    b == 32 || b == 9 || b == 10 || b == 13
}

/// The UTF-8 bytes of an owned string's characters (for an ASCII string
/// these are the characters' code points).
pub open spec fn string_bytes(s: Seq<char>) -> Seq<u8> {
    vstd::utf8::encode_utf8(s)
}

/// The byte strings a list of vectors holds.
pub open spec fn views_of(v: Seq<Vec<u8>>) -> Seq<Seq<u8>> {
    v.map_values(|x: Vec<u8>| x@)
}

/// Some pattern of the table occurs in `s`.
pub open spec fn matches_any(s: Seq<u8>, pats: Seq<Seq<u8>>) -> bool {
    exists|k: int| 0 <= k < pats.len() && contains_seq(s, #[trigger] pats[k])
}

/// Whether any pattern of the table occurs in `hay`.
pub fn contains_any(hay: &[u8], pats: &Vec<Vec<u8>>) -> (r: bool)
    ensures
        r == matches_any(hay@, views_of(pats@)),
{
    let n: usize = pats.len();
    let mut k: usize = 0;
    while k < n
        invariant
            0 <= k <= n,
            n == pats@.len(),
            forall|j: int| 0 <= j < k ==> !contains_seq(hay@, #[trigger] views_of(pats@)[j]),
        decreases n - k,
    {
        if contains_bytes(hay, pats[k].as_slice()) {
            assert(contains_seq(hay@, views_of(pats@)[k as int]));
            return true;
        }
        k = k + 1;
    }
    false
}


/// Position of the first `sep` at or after `from` (the length when none).
pub open spec fn sep_pos_from(s: Seq<u8>, sep: u8, from: int) -> int
    decreases s.len() - from,
{
    if from >= s.len() {
        s.len() as int
    } else if s[from] == sep {
        from
    } else {
        sep_pos_from(s, sep, from + 1)
    }
}

/// If no `sep` stands in `[k, i)` and `i` is the length or a `sep`, the
/// first `sep` from `k` on is at `i`.
pub proof fn lemma_sep_pos_from(s: Seq<u8>, sep: u8, k: int, i: int)
    requires
        0 <= k <= i <= s.len(),
        forall|j: int| k <= j < i ==> s[j] != sep,
        i == s.len() || s[i] == sep,
    ensures
        sep_pos_from(s, sep, k) == i,
    decreases i - k,
{
    if k < i {
        lemma_sep_pos_from(s, sep, k + 1, i);
    }
}

/// The pieces of `s` between occurrences of `sep` (separators dropped,
/// empty pieces kept).
pub open spec fn split_seq(s: Seq<u8>, sep: u8) -> Seq<Seq<u8>>
    decreases s.len(),
{
    let p = sep_pos_from(s, sep, 0);
    if 0 <= p < s.len() {
        seq![s.subrange(0, p)] + split_seq(s.subrange(p + 1, s.len() as int), sep)
    } else {
        seq![s]
    }
}

/// The first `sep` position is within bounds.
pub proof fn lemma_sep_pos_bounds(s: Seq<u8>, sep: u8, from: int)
    requires
        0 <= from <= s.len(),
    ensures
        from <= sep_pos_from(s, sep, from) <= s.len(),
        sep_pos_from(s, sep, from) < s.len() ==> s[sep_pos_from(s, sep, from)] == sep,
        forall|j: int| from <= j < sep_pos_from(s, sep, from) ==> s[j] != sep,
    decreases s.len() - from,
{
    if from < s.len() && s[from] != sep {
        lemma_sep_pos_bounds(s, sep, from + 1);
    }
}

/// The bytes of `s` in `[from, to)`.
pub fn subvec(s: &[u8], from: usize, to: usize) -> (r: Vec<u8>)
    requires
        from <= to <= s@.len(),
    ensures
        r@ == s@.subrange(from as int, to as int),
{
    let mut out: Vec<u8> = Vec::new();
    let mut i: usize = from;
    while i < to
        invariant
            from <= i <= to <= s@.len(),
            out@ =~= s@.subrange(from as int, i as int),
        decreases to - i,
    {
        out.push(s[i]);
        proof {
            assert(out@ =~= s@.subrange(from as int, i + 1));
        }
        i = i + 1;
    }
    out
}

/// Split `s` at each `sep`, exactly as `split_seq` describes.
pub fn split_at_seps(s: &[u8], sep: u8) -> (r: Vec<Vec<u8>>)
    ensures
        views_of(r@) == split_seq(s@, sep),
    decreases s@.len(),
{
    let n: usize = s.len();
    let mut i: usize = 0;
    while i < n && s[i] != sep
        invariant
            0 <= i <= n,
            n == s@.len(),
            forall|j: int| 0 <= j < i ==> s@[j] != sep,
        decreases n - i,
    {
        i = i + 1;
    }
    proof {
        lemma_sep_pos_from(s@, sep, 0, i as int);
    }
    if i == n {
        let mut out: Vec<Vec<u8>> = Vec::new();
        let whole = subvec(s, 0, n);
        proof {
            assert(whole@ =~= s@);
        }
        out.push(whole);
        proof {
            assert(views_of(out@) =~~= split_seq(s@, sep));
        }
        out
    } else {
        let ghost p = i as int;
        let head = subvec(s, 0, i);
        let tail = subvec(s, i + 1, n);
        let rest = split_at_seps(tail.as_slice(), sep);
        let mut out: Vec<Vec<u8>> = Vec::new();
        out.push(head);
        let m: usize = rest.len();
        let mut k: usize = 0;
        while k < m
            invariant
                0 <= k <= m,
                m == rest@.len(),
                out@.len() == k + 1,
                out@[0]@ == s@.subrange(0, p),
                forall|j: int| 0 <= j < k ==> (#[trigger] out@[j + 1])@ == rest@[j]@,
            decreases m - k,
        {
            let e: &Vec<u8> = &rest[k];
            let c = subvec(e.as_slice(), 0, e.len());
            proof {
                assert(c@ =~= rest@[k as int]@);
            }
            out.push(c);
            k = k + 1;
        }
        proof {
            assert(views_of(out@).len() == split_seq(s@, sep).len());
            assert forall|j: int|
                0 <= j < views_of(out@).len() implies views_of(out@)[j] == split_seq(s@, sep)[j]
                by {
                if j == 0 {
                    assert(out@[0]@ == s@.subrange(0, p));
                } else {
                    let jj = j - 1;
                    assert(out@[jj + 1]@ == rest@[jj]@);
                    assert(views_of(rest@)[jj] == split_seq(tail@, sep)[jj]);
                }
            }
            assert(views_of(out@) =~= split_seq(s@, sep));
        }
        out
    }
}

/// `s` with leading and trailing ASCII whitespace removed.
pub open spec fn trim_seq(s: Seq<u8>) -> Seq<u8>
    decreases s.len(),
{
    if s.len() > 0 && is_space(s[0]) {
        trim_seq(s.drop_first())
    } else if s.len() > 0 && is_space(s.last()) {
        trim_seq(s.drop_last())
    } else {
        s
    }
}

/// A subrange bounded by whitespace on both sides, itself not starting or
/// ending in whitespace, is the trimmed string.
pub proof fn lemma_trim_seq(s: Seq<u8>, a: int, b: int)
    requires
        0 <= a <= b <= s.len(),
        forall|j: int| 0 <= j < a ==> is_space(#[trigger] s[j]),
        forall|j: int| b <= j < s.len() ==> is_space(#[trigger] s[j]),
        a < b ==> !is_space(s[a]) && !is_space(s[b - 1]),
    ensures
        trim_seq(s) == s.subrange(a, b),
    decreases s.len(),
{
    if s.len() > 0 && is_space(s[0]) {
        let t = s.drop_first();
        if a > 0 {
            assert forall|j: int| 0 <= j < (a - 1) implies is_space(#[trigger] t[j]) by {
                assert(t[j] == s[j + 1]);
            }
            assert forall|j: int| (b - 1) <= j < t.len() implies is_space(#[trigger] t[j]) by {
                assert(t[j] == s[j + 1]);
            }
            lemma_trim_seq(t, a - 1, b - 1);
            assert(t.subrange(a - 1, b - 1) =~= s.subrange(a, b));
        } else {
            assert(a == b);
            assert forall|j: int| 0 <= j < t.len() implies is_space(#[trigger] t[j]) by {
                assert(t[j] == s[j + 1]);
            }
            lemma_trim_seq(t, 0, 0);
            assert(t.subrange(0, 0) =~= s.subrange(a, b));
        }
    } else if s.len() > 0 && is_space(s.last()) {
        let t = s.drop_last();
        if b == s.len() {
            assert(a < b ==> !is_space(s[b - 1]));
            assert(a == b);
            assert(a == 0 ==> is_space(s[0]) || s.len() == 0);
            assert(a > 0 ==> is_space(s[0]));
            assert(false);
        }
        assert forall|j: int| 0 <= j < a implies is_space(#[trigger] t[j]) by {
            assert(t[j] == s[j]);
        }
        assert forall|j: int| b <= j < t.len() implies is_space(#[trigger] t[j]) by {
            assert(t[j] == s[j]);
        }
        lemma_trim_seq(t, a, b);
        assert(t.subrange(a, b) =~= s.subrange(a, b));
    } else {
        if a > 0 {
            assert(is_space(s[0]));
            assert(false);
        }
        if b < s.len() {
            assert(is_space(s[s.len() - 1]));
            assert(false);
        }
        assert(s.subrange(0, s.len() as int) =~= s);
    }
}

/// Trim ASCII whitespace from both ends, exactly as `trim_seq` describes.
pub fn trim_exact(s: &[u8]) -> (r: Vec<u8>)
    ensures
        r@ == trim_seq(s@),
{
    let n: usize = s.len();
    let mut a: usize = 0;
    while a < n && (s[a] == 32 || s[a] == 9 || s[a] == 10 || s[a] == 13)
        invariant
            0 <= a <= n,
            n == s@.len(),
            forall|j: int| 0 <= j < a ==> is_space(#[trigger] s@[j]),
        decreases n - a,
    {
        a = a + 1;
    }
    if a == n {
        proof {
            lemma_trim_seq(s@, 0, if n == 0 { 0int } else { 0int });
            assert(trim_seq(s@) =~= s@.subrange(0, 0));
        }
        let out: Vec<u8> = Vec::new();
        proof {
            assert(out@ =~= trim_seq(s@));
        }
        return out;
    }
    let mut b: usize = n;
    while b > a && (s[b - 1] == 32 || s[b - 1] == 9 || s[b - 1] == 10 || s[b - 1] == 13)
        invariant
            a <= b <= n,
            n == s@.len(),
            forall|j: int| b <= j < n ==> is_space(#[trigger] s@[j]),
        decreases b,
    {
        b = b - 1;
    }
    proof {
        assert(!is_space(s@[a as int]));
        assert(a < b);
        lemma_trim_seq(s@, a as int, b as int);
    }
    subvec(s, a, b)
}

/// Relies on `String::from_utf8_lossy` (std): ASCII bytes are valid
/// UTF-8 and decode to the characters with the same code points; other
/// inputs yield some string.
#[verifier::external_body]
pub fn bytes_to_string(v: &[u8]) -> (r: String)
    ensures
        (forall|i: int| 0 <= i < v@.len() ==> v@[i] < 128) ==> r@ == v@.map_values(
            |b: u8| b as char,
        ),
{
    String::from_utf8_lossy(v).into_owned()
}


/// As `bytes_to_string`, for ASCII input: the string's UTF-8 bytes are
/// exactly the input bytes.
pub fn bytes_to_string_exact(v: &[u8]) -> (r: String)
    requires
        forall|i: int| 0 <= i < v@.len() ==> v@[i] < 128,
    ensures
        string_bytes(r@) == v@,
        r@.len() == v@.len(),
        forall|i: int| 0 <= i < r@.len() ==> #[trigger] r@[i] == v@[i] as char,
{
    let r = bytes_to_string(v);
    proof {
        assert(r@ == v@.map_values(|b: u8| b as char));
        assert forall|i: int| 0 <= i < r@.len() implies '\0' <= #[trigger] r@[i] <= '\u{7f}' by {
            assert(r@[i] == v@[i] as char);
        }
        assert(vstd::utf8::is_ascii_chars(r@));
        vstd::utf8::is_ascii_chars_encode_utf8(r@);
        assert(string_bytes(r@) =~= v@);
    }
    r
}


/// Strings with the same UTF-8 bytes are the same string.
pub proof fn lemma_string_bytes_eq(a: Seq<char>, b: Seq<char>)
    requires
        string_bytes(a) == string_bytes(b),
    ensures
        a == b,
{
    vstd::utf8::encode_utf8_decode_utf8(a);
    vstd::utf8::encode_utf8_decode_utf8(b);
}


/// A byte of the string makes a one-byte substring.
pub proof fn lemma_byte_contains(s: Seq<u8>, i: int)
    requires
        0 <= i < s.len(),
    ensures
        contains_seq(s, seq![s[i]]),
{
    assert(s.subrange(i, i + 1) =~= seq![s[i]]);
    assert(matches_at(s, seq![s[i]], i));
}

/// No piece of a split holds the separator.
pub proof fn lemma_split_no_sep(s: Seq<u8>, sep: u8)
    ensures
        forall|k: int, j: int|
            0 <= k < split_seq(s, sep).len() && 0 <= j < split_seq(s, sep)[k].len()
                ==> #[trigger] split_seq(s, sep)[k][j] != sep,
    decreases s.len(),
{
    let p = sep_pos_from(s, sep, 0);
    lemma_sep_pos_bounds(s, sep, 0);
    if 0 <= p < s.len() {
        let head = s.subrange(0, p);
        let rest = s.subrange(p + 1, s.len() as int);
        lemma_split_no_sep(rest, sep);
        assert forall|k: int, j: int|
            0 <= k < split_seq(s, sep).len() && 0 <= j
                < split_seq(s, sep)[k].len() implies #[trigger] split_seq(s, sep)[k][j] != sep by {
            if k == 0 {
                assert(split_seq(s, sep)[0] == head);
                assert(head[j] == s[j]);
            } else {
                assert(split_seq(s, sep)[k] == split_seq(rest, sep)[k - 1]);
            }
        }
    }
}

/// Trimming keeps a string free of any byte it was free of.
pub proof fn lemma_trim_keeps_free(s: Seq<u8>, b: u8)
    requires
        forall|i: int| 0 <= i < s.len() ==> s[i] != b,
    ensures
        forall|i: int| 0 <= i < trim_seq(s).len() ==> trim_seq(s)[i] != b,
    decreases s.len(),
{
    if s.len() > 0 && is_space(s[0]) {
        assert forall|i: int| 0 <= i < s.drop_first().len() implies s.drop_first()[i] != b by {
            assert(s.drop_first()[i] == s[i + 1]);
        }
        lemma_trim_keeps_free(s.drop_first(), b);
        assert(trim_seq(s) == trim_seq(s.drop_first()));
    } else if s.len() > 0 && is_space(s.last()) {
        assert forall|i: int| 0 <= i < s.drop_last().len() implies s.drop_last()[i] != b by {
            assert(s.drop_last()[i] == s[i]);
        }
        lemma_trim_keeps_free(s.drop_last(), b);
        assert(trim_seq(s) == trim_seq(s.drop_last()));
    } else {
        assert(trim_seq(s) == s);
    }
}

} // verus!
