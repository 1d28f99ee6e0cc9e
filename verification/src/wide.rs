//! Text out of the UTF-16 buffers that Windows fills: registry string values
//! and fixed-size name arrays.
use vstd::prelude::*;
use crate::text::{chars_of, slice_of, string_of, trim, trim_chars};

verus! {

/// What `String::from_utf16_lossy` makes of a sequence of UTF-16 code units
/// (unpaired surrogates become U+FFFD); a function of the units alone.
pub uninterp spec fn utf16_lossy(units: Seq<u16>) -> Seq<char>;

/// Calls `String::from_utf16_lossy`; claims that the text is the one named
/// `utf16_lossy` for these units.
#[verifier::external_body]
fn from_utf16_lossy(units: &[u16]) -> (r: String)
    ensures
        r@ == utf16_lossy(units@),
{
    String::from_utf16_lossy(units)
}

/// The units before the first NUL (all of them when there is none).
pub open spec fn before_nul(units: Seq<u16>) -> Seq<u16>
    decreases units.len(),
{
    if units.len() == 0 {
        units
    } else if units[0] == 0 {
        Seq::empty()
    } else {
        seq![units[0]] + before_nul(units.drop_first())
    }
}

/// `s` without its trailing NUL characters (`trim_end_matches('\0')`).
pub open spec fn trim_end_nul(s: Seq<char>) -> Seq<char>
    decreases s.len(),
{
    if s.len() > 0 && s.last() == '\0' {
        trim_end_nul(s.drop_last())
    } else {
        s
    }
}

/// The first `n` units of `buf`.
fn prefix_units(buf: &[u16], n: usize) -> (r: Vec<u16>)
    requires
        n <= buf@.len(),
    ensures
        r@ == buf@.take(n as int),
{
    let mut out: Vec<u16> = Vec::new();
    let mut i: usize = 0;
    while i < n
        invariant
            i <= n <= buf@.len(),
            out@ == buf@.take(i as int),
        decreases n - i,
    {
        out.push(buf[i]);
        assert(buf@.take(i + 1) =~= buf@.take(i as int).push(buf@[i as int]));
        i = i + 1;
    }
    out
}

proof fn lemma_before_nul_at(units: Seq<u16>, k: int)
    requires
        0 <= k <= units.len(),
        forall|j: int| 0 <= j < k ==> units[j] != 0,
        k == units.len() || units[k] == 0,
    ensures
        before_nul(units) == units.take(k),
    decreases k,
{
    if k > 0 {
        lemma_before_nul_at(units.drop_first(), k - 1);
        assert(seq![units[0]] + units.drop_first().take(k - 1) =~= units.take(k));
    } else {
        assert(units.take(0) =~= Seq::<u16>::empty());
    }
}

/// The units before the first NUL.
fn units_before_nul(raw: &[u16]) -> (r: Vec<u16>)
    ensures
        r@ == before_nul(raw@),
{
    let n = raw.len();
    let mut end: usize = 0;
    while end < n && raw[end] != 0
        invariant
            end <= n == raw@.len(),
            forall|j: int| 0 <= j < end ==> raw@[j] != 0,
        decreases n - end,
    {
        end = end + 1;
    }
    proof {
        lemma_before_nul_at(raw@, end as int);
    }
    prefix_units(raw, end)
}

/// `trim_end_matches('\0')` on characters.
fn trim_end_nul_chars(v: &Vec<char>) -> (r: Vec<char>)
    ensures
        r@ == trim_end_nul(v@),
{
    let mut j: usize = v.len();
    assert(v@.take(j as int) =~= v@);
    while j > 0 && v[j - 1] == '\0'
        invariant
            j <= v@.len(),
            trim_end_nul(v@.take(j as int)) == trim_end_nul(v@),
        decreases j,
    {
        assert(v@.take(j as int).drop_last() =~= v@.take(j - 1));
        j = j - 1;
    }
    slice_of(v, 0, j)
}

/// A name out of a fixed-size UTF-16 array such as an adapter description:
/// the units before the first NUL, decoded, trimmed of whitespace and of
/// trailing NULs.
pub fn utf16_name(raw: &[u16]) -> (r: String)
    ensures
        r@ == trim_end_nul(trim(utf16_lossy(before_nul(raw@)))),
{
    let units = units_before_nul(raw);
    let text = from_utf16_lossy(units.as_slice());
    let trimmed = trim_chars(&chars_of(text.as_str()));
    string_of(&trim_end_nul_chars(&trimmed))
}

/// The number of characters of a string value whose size the registry
/// reported in bytes, its terminating NUL left out, within the buffer.
pub open spec fn sz_len(size_bytes: u32, buf_len: nat) -> int {
    let chars: int = if size_bytes / 2 >= 1 {
        size_bytes / 2 - 1
    } else {
        0
    };
    if chars <= buf_len {
        chars
    } else {
        buf_len as int
    }
}

/// A registry string value read into `buf` with `size_bytes` reported: the
/// units up to the terminating NUL, decoded and trimmed.
pub fn registry_sz(buf: &[u16], size_bytes: u32) -> (r: String)
    ensures
        r@ == trim(utf16_lossy(buf@.take(sz_len(size_bytes, buf@.len())))),
{
    let half = size_bytes / 2;
    let chars: usize = if half >= 1 {
        (half - 1) as usize
    } else {
        0
    };
    let n = if chars <= buf.len() {
        chars
    } else {
        buf.len()
    };
    let units = prefix_units(buf, n);
    let text = from_utf16_lossy(units.as_slice());
    string_of(&trim_chars(&chars_of(text.as_str())))
}

/// The number of units a registry read reported, in bytes, within the
/// buffer.
pub open spec fn value_len(size_bytes: u32, buf_len: nat) -> int {
    if size_bytes / 2 <= buf_len {
        (size_bytes / 2) as int
    } else {
        buf_len as int
    }
}

/// A registry string value as the game scans read it: all the units the
/// registry reported, decoded, with trailing NULs removed.
pub fn registry_value_text(buf: &[u16], size_bytes: u32) -> (r: String)
    ensures
        r@ == trim_end_nul(utf16_lossy(buf@.take(value_len(size_bytes, buf@.len())))),
{
    let half = (size_bytes / 2) as usize;
    let n = if half <= buf.len() {
        half
    } else {
        buf.len()
    };
    let units = prefix_units(buf, n);
    let text = from_utf16_lossy(units.as_slice());
    string_of(&trim_end_nul_chars(&chars_of(text.as_str())))
}

/// The name shown for a power plan: its friendly name (the units before the
/// first NUL, decoded and trimmed), or `Unknown` when that is empty.
pub open spec fn plan_display_name(units: Seq<u16>) -> Seq<char> {
    let name = trim(utf16_lossy(before_nul(units)));
    if name.len() == 0 {
        "Unknown"@
    } else {
        name
    }
}

/// Reads a power plan's friendly name out of the buffer
/// `PowerReadFriendlyName` filled.
pub fn power_plan_display_name(units: &[u16]) -> (r: String)
    ensures
        r@ == plan_display_name(units@),
{
    let before = units_before_nul(units);
    let text = from_utf16_lossy(before.as_slice());
    let name = trim_chars(&chars_of(text.as_str()));
    if name.len() == 0 {
        String::from_str("Unknown")
    } else {
        string_of(&name)
    }
}

} // verus!
