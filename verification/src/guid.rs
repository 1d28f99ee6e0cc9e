//! Power-plan GUID text: parsing `8c5e7fda-e8bf-4a96-9a85-a6e23a8c635c`
//! style text and writing a GUID back as lowercase hyphenated hex.
use vstd::prelude::*;
use vstd::string::StringSliceAdditionalSpecFns;
use vstd::utf8::{encode_utf8, is_continuation_byte};

verus! {

/// A GUID in the field layout of the Windows `GUID` structure.
#[derive(Debug, Clone, Copy, PartialEq, Eq)]
pub struct Guid {
    pub data1: u32,
    pub data2: u16,
    pub data3: u16,
    pub data4: [u8; 8],
}

/// Why GUID text was rejected.
#[derive(Debug, Clone, Copy, PartialEq, Eq, Structural)]
pub enum GuidParseError {
    /// Fewer than 32 bytes remain once the hyphens are removed.
    TooShort,
    /// A field is not a hexadecimal number as `from_str_radix(_, 16)` reads it.
    BadHex,
}

/// What parsing GUID text comes to, step by step: a slice that cuts a
/// multi-byte character apart panics, a short text or a bad field is an
/// error, and otherwise the four fields are read.
pub enum GuidOutcome {
    Panics,
    TooShort,
    BadHex,
    Parsed(u32, u16, u16, Seq<u8>),
}

/// The UTF-8 bytes of text with every `-` (byte 0x2D) removed.
pub open spec fn remove_dashes(b: Seq<u8>) -> Seq<u8>
    decreases b.len(),
{
    if b.len() == 0 {
        Seq::empty()
    } else if b.last() == 0x2D {
        remove_dashes(b.drop_last())
    } else {
        remove_dashes(b.drop_last()).push(b.last())
    }
}

/// The value of a hexadecimal digit byte (either case).
pub open spec fn hex_digit_value(c: u8) -> int {
    if 0x30 <= c <= 0x39 {
        c - 0x30
    } else if 0x61 <= c <= 0x66 {
        c - 0x61 + 10
    } else if 0x41 <= c <= 0x46 {
        c - 0x41 + 10
    } else {
        -1
    }
}

/// A hexadecimal digit byte.
pub open spec fn is_hex_byte(c: u8) -> bool {
    hex_digit_value(c) >= 0
}

/// The value of a sequence of hexadecimal digit bytes, most significant first.
pub open spec fn hex_value(d: Seq<u8>) -> int
    decreases d.len(),
{
    if d.len() == 0 {
        0
    } else {
        hex_value(d.drop_last()) * 16 + hex_digit_value(d.last())
    }
}

/// The digits that `from_str_radix(_, 16)` reads: one leading `+` is skipped.
pub open spec fn radix16_digits(f: Seq<u8>) -> Seq<u8> {
    if f.len() > 0 && f[0] == 0x2B {
        f.drop_first()
    } else {
        f
    }
}

/// `from_str_radix(f, 16)` accepts `f` (fields here are at most 8 digits long,
/// so no value overflows its type).
pub open spec fn radix16_ok(f: Seq<u8>) -> bool {
    let d = radix16_digits(f);
    d.len() > 0 && forall|i: int| 0 <= i < d.len() ==> #[trigger] is_hex_byte(d[i])
}

/// The value that `from_str_radix(f, 16)` gives.
pub open spec fn radix16_value(f: Seq<u8>) -> int {
    hex_value(radix16_digits(f))
}

/// Where field `k` of the hyphen-free text starts: 0, 8, 12, 16, 18, ... 32.
pub open spec fn cut(k: int) -> int {
    if k <= 0 {
        0
    } else if k == 1 {
        8
    } else if k == 2 {
        12
    } else {
        16 + 2 * (k - 3)
    }
}

/// Field `k` (0 to 10) of the hyphen-free text.
pub open spec fn segment(b: Seq<u8>, k: int) -> Seq<u8> {
    b.subrange(cut(k), cut(k + 1))
}

/// A byte index that a `str` slice may end at.
pub open spec fn boundary_ok(b: Seq<u8>, i: int) -> bool {
    i == b.len() || (0 <= i < b.len() && !is_continuation_byte(b[i]))
}

/// The slices taken before field `k` is read stay on character boundaries
/// (the `data4` text `[16..32]` is sliced just before field 3).
pub open spec fn slices_ok(b: Seq<u8>, k: int) -> bool {
    if k == 3 {
        boundary_ok(b, 32) && boundary_ok(b, 18)
    } else {
        boundary_ok(b, cut(k + 1))
    }
}

/// The GUID fields once every field has been read.
pub open spec fn parsed_fields(b: Seq<u8>) -> GuidOutcome {
    GuidOutcome::Parsed(
        radix16_value(segment(b, 0)) as u32,
        radix16_value(segment(b, 1)) as u16,
        radix16_value(segment(b, 2)) as u16,
        Seq::new(8, |i: int| radix16_value(segment(b, i + 3)) as u8),
    )
}

/// The outcome of reading fields `k..=10` of hyphen-free text of at least
/// 32 bytes.
pub open spec fn outcome_from(b: Seq<u8>, k: int) -> GuidOutcome
    decreases 11 - k,
{
    if k >= 11 {
        parsed_fields(b)
    } else if !slices_ok(b, k) {
        GuidOutcome::Panics
    } else if !radix16_ok(segment(b, k)) {
        GuidOutcome::BadHex
    } else {
        outcome_from(b, k + 1)
    }
}

/// The outcome of parsing GUID text whose UTF-8 bytes are `bytes`.
pub open spec fn guid_outcome(bytes: Seq<u8>) -> GuidOutcome {
    let b = remove_dashes(bytes);
    if b.len() < 32 {
        GuidOutcome::TooShort
    } else {
        outcome_from(b, 0)
    }
}

fn remove_dashes_of(s: &str) -> (r: Vec<u8>)
    ensures
        r@ == remove_dashes(s.spec_bytes()),
{
    let bytes = s.as_bytes();
    let n = bytes.len();
    let mut out: Vec<u8> = Vec::new();
    for i in 0..n
        invariant
            n == bytes@.len(),
            bytes@ == s.spec_bytes(),
            out@ == remove_dashes(bytes@.take(i as int)),
    {
        assert(bytes@.take(i + 1).drop_last() =~= bytes@.take(i as int));
        if bytes[i] != 0x2D {
            out.push(bytes[i]);
        }
    }
    assert(bytes@.take(n as int) =~= bytes@);
    out
}

fn hex_digit_of(c: u8) -> (r: Option<u8>)
    ensures
        match r {
            Some(v) => is_hex_byte(c) && v as int == hex_digit_value(c) && v < 16,
            None => !is_hex_byte(c),
        },
{
    if 0x30 <= c && c <= 0x39 {
        Some(c - 0x30)
    } else if 0x61 <= c && c <= 0x66 {
        Some(c - 0x61 + 10)
    } else if 0x41 <= c && c <= 0x46 {
        Some(c - 0x41 + 10)
    } else {
        None
    }
}

/// Powers of 16.
pub open spec fn pow16(n: nat) -> int
    decreases n,
{
    if n == 0 {
        1
    } else {
        16 * pow16((n - 1) as nat)
    }
}

proof fn lemma_hex_value_bound(d: Seq<u8>)
    requires
        forall|i: int| 0 <= i < d.len() ==> #[trigger] is_hex_byte(d[i]),
    ensures
        0 <= hex_value(d) < pow16(d.len()),
    decreases d.len(),
{
    if d.len() > 0 {
        let p = d.drop_last();
        assert forall|i: int| 0 <= i < p.len() implies #[trigger] is_hex_byte(p[i]) by {
            assert(p[i] == d[i]);
        }
        lemma_hex_value_bound(p);
        assert(is_hex_byte(d[d.len() - 1]));
        let h = hex_value(p);
        let q = pow16(p.len());
        let x = hex_digit_value(d.last());
        assert(0 <= x < 16);
        assert(0 <= h * 16 + x < q * 16) by (nonlinear_arith)
            requires
                0 <= h < q,
                0 <= x < 16,
        ;
    }
}

/// `from_str_radix(b[lo..hi], 16)` for a field of at most 8 bytes.
fn radix16_of(b: &Vec<u8>, lo: usize, hi: usize) -> (r: Option<u32>)
    requires
        lo < hi <= b@.len(),
        hi - lo <= 8,
    ensures
        match r {
            Some(v) => radix16_ok(b@.subrange(lo as int, hi as int)) && v as int == radix16_value(
                b@.subrange(lo as int, hi as int),
            ) && (v as int) < pow16((hi - lo) as nat),
            None => !radix16_ok(b@.subrange(lo as int, hi as int)),
        },
{
    let ghost f = b@.subrange(lo as int, hi as int);
    let start = if b[lo] == 0x2B {
        lo + 1
    } else {
        lo
    };
    assert(radix16_digits(f) =~= b@.subrange(start as int, hi as int));
    if start == hi {
        return None;
    }
    let mut acc: u64 = 0;
    let mut i = start;
    proof {
        reveal_with_fuel(pow16, 9);
    }
    while i < hi
        invariant
            lo <= start <= i <= hi <= b@.len(),
            hi - start <= 8,
            f == b@.subrange(lo as int, hi as int),
            radix16_digits(f) == b@.subrange(start as int, hi as int),
            forall|j: int| start <= j < i ==> #[trigger] is_hex_byte(b@[j]),
            acc as int == hex_value(b@.subrange(start as int, i as int)),
            acc < pow16((i - start) as nat),
            pow16(8) == 4294967296,
        decreases hi - i,
    {
        match hex_digit_of(b[i]) {
            None => {
                assert(radix16_digits(f)[i - start] == b@[i as int]);
                return None;
            },
            Some(d) => {
                assert(b@.subrange(start as int, i + 1).drop_last() =~= b@.subrange(
                    start as int,
                    i as int,
                ));
                proof {
                    let p = pow16((i - start) as nat);
                    assert(pow16((i + 1 - start) as nat) == 16 * p);
                    assert(acc * 16 + d < 16 * p) by (nonlinear_arith)
                        requires
                            acc < p,
                            d < 16,
                    ;
                    lemma_pow16_mono((i + 1 - start) as nat, 8);
                }
                acc = acc * 16 + d as u64;
                i = i + 1;
            },
        }
    }
    proof {
        lemma_pow16_mono((hi - start) as nat, 8);
        assert forall|j: int| 0 <= j < radix16_digits(f).len() implies #[trigger] is_hex_byte(
            radix16_digits(f)[j],
        ) by {
            assert(radix16_digits(f)[j] == b@[start + j]);
        }
    }
    Some(acc as u32)
}

proof fn lemma_pow16_mono(a: nat, b: nat)
    requires
        a <= b,
    ensures
        1 <= pow16(a) <= pow16(b),
    decreases b,
{
    if a < b {
        lemma_pow16_mono(a, (b - 1) as nat);
    } else if a > 0 {
        lemma_pow16_mono((a - 1) as nat, (a - 1) as nat);
    }
}


fn cut_of(k: usize) -> (r: usize)
    requires
        k <= 11,
    ensures
        r as int == cut(k as int),
{
    if k == 0 {
        0
    } else if k == 1 {
        8
    } else if k == 2 {
        12
    } else {
        16 + 2 * (k - 3)
    }
}

fn boundary_of(b: &Vec<u8>, i: usize) -> (r: bool)
    ensures
        r == boundary_ok(b@, i as int),
{
    i == b.len() || (i < b.len() && !(0x80 <= b[i] && b[i] <= 0xbf))
}

/// How the outcome of parsing relates to an executable result: `Err(None)`
/// stands for a panic.
pub open spec fn outcome_is(o: GuidOutcome, r: Result<Guid, Option<GuidParseError>>) -> bool {
    match r {
        Ok(g) => o == GuidOutcome::Parsed(g.data1, g.data2, g.data3, g.data4@),
        Err(None) => o is Panics,
        Err(Some(GuidParseError::TooShort)) => o is TooShort,
        Err(Some(GuidParseError::BadHex)) => o is BadHex,
    }
}

fn outcome_of(b: &Vec<u8>) -> (r: Result<Guid, Option<GuidParseError>>)
    ensures
        outcome_is(if b@.len() < 32 {
            GuidOutcome::TooShort
        } else {
            outcome_from(b@, 0)
        }, r),
{
    if b.len() < 32 {
        return Err(Some(GuidParseError::TooShort));
    }
    let mut vals: Vec<u32> = Vec::new();
    let mut k: usize = 0;
    while k < 11
        invariant
            k <= 11,
            b@.len() >= 32,
            outcome_from(b@, 0) == outcome_from(b@, k as int),
            vals@.len() == k,
            forall|j: int|
                0 <= j < k ==> #[trigger] vals@[j] as int == radix16_value(segment(b@, j)),
        decreases 11 - k,
    {
        let ok = if k == 3 {
            boundary_of(b, 32) && boundary_of(b, 18)
        } else {
            boundary_of(b, cut_of(k + 1))
        };
        if !ok {
            return Err(None);
        }
        let lo = cut_of(k);
        let hi = cut_of(k + 1);
        match radix16_of(b, lo, hi) {
            None => {
                return Err(Some(GuidParseError::BadHex));
            },
            Some(v) => {
                vals.push(v);
                k = k + 1;
            },
        }
    }
    let data4 = [
        vals[3] as u8,
        vals[4] as u8,
        vals[5] as u8,
        vals[6] as u8,
        vals[7] as u8,
        vals[8] as u8,
        vals[9] as u8,
        vals[10] as u8,
    ];
    let g = Guid { data1: vals[0], data2: vals[1] as u16, data3: vals[2] as u16, data4 };
    assert(g.data4@ =~= Seq::new(8, |i: int| radix16_value(segment(b@, i + 3)) as u8)) by {
        assert forall|i: int| 0 <= i < 8 implies g.data4@[i] == radix16_value(segment(b@, i + 3))
            as u8 by {
            assert(vals@[i + 3] as int == radix16_value(segment(b@, i + 3)));
        }
    }
    Ok(g)
}

/// The GUID that GUID text with UTF-8 bytes `bytes` parses to, if it parses.
pub open spec fn parsed_guid(bytes: Seq<u8>) -> Option<Guid> {
    match guid_outcome(bytes) {
        GuidOutcome::Parsed(a, b, c, d) => Some(guid_of(a, b, c, d)),
        _ => None,
    }
}

/// Parses GUID text: hyphens are removed, then at least 32 bytes must remain
/// and the fields `[0..8]`, `[8..12]`, `[12..16]` and the eight byte pairs of
/// `[16..32]` are read as `from_str_radix(_, 16)` reads them. Text whose
/// slicing would cut a multi-byte character apart is excluded (the reading
/// would panic); `guid_text_slices_badly` tests for it.
pub fn parse_guid(s: &str) -> (r: Result<Guid, GuidParseError>)
    requires
        !(guid_outcome(s.spec_bytes()) is Panics),
    ensures
        match r {
            Ok(g) => guid_outcome(s.spec_bytes()) == GuidOutcome::Parsed(
                g.data1,
                g.data2,
                g.data3,
                g.data4@,
            ),
            Err(GuidParseError::TooShort) => guid_outcome(s.spec_bytes()) is TooShort,
            Err(GuidParseError::BadHex) => guid_outcome(s.spec_bytes()) is BadHex,
        },
        match r {
            Ok(g) => parsed_guid(s.spec_bytes()) == Some(g),
            Err(_) => parsed_guid(s.spec_bytes()) == None::<Guid>,
        },
{
    let b = remove_dashes_of(s);
    match outcome_of(&b) {
        Ok(g) => {
            proof {
                lemma_guid_of(g.data1, g.data2, g.data3, g.data4@);
                assert(guid_of(g.data1, g.data2, g.data3, g.data4@).data4 =~= g.data4);
            }
            Ok(g)
        },
        Err(Some(e)) => Err(e),
        Err(None) => {
            assert(false);
            Err(GuidParseError::BadHex)
        },
    }
}

/// Whether parsing `s` as GUID text would slice through a multi-byte
/// character (the case that `parse_guid` excludes).
pub fn guid_text_slices_badly(s: &str) -> (r: bool)
    ensures
        r == guid_outcome(s.spec_bytes()) is Panics,
{
    let b = remove_dashes_of(s);
    match outcome_of(&b) {
        Err(None) => true,
        _ => false,
    }
}


/// The lowercase hexadecimal digit for `d` (0 to 15).
pub open spec fn hex_char(d: int) -> char {
    if d < 10 {
        (0x30 + d) as char
    } else {
        (0x61 + d - 10) as char
    }
}

/// `v` written as exactly `w` lowercase hexadecimal digits (`{:0w$x}` for a
/// value below 16^w).
pub open spec fn hex_text(v: int, w: nat) -> Seq<char>
    decreases w,
{
    if w == 0 {
        Seq::empty()
    } else {
        hex_text(v / 16, (w - 1) as nat).push(hex_char(v % 16))
    }
}

/// A GUID as lowercase hyphenated hex, `xxxxxxxx-xxxx-xxxx-xxxx-xxxxxxxxxxxx`.
pub open spec fn guid_text(g: Guid) -> Seq<char> {
    hex_text(g.data1 as int, 8) + seq!['-'] + hex_text(g.data2 as int, 4) + seq!['-'] + hex_text(
        g.data3 as int,
        4,
    ) + seq!['-'] + hex_text(g.data4@[0] as int, 2) + hex_text(g.data4@[1] as int, 2) + seq!['-']
        + hex_text(g.data4@[2] as int, 2) + hex_text(g.data4@[3] as int, 2) + hex_text(
        g.data4@[4] as int,
        2,
    ) + hex_text(g.data4@[5] as int, 2) + hex_text(g.data4@[6] as int, 2) + hex_text(
        g.data4@[7] as int,
        2,
    )
}

fn hex_char_of(d: u64) -> (r: char)
    requires
        d < 16,
    ensures
        r == hex_char(d as int),
{
    if d < 10 {
        let b = (0x30 + d) as u8;
        b as char
    } else {
        let b = (0x61 + d - 10) as u8;
        b as char
    }
}

fn push_hex(out: &mut Vec<char>, v: u64, w: usize)
    ensures
        final(out)@ == old(out)@ + hex_text(v as int, w as nat),
    decreases w,
{
    if w > 0 {
        push_hex(out, v / 16, w - 1);
        out.push(hex_char_of(v % 16));
        assert(final(out)@ =~= old(out)@ + hex_text(v as int, w as nat)) by {
            assert(hex_text(v as int, w as nat) == hex_text(v as int / 16, (w - 1) as nat).push(
                hex_char(v as int % 16),
            ));
        }
    } else {
        assert(old(out)@ + Seq::<char>::empty() =~= old(out)@);
    }
}

/// Writes a GUID as lowercase hyphenated hex.
pub fn format_guid(g: &Guid) -> (r: String)
    ensures
        r@ == guid_text(*g),
{
    let mut out: Vec<char> = Vec::new();
    push_hex(&mut out, g.data1 as u64, 8);
    out.push('-');
    push_hex(&mut out, g.data2 as u64, 4);
    out.push('-');
    push_hex(&mut out, g.data3 as u64, 4);
    out.push('-');
    push_hex(&mut out, g.data4[0] as u64, 2);
    push_hex(&mut out, g.data4[1] as u64, 2);
    out.push('-');
    push_hex(&mut out, g.data4[2] as u64, 2);
    push_hex(&mut out, g.data4[3] as u64, 2);
    push_hex(&mut out, g.data4[4] as u64, 2);
    push_hex(&mut out, g.data4[5] as u64, 2);
    push_hex(&mut out, g.data4[6] as u64, 2);
    push_hex(&mut out, g.data4[7] as u64, 2);
    assert(out@ =~= guid_text(*g));
    crate::text::string_of(&out)
}


/// The ASCII bytes of `hex_text(v, w)`.
pub open spec fn hex_bytes(v: int, w: nat) -> Seq<u8> {
    hex_text(v, w).map_values(|c: char| c as u8)
}

proof fn lemma_hex_bytes(v: int, w: nat)
    requires
        0 <= v < pow16(w),
    ensures
        hex_bytes(v, w).len() == w,
        forall|i: int|
            0 <= i < w ==> is_hex_byte(#[trigger] hex_bytes(v, w)[i]) && hex_bytes(v, w)[i] != 0x2D
                && hex_bytes(v, w)[i] != 0x2B && hex_bytes(v, w)[i] < 0x80,
        forall|i: int|
            0 <= i < w ==> (#[trigger] hex_text(v, w)[i]) as u32 == hex_bytes(v, w)[i] && hex_text(
                v,
                w,
            )[i] as u32 == hex_text(v, w)[i] as u8 && (hex_text(v, w)[i] as nat) < 128 && '\0'
                <= hex_text(v, w)[i] <= '\u{7f}',
        hex_value(hex_bytes(v, w)) == v,
    decreases w,
{
    if w > 0 {
        let q = v / 16;
        let d = v % 16;
        let p = pow16((w - 1) as nat);
        assert(0 <= q < p) by (nonlinear_arith)
            requires
                0 <= v < 16 * p,
                q == v / 16,
        ;
        lemma_hex_bytes(q, (w - 1) as nat);
        let c = hex_char(d);
        assert(0 <= d < 16);
        assert(c as u32 == if d < 10 { 0x30 + d } else { 0x61 + d - 10 });
        assert(c as nat == if d < 10 { 0x30 + d } else { 0x61 + d - 10 });
        assert('\0' <= c && c <= '\u{7f}');
        assert(hex_bytes(v, w) =~= hex_bytes(q, (w - 1) as nat).push(c as u8));
        assert(hex_bytes(v, w).drop_last() =~= hex_bytes(q, (w - 1) as nat));
        assert(hex_digit_value(c as u8) == d);
        assert(q * 16 + d == v);
    }
}

proof fn lemma_hex_text_ascii(v: int, w: nat)
    requires
        0 <= v < pow16(w),
    ensures
        vstd::utf8::is_ascii_chars(hex_text(v, w)),
{
    lemma_hex_bytes(v, w);
    assert forall|i: int| 0 <= i < hex_text(v, w).len() implies '\0' <= #[trigger] hex_text(
        v,
        w,
    )[i] <= '\u{7f}' by {
        assert(hex_text(v, w).len() == w);
    }
}

proof fn lemma_ascii_concat(a: Seq<char>, b: Seq<char>)
    requires
        vstd::utf8::is_ascii_chars(a),
        vstd::utf8::is_ascii_chars(b),
    ensures
        vstd::utf8::is_ascii_chars(a + b),
{
    assert forall|i: int| 0 <= i < (a + b).len() implies '\0' <= #[trigger] (a + b)[i] <= '\u{7f}' by {
        if i < a.len() {
            assert((a + b)[i] == a[i]);
        } else {
            assert((a + b)[i] == b[i - a.len()]);
        }
    }
}

proof fn lemma_remove_dashes_concat(a: Seq<u8>, b: Seq<u8>)
    ensures
        remove_dashes(a + b) == remove_dashes(a) + remove_dashes(b),
    decreases b.len(),
{
    if b.len() == 0 {
        assert(a + b =~= a);
        assert(remove_dashes(a) + remove_dashes(b) =~= remove_dashes(a));
    } else {
        assert((a + b).drop_last() =~= a + b.drop_last());
        lemma_remove_dashes_concat(a, b.drop_last());
        if b.last() != 0x2D {
            assert(remove_dashes(a) + remove_dashes(b.drop_last()).push(b.last()) =~= (remove_dashes(
                a,
            ) + remove_dashes(b.drop_last())).push(b.last()));
        }
    }
}

proof fn lemma_remove_dashes_none(a: Seq<u8>)
    requires
        forall|i: int| 0 <= i < a.len() ==> a[i] != 0x2D,
    ensures
        remove_dashes(a) == a,
    decreases a.len(),
{
    if a.len() > 0 {
        lemma_remove_dashes_none(a.drop_last());
        assert(a.drop_last().push(a.last()) =~= a);
    }
}

proof fn lemma_hex_piece(v: int, w: nat)
    requires
        0 <= v < pow16(w),
        w > 0,
    ensures
        remove_dashes(hex_bytes(v, w)) == hex_bytes(v, w),
        radix16_digits(hex_bytes(v, w)) == hex_bytes(v, w),
        radix16_ok(hex_bytes(v, w)),
        radix16_value(hex_bytes(v, w)) == v,
{
    lemma_hex_bytes(v, w);
    assert(hex_bytes(v, w)[0] != 0x2B);
    assert forall|i: int| 0 <= i < hex_bytes(v, w).len() implies hex_bytes(v, w)[i] != 0x2D by {}
    lemma_remove_dashes_none(hex_bytes(v, w));
}

/// Writing a GUID and parsing the text back gives the same GUID: the text
/// that a rollback snapshot records for the active power plan restores that
/// very plan.
pub proof fn lemma_guid_round_trip(g: Guid)
    ensures
        guid_outcome(encode_utf8(guid_text(g))) == GuidOutcome::Parsed(
            g.data1,
            g.data2,
            g.data3,
            g.data4@,
        ),
        parsed_guid(encode_utf8(guid_text(g))) == Some(g),
{
    lemma_guid_outcome_round_trip(g);
    lemma_guid_of(g.data1, g.data2, g.data3, g.data4@);
    assert(guid_of(g.data1, g.data2, g.data3, g.data4@).data4 =~= g.data4);
}

proof fn lemma_guid_outcome_round_trip(g: Guid)
    ensures
        guid_outcome(encode_utf8(guid_text(g))) == GuidOutcome::Parsed(
            g.data1,
            g.data2,
            g.data3,
            g.data4@,
        ),
{
    reveal_with_fuel(pow16, 9);
    let t = guid_text(g);
    let dash = seq![0x2Du8];
    let p0 = hex_bytes(g.data1 as int, 8);
    let p1 = hex_bytes(g.data2 as int, 4);
    let p2 = hex_bytes(g.data3 as int, 4);
    let q = Seq::new(8, |i: int| hex_bytes(g.data4@[i] as int, 2));
    lemma_hex_piece(g.data1 as int, 8);
    lemma_hex_piece(g.data2 as int, 4);
    lemma_hex_piece(g.data3 as int, 4);
    lemma_hex_bytes(g.data1 as int, 8);
    lemma_hex_bytes(g.data2 as int, 4);
    lemma_hex_bytes(g.data3 as int, 4);
    assert forall|i: int| 0 <= i < 8 implies remove_dashes(#[trigger] q[i]) == q[i] && radix16_ok(
        q[i],
    ) && radix16_value(q[i]) == g.data4@[i] && q[i].len() == 2 && (forall|j: int|
        0 <= j < 2 ==> q[i][j] < 0x80) by {
        lemma_hex_piece(g.data4@[i] as int, 2);
        lemma_hex_bytes(g.data4@[i] as int, 2);
    }
    let bytes = p0 + dash + p1 + dash + p2 + dash + q[0] + q[1] + dash + q[2] + q[3] + q[4] + q[5]
        + q[6] + q[7];
    // the text is ASCII, so its UTF-8 encoding is its characters as bytes
    assert(t.map_values(|c: char| c as u8) =~= bytes);
    assert(vstd::utf8::is_ascii_chars(t)) by {
        let d = seq!['-'];
        let a0 = hex_text(g.data1 as int, 8);
        let a1 = hex_text(g.data2 as int, 4);
        let a2 = hex_text(g.data3 as int, 4);
        let e = |i: int| hex_text(g.data4@[i] as int, 2);
        lemma_hex_text_ascii(g.data1 as int, 8);
        lemma_hex_text_ascii(g.data2 as int, 4);
        lemma_hex_text_ascii(g.data3 as int, 4);
        assert forall|i: int| 0 <= i < 8 implies vstd::utf8::is_ascii_chars(#[trigger] e(i)) by {
            lemma_hex_text_ascii(g.data4@[i] as int, 2);
        }
        assert(vstd::utf8::is_ascii_chars(d));
        lemma_ascii_concat(a0, d);
        lemma_ascii_concat(a0 + d, a1);
        lemma_ascii_concat(a0 + d + a1, d);
        lemma_ascii_concat(a0 + d + a1 + d, a2);
        lemma_ascii_concat(a0 + d + a1 + d + a2, d);
        lemma_ascii_concat(a0 + d + a1 + d + a2 + d, e(0));
        lemma_ascii_concat(a0 + d + a1 + d + a2 + d + e(0), e(1));
        lemma_ascii_concat(a0 + d + a1 + d + a2 + d + e(0) + e(1), d);
        lemma_ascii_concat(a0 + d + a1 + d + a2 + d + e(0) + e(1) + d, e(2));
        lemma_ascii_concat(a0 + d + a1 + d + a2 + d + e(0) + e(1) + d + e(2), e(3));
        lemma_ascii_concat(a0 + d + a1 + d + a2 + d + e(0) + e(1) + d + e(2) + e(3), e(4));
        lemma_ascii_concat(a0 + d + a1 + d + a2 + d + e(0) + e(1) + d + e(2) + e(3) + e(4), e(5));
        lemma_ascii_concat(
            a0 + d + a1 + d + a2 + d + e(0) + e(1) + d + e(2) + e(3) + e(4) + e(5),
            e(6),
        );
        lemma_ascii_concat(
            a0 + d + a1 + d + a2 + d + e(0) + e(1) + d + e(2) + e(3) + e(4) + e(5) + e(6),
            e(7),
        );
    }
    vstd::utf8::is_ascii_chars_encode_utf8(t);
    assert(encode_utf8(t) =~= bytes);
    let b = p0 + p1 + p2 + q[0] + q[1] + q[2] + q[3] + q[4] + q[5] + q[6] + q[7];
    assert(remove_dashes(dash) =~= Seq::<u8>::empty()) by {
        reveal_with_fuel(remove_dashes, 2);
        assert(dash.drop_last() =~= Seq::<u8>::empty());
    }
    assert(remove_dashes(bytes) =~= b) by {
        lemma_remove_dashes_concat(p0, dash);
        lemma_remove_dashes_concat(p0 + dash, p1);
        lemma_remove_dashes_concat(p0 + dash + p1, dash);
        lemma_remove_dashes_concat(p0 + dash + p1 + dash, p2);
        lemma_remove_dashes_concat(p0 + dash + p1 + dash + p2, dash);
        lemma_remove_dashes_concat(p0 + dash + p1 + dash + p2 + dash, q[0]);
        lemma_remove_dashes_concat(p0 + dash + p1 + dash + p2 + dash + q[0], q[1]);
        lemma_remove_dashes_concat(p0 + dash + p1 + dash + p2 + dash + q[0] + q[1], dash);
        lemma_remove_dashes_concat(p0 + dash + p1 + dash + p2 + dash + q[0] + q[1] + dash, q[2]);
        lemma_remove_dashes_concat(
            p0 + dash + p1 + dash + p2 + dash + q[0] + q[1] + dash + q[2],
            q[3],
        );
        lemma_remove_dashes_concat(
            p0 + dash + p1 + dash + p2 + dash + q[0] + q[1] + dash + q[2] + q[3],
            q[4],
        );
        lemma_remove_dashes_concat(
            p0 + dash + p1 + dash + p2 + dash + q[0] + q[1] + dash + q[2] + q[3] + q[4],
            q[5],
        );
        lemma_remove_dashes_concat(
            p0 + dash + p1 + dash + p2 + dash + q[0] + q[1] + dash + q[2] + q[3] + q[4] + q[5],
            q[6],
        );
        lemma_remove_dashes_concat(
            p0 + dash + p1 + dash + p2 + dash + q[0] + q[1] + dash + q[2] + q[3] + q[4] + q[5]
                + q[6],
            q[7],
        );
    }
    assert(b.len() == 32);
    assert(segment(b, 0) =~= p0);
    assert(segment(b, 1) =~= p1);
    assert(segment(b, 2) =~= p2);
    assert forall|i: int| 0 <= i < 8 implies #[trigger] segment(b, i + 3) =~= q[i] by {}
    assert forall|i: int| 0 <= i < b.len() implies b[i] < 0x80 by {
        lemma_hex_bytes(g.data1 as int, 8);
        lemma_hex_bytes(g.data2 as int, 4);
        lemma_hex_bytes(g.data3 as int, 4);
    }
    assert forall|k: int| 0 <= k < 11 implies slices_ok(b, k) && radix16_ok(
        #[trigger] segment(b, k),
    ) by {
        if k >= 3 {
            assert(segment(b, (k - 3) + 3) == q[k - 3]);
        }
    }
    assert(outcome_from(b, 0) == outcome_from(b, 11)) by {
        reveal_with_fuel(outcome_from, 12);
    }
    assert(parsed_fields(b) == GuidOutcome::Parsed(g.data1, g.data2, g.data3, g.data4@)) by {
        assert(Seq::new(8, |i: int| radix16_value(segment(b, i + 3)) as u8) =~= g.data4@) by {
            assert forall|i: int| 0 <= i < 8 implies radix16_value(segment(b, i + 3)) as u8
                == g.data4@[i] by {
                assert(segment(b, i + 3) == q[i]);
            }
        }
    }
}


/// The GUID with the given fields (`data4` given as a sequence of 8 bytes).
pub open spec fn guid_of(data1: u32, data2: u16, data3: u16, data4: Seq<u8>) -> Guid {
    Guid {
        data1,
        data2,
        data3,
        data4: [data4[0], data4[1], data4[2], data4[3], data4[4], data4[5], data4[6], data4[7]],
    }
}

proof fn lemma_guid_of(data1: u32, data2: u16, data3: u16, data4: Seq<u8>)
    requires
        data4.len() == 8,
    ensures
        guid_of(data1, data2, data3, data4).data4@ == data4,
{
    assert(guid_of(data1, data2, data3, data4).data4@ =~= data4);
}

} // verus!
