//! System information: the summary the app shows, and the arithmetic and
//! text that turn raw system readings into it.
use vstd::prelude::*;
use crate::gpu::GpuInfo;

verus! {

/// Static facts about the machine.
#[derive(Debug, Clone)]
pub struct SystemInfo {
    pub gpu: Option<GpuInfo>,
    pub cpu_name: Option<String>,
    pub cpu_cores: Option<u32>,
    pub cpu_threads: Option<u32>,
    pub ram_total_mb: Option<u64>,
    pub os_version: Option<String>,
    pub hags_enabled: Option<bool>,
    pub power_plan_name: Option<String>,
    pub power_plan_guid: Option<String>,
}

/// Used and total physical memory in whole mebibytes, from the byte counts
/// of total and available memory (each rounded down to mebibytes first).
/// Excluded: more mebibytes available than in total, which a memory status
/// never reports (the subtraction would overflow).
pub fn ram_usage_mb(total_bytes: u64, available_bytes: u64) -> (r: (u64, u64))
    requires
        available_bytes as int / 1048576 <= total_bytes as int / 1048576,
    ensures
        r.1 as int == total_bytes as int / 1048576,
        r.0 as int == total_bytes as int / 1048576 - available_bytes as int / 1048576,
{
    let total = total_bytes / (1024 * 1024);
    let available = available_bytes / (1024 * 1024);
    (total - available, total)
}

/// The number of set bits of `x`.
pub open spec fn ones(x: u64) -> nat
    decreases x,
{
    if x == 0 {
        0
    } else {
        (x % 2) as nat + ones(x / 2)
    }
}

proof fn lemma_ones_bound(x: u64, k: nat)
    requires
        x < vstd::arithmetic::power2::pow2(k),
    ensures
        ones(x) <= k,
    decreases k,
{
    if x != 0 {
        if k == 0 {
            vstd::arithmetic::power2::lemma2_to64();
        } else {
            vstd::arithmetic::power2::lemma_pow2_unfold(k);
            lemma_ones_bound(x / 2, (k - 1) as nat);
        }
    }
}

/// `u64::count_ones`.
pub fn count_ones(x: u64) -> (r: u32)
    ensures
        r as nat == ones(x),
        r <= 64,
{
    proof {
        vstd::arithmetic::power2::lemma2_to64();
        vstd::arithmetic::power2::lemma2_to64_rest();
        lemma_ones_bound(x, 64);
    }
    let mut v = x;
    let mut n: u32 = 0;
    while v != 0
        invariant
            ones(x) == n + ones(v),
            ones(x) <= 64,
        decreases v,
    {
        n = n + (v % 2) as u32;
        v = v / 2;
    }
    n
}

/// The sum of the set bits of the processor masks of the core entries.
pub open spec fn mask_bits(masks: Seq<u64>) -> nat
    decreases masks.len(),
{
    if masks.len() == 0 {
        0
    } else {
        mask_bits(masks.drop_last()) + ones(masks.last())
    }
}

/// The number of logical processors, from the processor masks of the
/// processor-core entries that `GetLogicalProcessorInformation` returns;
/// `None` when the count is 0 (the caller then falls back to the processor
/// count). Excluded: a total above `u32::MAX`, which would overflow.
pub fn logical_processor_count(core_masks: &Vec<u64>) -> (r: Option<u32>)
    requires
        mask_bits(core_masks@) <= u32::MAX,
    ensures
        match r {
            Some(n) => n as nat == mask_bits(core_masks@) && n > 0,
            None => mask_bits(core_masks@) == 0,
        },
{
    let mut total: u32 = 0;
    let n = core_masks.len();
    for i in 0..n
        invariant
            n == core_masks@.len(),
            mask_bits(core_masks@) <= u32::MAX,
            total as nat == mask_bits(core_masks@.take(i as int)),
    {
        proof {
            assert(core_masks@.take(i + 1).drop_last() =~= core_masks@.take(i as int));
            lemma_mask_bits_prefix(core_masks@, i as int + 1);
        }
        total = total + count_ones(core_masks[i]);
    }
    assert(core_masks@.take(n as int) =~= core_masks@);
    if total > 0 {
        Some(total)
    } else {
        None
    }
}

proof fn lemma_mask_bits_prefix(masks: Seq<u64>, k: int)
    requires
        0 <= k <= masks.len(),
    ensures
        mask_bits(masks.take(k)) <= mask_bits(masks),
    decreases masks.len() - k,
{
    if k < masks.len() {
        lemma_mask_bits_prefix(masks, k + 1);
        assert(masks.take(k + 1).drop_last() =~= masks.take(k));
    } else {
        assert(masks.take(k) =~= masks);
    }
}

/// The operating-system name shown: the product name ("Windows" when it
/// could not be read) followed, when the display version was read, by a
/// space and that version.
pub open spec fn os_version_of(product: Option<Seq<char>>, display_version: Option<Seq<char>>) -> Seq<char> {
    let p = match product {
        Some(p) => p,
        None => "Windows"@,
    };
    match display_version {
        Some(v) => p + seq![' '] + v,
        None => p,
    }
}

/// Builds the operating-system name from its registry values.
pub fn os_version_text(product: Option<String>, display_version: Option<String>) -> (r: String)
    ensures
        r@ == os_version_of(
            match product {
                Some(p) => Some(p@),
                None => None,
            },
            match display_version {
                Some(v) => Some(v@),
                None => None,
            },
        ),
{
    let mut out = match product {
        Some(p) => p,
        None => String::from_str("Windows"),
    };
    match display_version {
        Some(v) => {
            out.append(" ");
            out.append(v.as_str());
            proof {
                reveal_strlit(" ");
            }
        },
        None => {},
    }
    out
}

} // verus!
