//! The submission: what is published of a benchmark, and the names under which it
//! is filed.

use crate::clock::{is_clock_time, now_unix};
use crate::hardware::{
    is_filename_safe, is_nearest_tier, nearest_mem_tier, operating_systems_are_three, os_label,
    os_name, tiers_are_positive, tiers_grow_with_memory, Binary64, Memory, SystemSpecs,
};
use crate::text::{
    decimal, decimal_text, decimals_read_back, digit, hexadecimal, hexadecimal_text,
    hexadecimals_read_back, number_read, option_text,
};
use vstd::prelude::*;
use vstd::string::*;

verus! {

/// The version of the tool, as submissions and requests name it.
pub const VERSION: &'static str = "1.0.0";

/// The directory of the repository that holds the submissions.
pub const SUBMISSION_DIR: &'static str = "llmfit-core/data/community";

/// The version of the submission format.
pub const SCHEMA_VERSION: u32 = 1;

// ---------------------------------------------------------------------------
// Benchmark results
// ---------------------------------------------------------------------------

/// A measured figure, in the two forms in which it leaves the machine.
pub struct Figure {
    /// The figure rounded to two decimals, as it is published.
    pub published: Binary64,
    /// The figure with one decimal, as it is shown in a table.
    pub shown: String,
}

/// The figures of a benchmark, over all its runs.
pub struct BenchSummary {
    pub num_runs: usize,
    pub avg_ttft_ms: Option<Figure>,
    pub avg_tps: Figure,
    pub min_tps: Figure,
    pub max_tps: Figure,
    pub avg_total_ms: Figure,
    pub avg_output_tokens: Figure,
}

/// The benchmark of one model.
pub struct BenchResult {
    pub model: String,
    pub provider: String,
    pub summary: BenchSummary,
}

// ---------------------------------------------------------------------------
// The payload
// ---------------------------------------------------------------------------

pub struct Submission {
    pub schema_version: u32,
    pub submitted_at_unix: u64,
    pub tool: ToolInfo,
    pub hardware: HwPayload,
    pub results: Vec<ResultPayload>,
}

pub struct ToolInfo {
    pub name: &'static str,
    pub version: &'static str,
}

pub struct HwPayload {
    pub hw_class: &'static str,
    pub hardware_name: Option<String>,
    pub mem_tier_gb: Option<u32>,
    pub vram_gb: Option<Binary64>,
    pub gpu_count: u32,
    pub unified_memory: bool,
    pub cpu: String,
    pub cpu_cores: usize,
    pub ram_gb: Binary64,
    pub os: &'static str,
}

pub struct ResultPayload {
    pub model: String,
    pub provider: String,
    pub num_runs: usize,
    pub avg_tps: Binary64,
    pub min_tps: Binary64,
    pub max_tps: Binary64,
    pub avg_ttft_ms: Option<Binary64>,
    pub avg_total_ms: Binary64,
    pub avg_output_tokens: Binary64,
}

/// The class of hardware that a machine belongs to.
pub open spec fn hardware_class(specs: SystemSpecs) -> Seq<char> {
    if specs.unified_memory {
        "UNIFIED"@
    } else if specs.has_gpu {
        "DISCRETE_GPU"@
    } else {
        "CPU_ONLY"@
    }
}

/// The memory that models have to fit in: that of the graphics cards, or the main
/// memory where the graphics processor shares it.
pub open spec fn model_memory(specs: SystemSpecs) -> Option<Memory> {
    match specs.total_gpu_vram_gb {
        Some(vram) => Some(vram),
        None => if specs.unified_memory {
            Some(specs.total_ram_gb)
        } else {
            None
        },
    }
}

/// `tier` is the tier nearest to the memory that models have to fit in; there is
/// none where there is no such memory or its size is not a finite number.
pub open spec fn is_memory_tier(specs: SystemSpecs, tier: Option<u32>) -> bool {
    match (model_memory(specs), tier) {
        (Some(memory), Some(t)) => memory.exact.is_finite() && is_nearest_tier(memory.exact, t),
        (Some(memory), None) => !memory.exact.is_finite(),
        (None, t) => t is None,
    }
}

/// The published form of an optional figure.
pub open spec fn published_figure(figure: Option<Figure>) -> Option<Binary64> {
    match figure {
        Some(f) => Some(f.published),
        None => None,
    }
}

/// `payload` is what is published of `result`.
pub open spec fn describes_result(payload: ResultPayload, result: BenchResult) -> bool {
    &&& payload.model@ == result.model@
    &&& payload.provider@ == result.provider@
    &&& payload.num_runs == result.summary.num_runs
    &&& payload.avg_tps == result.summary.avg_tps.published
    &&& payload.min_tps == result.summary.min_tps.published
    &&& payload.max_tps == result.summary.max_tps.published
    &&& payload.avg_ttft_ms == published_figure(result.summary.avg_ttft_ms)
    &&& payload.avg_total_ms == result.summary.avg_total_ms.published
    &&& payload.avg_output_tokens == result.summary.avg_output_tokens.published
}

/// `hardware` is what is published of the machine.
pub open spec fn describes_hardware(
    hardware: HwPayload,
    specs: SystemSpecs,
    target_os: Seq<char>,
) -> bool {
    &&& hardware.hw_class@ == hardware_class(specs)
    &&& option_text(hardware.hardware_name) == option_text(specs.gpu_name)
    &&& is_memory_tier(specs, hardware.mem_tier_gb)
    &&& hardware.vram_gb == (match specs.total_gpu_vram_gb {
        Some(vram) => Some(vram.published),
        None => None,
    })
    &&& hardware.gpu_count == specs.gpu_count
    &&& hardware.unified_memory == specs.unified_memory
    &&& hardware.cpu@ == specs.cpu_name@
    &&& hardware.cpu_cores == specs.total_cpu_cores
    &&& hardware.ram_gb == specs.total_ram_gb.published
    &&& hardware.os@ == os_label(target_os)
}

/// `submission` is what is published of these results on this machine: one payload
/// for each result, in their order.
pub open spec fn describes(
    submission: Submission,
    results: Seq<BenchResult>,
    specs: SystemSpecs,
    target_os: Seq<char>,
) -> bool {
    &&& submission.schema_version == SCHEMA_VERSION
    &&& submission.tool.name@ == "llmfit"@
    &&& submission.tool.version@ == VERSION@
    &&& describes_hardware(submission.hardware, specs, target_os)
    &&& submission.results@.len() == results.len()
    &&& forall|i: int|
        0 <= i < results.len() ==> describes_result(#[trigger] submission.results@[i], results[i])
}

/// The published class is "UNIFIED" exactly for machines with unified memory, whatever
/// else they report; of the others it is "DISCRETE_GPU" exactly for those with a graphics
/// card, and "CPU_ONLY" for the rest.
pub proof fn classes_go_by_memory_and_card(
    submission: Submission,
    results: Seq<BenchResult>,
    specs: SystemSpecs,
    target_os: Seq<char>,
)
    requires
        describes(submission, results, specs, target_os),
    ensures
        submission.hardware.hw_class@ == "UNIFIED"@ <==> specs.unified_memory,
        submission.hardware.hw_class@ == "UNIFIED"@ <==> submission.hardware.unified_memory,
        submission.hardware.hw_class@ == "DISCRETE_GPU"@ <==> !specs.unified_memory
            && specs.has_gpu,
        submission.hardware.hw_class@ == "CPU_ONLY"@ <==> !specs.unified_memory && !specs.has_gpu,
{
    reveal_strlit("UNIFIED");
    reveal_strlit("DISCRETE_GPU");
    reveal_strlit("CPU_ONLY");
    assert("UNIFIED"@[0] != "DISCRETE_GPU"@[0]);
    assert("UNIFIED"@[0] != "CPU_ONLY"@[0]);
    assert("DISCRETE_GPU"@[0] != "CPU_ONLY"@[0]);
}

/// The published tier is that of the graphics memory where there is any, whether or not
/// memory is unified; without it, that of the main memory where memory is unified; and
/// none otherwise. The measured size decides, not the rounded one, and a size that is no
/// finite number has no tier.
pub proof fn tiers_go_by_the_memory_for_models(
    submission: Submission,
    results: Seq<BenchResult>,
    specs: SystemSpecs,
    target_os: Seq<char>,
)
    requires
        describes(submission, results, specs, target_os),
    ensures
        specs.total_gpu_vram_gb matches Some(vram) ==> {
            &&& submission.hardware.mem_tier_gb is Some <==> vram.exact.is_finite()
            &&& submission.hardware.mem_tier_gb matches Some(tier) ==> is_nearest_tier(
                vram.exact,
                tier,
            )
        },
        specs.total_gpu_vram_gb is None && specs.unified_memory ==> {
            &&& submission.hardware.mem_tier_gb is Some <==> specs.total_ram_gb.exact.is_finite()
            &&& submission.hardware.mem_tier_gb matches Some(tier) ==> is_nearest_tier(
                specs.total_ram_gb.exact,
                tier,
            )
        },
        specs.total_gpu_vram_gb is None && !specs.unified_memory
            ==> submission.hardware.mem_tier_gb is None,
{
}

/// The machine is described by what was found of it: each published figure and name is
/// the one that was found, and a figure that was not found is not published.
pub proof fn machines_are_described_as_found(
    submission: Submission,
    results: Seq<BenchResult>,
    specs: SystemSpecs,
    target_os: Seq<char>,
)
    requires
        describes(submission, results, specs, target_os),
    ensures
        submission.hardware.hardware_name is Some <==> specs.gpu_name is Some,
        specs.gpu_name matches Some(name) ==> submission.hardware.hardware_name->0@ == name@,
        submission.hardware.vram_gb is Some <==> specs.total_gpu_vram_gb is Some,
        specs.total_gpu_vram_gb matches Some(vram) ==> submission.hardware.vram_gb->0
            == vram.published,
        submission.hardware.gpu_count == specs.gpu_count,
        submission.hardware.unified_memory == specs.unified_memory,
        submission.hardware.cpu@ == specs.cpu_name@,
        submission.hardware.cpu_cores == specs.total_cpu_cores,
        submission.hardware.ram_gb == specs.total_ram_gb.published,
        target_os == "macos"@ ==> submission.hardware.os@ == "macos"@,
        target_os == "windows"@ ==> submission.hardware.os@ == "windows"@,
        target_os != "macos"@ && target_os != "windows"@ ==> submission.hardware.os@ == "linux"@,
{
    operating_systems_are_three(target_os);
}

/// There is one entry for each result, in their order, and it says of that result what
/// was measured: each figure stands under its own name.
pub proof fn results_are_published_as_measured(
    submission: Submission,
    results: Seq<BenchResult>,
    specs: SystemSpecs,
    target_os: Seq<char>,
    i: int,
)
    requires
        describes(submission, results, specs, target_os),
        0 <= i < results.len(),
    ensures
        submission.results@.len() == results.len(),
        ({
            let entry = submission.results@[i];
            let summary = results[i].summary;
            &&& entry.model@ == results[i].model@
            &&& entry.provider@ == results[i].provider@
            &&& entry.num_runs == summary.num_runs
            &&& entry.avg_tps == summary.avg_tps.published
            &&& entry.min_tps == summary.min_tps.published
            &&& entry.max_tps == summary.max_tps.published
            &&& entry.avg_total_ms == summary.avg_total_ms.published
            &&& entry.avg_output_tokens == summary.avg_output_tokens.published
            &&& entry.avg_ttft_ms is Some <==> summary.avg_ttft_ms is Some
            &&& summary.avg_ttft_ms matches Some(ttft) ==> entry.avg_ttft_ms->0 == ttft.published
        }),
{
    assert(describes_result(submission.results@[i], results[i]));
}

/// Every submission says that it is in the first format, and by which version of which
/// tool it was made.
pub proof fn submissions_say_format_and_tool(
    submission: Submission,
    results: Seq<BenchResult>,
    specs: SystemSpecs,
    target_os: Seq<char>,
)
    requires
        describes(submission, results, specs, target_os),
    ensures
        submission.schema_version == 1,
        submission.tool.name@ == "llmfit"@,
        submission.tool.version@ == VERSION@,
{
}

/// A machine is always in the same class and tier.
pub proof fn machines_have_one_class_and_tier(
    first: Submission,
    second: Submission,
    results: Seq<BenchResult>,
    other_results: Seq<BenchResult>,
    specs: SystemSpecs,
    target_os: Seq<char>,
)
    requires
        describes(first, results, specs, target_os),
        describes(second, other_results, specs, target_os),
    ensures
        first.hardware.hw_class@ == second.hardware.hw_class@,
        first.hardware.mem_tier_gb == second.hardware.mem_tier_gb,
{
    if let (Some(memory), Some(m), Some(n)) = (
        model_memory(specs),
        first.hardware.mem_tier_gb,
        second.hardware.mem_tier_gb,
    ) {
        tiers_grow_with_memory(memory.exact, memory.exact, m, n);
        tiers_grow_with_memory(memory.exact, memory.exact, n, m);
    }
}

fn result_payload(result: &BenchResult) -> (payload: ResultPayload)
    ensures
        describes_result(payload, *result),
{
    let summary = &result.summary;
    ResultPayload {
        model: result.model.clone(),
        provider: result.provider.clone(),
        num_runs: summary.num_runs,
        avg_tps: summary.avg_tps.published,
        min_tps: summary.min_tps.published,
        max_tps: summary.max_tps.published,
        avg_ttft_ms: match &summary.avg_ttft_ms {
            Some(figure) => Some(figure.published),
            None => None,
        },
        avg_total_ms: summary.avg_total_ms.published,
        avg_output_tokens: summary.avg_output_tokens.published,
    }
}

fn memory_tier(memory: Memory) -> (tier: Option<u32>)
    ensures
        match tier {
            Some(t) => memory.exact.is_finite() && is_nearest_tier(memory.exact, t),
            None => !memory.exact.is_finite(),
        },
{
    let t = nearest_mem_tier(memory.exact);
    if t > 0 {
        Some(t)
    } else {
        proof {
            if memory.exact.is_finite() {
                tiers_are_positive(memory.exact, t);
            }
        }
        None
    }
}

/// What is published of `results` on the machine `specs`, at the time `now`.
pub fn submission_at(
    results: &Vec<BenchResult>,
    specs: &SystemSpecs,
    target_os: &str,
    now: u64,
) -> (submission: Submission)
    ensures
        describes(submission, results@, *specs, target_os@),
        submission.submitted_at_unix == now,
{
    let hw_class = if specs.unified_memory {
        "UNIFIED"
    } else if specs.has_gpu {
        "DISCRETE_GPU"
    } else {
        "CPU_ONLY"
    };
    let mem_tier_gb = match specs.total_gpu_vram_gb {
        Some(vram) => memory_tier(vram),
        None => if specs.unified_memory {
            memory_tier(specs.total_ram_gb)
        } else {
            None
        },
    };
    let mut payloads: Vec<ResultPayload> = Vec::new();
    let mut i: usize = 0;
    while i < results.len()
        invariant
            i <= results@.len(),
            payloads@.len() == i,
            forall|k: int| 0 <= k < i ==> describes_result(#[trigger] payloads@[k], results@[k]),
        decreases results@.len() - i,
    {
        payloads.push(result_payload(&results[i]));
        i += 1;
    }
    Submission {
        schema_version: SCHEMA_VERSION,
        submitted_at_unix: now,
        tool: ToolInfo { name: "llmfit", version: VERSION },
        hardware: HwPayload {
            hw_class,
            hardware_name: match &specs.gpu_name {
                Some(name) => Some(name.clone()),
                None => None,
            },
            mem_tier_gb,
            vram_gb: match specs.total_gpu_vram_gb {
                Some(vram) => Some(vram.published),
                None => None,
            },
            gpu_count: specs.gpu_count,
            unified_memory: specs.unified_memory,
            cpu: specs.cpu_name.clone(),
            cpu_cores: specs.total_cpu_cores,
            ram_gb: specs.total_ram_gb.published,
            os: os_name(target_os),
        },
        results: payloads,
    }
}

/// What is published of `results` on the machine `specs`, at the time that the
/// clock shows.
pub fn build_submission(
    results: &Vec<BenchResult>,
    specs: &SystemSpecs,
    target_os: &str,
) -> (submission: Submission)
    ensures
        describes(submission, results@, *specs, target_os@),
        is_clock_time(submission.submitted_at_unix),
{
    submission_at(results, specs, target_os, now_unix())
}

// ---------------------------------------------------------------------------
// The hash
// ---------------------------------------------------------------------------

/// The multiplier of the 64-bit FNV-1a hash.
pub const FNV_PRIME: u64 = 0x100_0000_01b3;

/// The 64-bit FNV-1a hash.
pub open spec fn fnv1a(bytes: Seq<u8>) -> u64
    decreases bytes.len(),
{
    if bytes.len() == 0 {
        0xcbf2_9ce4_8422_2325
    } else {
        (fnv1a(bytes.drop_last()) ^ bytes.last() as u64).wrapping_mul(FNV_PRIME)
    }
}

/// The hash of `bytes`, with the time mixed in.
pub open spec fn stamped_hash(bytes: Seq<u8>, now: u64) -> u64 {
    (fnv1a(bytes) ^ now).wrapping_mul(FNV_PRIME)
}

/// The low half of the stamped hash of a text, in hexadecimal.
pub open spec fn hash_text(s: Seq<char>, now: u64) -> Seq<char> {
    hexadecimal(
        stamped_hash(vstd::utf8::encode_utf8(s), now) as nat % 0x1_0000_0000,
        8,
    )
}

/// Eight lower-case hexadecimal digits.
pub open spec fn is_hash_text(h: Seq<char>) -> bool {
    &&& h.len() == 8
    &&& forall|i: int|
        0 <= i < h.len() ==> ('0' <= #[trigger] h[i] && h[i] <= '9') || ('a' <= h[i] && h[i]
            <= 'f')
}

proof fn lemma_hexadecimal_digits(n: nat, width: nat)
    ensures
        hexadecimal(n, width).len() == width,
        forall|i: int|
            0 <= i < width ==> ('0' <= #[trigger] hexadecimal(n, width)[i] && hexadecimal(
                n,
                width,
            )[i] <= '9') || ('a' <= hexadecimal(n, width)[i] && hexadecimal(n, width)[i] <= 'f'),
    decreases width,
{
    if width > 0 {
        lemma_hexadecimal_digits(n / 16, (width - 1) as nat);
        reveal_strlit("0123456789abcdef");
    }
}

proof fn lemma_digit_is_injective(m: nat, n: nat)
    requires
        m < 16,
        n < 16,
        digit(m) == digit(n),
    ensures
        m == n,
{
    reveal_strlit("0123456789abcdef");
    assert(forall|d: nat| d < 16 ==> #[trigger] digit(d) as int == (if d < 10 {
        d + 48
    } else {
        d + 87
    }));
}

proof fn lemma_hexadecimal_is_injective(m: nat, n: nat, width: nat)
    requires
        hexadecimal(m, width) == hexadecimal(n, width),
        m < vstd::arithmetic::power::pow(16, width),
        n < vstd::arithmetic::power::pow(16, width),
    ensures
        m == n,
    decreases width,
{
    if width == 0 {
        vstd::arithmetic::power::lemma_pow0(16);
    } else {
        let less = (width - 1) as nat;
        let p = vstd::arithmetic::power::pow(16, less);
        assert(vstd::arithmetic::power::pow(16, width) == 16 * p) by {
            reveal(vstd::arithmetic::power::pow);
        }
        let a = hexadecimal(m, width);
        let b = hexadecimal(n, width);
        assert(a.drop_last() == hexadecimal(m / 16, less));
        assert(b.drop_last() == hexadecimal(n / 16, less));
        assert(a.last() == digit(m % 16) && b.last() == digit(n % 16));
        lemma_digit_is_injective(m % 16, n % 16);
        lemma_hexadecimal_is_injective(m / 16, n / 16, less);
    }
}

/// The hash is eight lower-case hexadecimal digits, whatever it is of.
pub proof fn hashes_are_hexadecimal(s: Seq<char>, now: u64)
    ensures
        is_hash_text(hash_text(s, now)),
{
    lemma_hexadecimal_digits(
        stamped_hash(vstd::utf8::encode_utf8(s), now) as nat % 0x1_0000_0000,
        8,
    );
}

/// Multiplication by the prime loses nothing of the low half of a number.
proof fn lemma_prime_is_invertible(x: u64, y: u64)
    requires
        x.wrapping_mul(FNV_PRIME) as nat % 0x1_0000_0000 == y.wrapping_mul(FNV_PRIME) as nat
            % 0x1_0000_0000,
    ensures
        x as nat % 0x1_0000_0000 == y as nat % 0x1_0000_0000,
{
    let half = 0x1_0000_0000int;
    let inverse = 0xaff6_957bint;
    let prime = FNV_PRIME as int;
    assert forall|z: u64|
        #[trigger] (z.wrapping_mul(FNV_PRIME) as int * inverse) % half == z as int % half by {
        let product = z as int * prime;
        let wrapped = z.wrapping_mul(FNV_PRIME) as int;
        assert(wrapped == product % 0x1_0000_0000_0000_0000);
        let turns = product / 0x1_0000_0000_0000_0000;
        assert(product == turns * 0x1_0000_0000_0000_0000 + wrapped);
        let rest = (prime * inverse - 1) / half;
        assert(prime * inverse == rest * half + 1);
        assert(wrapped * inverse == half * (z as int * rest - turns * half * inverse) + z as int)
            by (nonlinear_arith)
            requires
                product == z as int * prime,
                product == turns * 0x1_0000_0000_0000_0000 + wrapped,
                prime * inverse == rest * half + 1,
                half == 0x1_0000_0000int,
        ;
        vstd::arithmetic::div_mod::lemma_mod_multiples_vanish(
            z as int * rest - turns * half * inverse,
            z as int,
            half,
        );
    }
    let p = x.wrapping_mul(FNV_PRIME) as int;
    let q = y.wrapping_mul(FNV_PRIME) as int;
    vstd::arithmetic::div_mod::lemma_mul_mod_noop_left(p, inverse, half);
    vstd::arithmetic::div_mod::lemma_mul_mod_noop_left(q, inverse, half);
    assert((p * inverse) % half == (q * inverse) % half);
}

/// Repeated identical runs still differ: the same text has different hashes at
/// different seconds. (Seconds that are a multiple of two to the power 32 apart,
/// more than a hundred years, count as the same.)
pub proof fn repeated_runs_differ(s: Seq<char>, first: u64, second: u64)
    requires
        first as nat % 0x1_0000_0000 != second as nat % 0x1_0000_0000,
    ensures
        hash_text(s, first) != hash_text(s, second),
{
    let h = fnv1a(vstd::utf8::encode_utf8(s));
    let bytes = vstd::utf8::encode_utf8(s);
    if hash_text(s, first) == hash_text(s, second) {
        let m = stamped_hash(bytes, first) as nat % 0x1_0000_0000;
        let n = stamped_hash(bytes, second) as nat % 0x1_0000_0000;
        assert(vstd::arithmetic::power::pow(16, 8) == 0x1_0000_0000) by {
            reveal_with_fuel(vstd::arithmetic::power::pow, 9);
        }
        lemma_hexadecimal_is_injective(m, n, 8);
        lemma_prime_is_invertible(h ^ first, h ^ second);
        assert((h ^ first) % 0x1_0000_0000 == (h ^ second) % 0x1_0000_0000 ==> first % 0x1_0000_0000
            == second % 0x1_0000_0000) by (bit_vector);
    }
}

proof fn lemma_equal_hashes_agree(a: Seq<char>, b: Seq<char>, now: u64)
    requires
        hash_text(a, now) == hash_text(b, now),
    ensures
        fnv1a(vstd::utf8::encode_utf8(a)) as nat % 0x1_0000_0000 == fnv1a(
            vstd::utf8::encode_utf8(b),
        ) as nat % 0x1_0000_0000,
{
    let x = fnv1a(vstd::utf8::encode_utf8(a));
    let y = fnv1a(vstd::utf8::encode_utf8(b));
    assert(vstd::arithmetic::power::pow(16, 8) == 0x1_0000_0000) by {
        reveal_with_fuel(vstd::arithmetic::power::pow, 9);
    }
    lemma_hexadecimal_is_injective(
        stamped_hash(vstd::utf8::encode_utf8(a), now) as nat % 0x1_0000_0000,
        stamped_hash(vstd::utf8::encode_utf8(b), now) as nat % 0x1_0000_0000,
        8,
    );
    lemma_prime_is_invertible(x ^ now, y ^ now);
    assert((x ^ now) % 0x1_0000_0000 == (y ^ now) % 0x1_0000_0000 ==> x % 0x1_0000_0000 == y
        % 0x1_0000_0000) by (bit_vector);
}

/// The two sequences are equally long and differ at the place `i` alone.
pub open spec fn differ_at(a: Seq<u8>, b: Seq<u8>, i: int) -> bool {
    &&& a.len() == b.len()
    &&& 0 <= i < a.len()
    &&& a[i] != b[i]
    &&& forall|j: int| 0 <= j < a.len() && j != i ==> #[trigger] a[j] == b[j]
}

proof fn lemma_one_byte_shows(a: Seq<u8>, b: Seq<u8>, i: int)
    requires
        differ_at(a, b, i),
    ensures
        fnv1a(a) as nat % 0x1_0000_0000 != fnv1a(b) as nat % 0x1_0000_0000,
    decreases a.len(),
{
    let x = fnv1a(a.drop_last());
    let y = fnv1a(b.drop_last());
    let c = a.last();
    let d = b.last();
    if fnv1a(a) as nat % 0x1_0000_0000 == fnv1a(b) as nat % 0x1_0000_0000 {
        lemma_prime_is_invertible(x ^ c as u64, y ^ d as u64);
        if i == a.len() - 1 {
            assert(a.drop_last() == b.drop_last());
            assert((x ^ c as u64) % 0x1_0000_0000 == (x ^ d as u64) % 0x1_0000_0000 ==> c == d)
                by (bit_vector);
        } else {
            assert(a[a.len() - 1] == b[a.len() - 1]);
            assert(differ_at(a.drop_last(), b.drop_last(), i));
            lemma_one_byte_shows(a.drop_last(), b.drop_last(), i);
            assert((x ^ c as u64) % 0x1_0000_0000 == (y ^ c as u64) % 0x1_0000_0000 ==> x
                % 0x1_0000_0000 == y % 0x1_0000_0000) by (bit_vector);
        }
    }
}

/// A change of a single byte shows: two texts of the same length that differ in one
/// byte have different hashes at the same second.
pub proof fn one_byte_changes_the_hash(a: Seq<char>, b: Seq<char>, i: int, now: u64)
    requires
        differ_at(vstd::utf8::encode_utf8(a), vstd::utf8::encode_utf8(b), i),
    ensures
        hash_text(a, now) != hash_text(b, now),
{
    lemma_one_byte_shows(vstd::utf8::encode_utf8(a), vstd::utf8::encode_utf8(b), i);
    if hash_text(a, now) == hash_text(b, now) {
        lemma_equal_hashes_agree(a, b, now);
    }
}

/// The hash goes byte by byte: it begins at the offset basis, and each byte is mixed into
/// the low bits before a multiplication by the prime, modulo two to the power 64.
pub proof fn hashes_go_byte_by_byte(bytes: Seq<u8>, byte: u8)
    ensures
        fnv1a(Seq::empty()) == 14695981039346656037,
        fnv1a(bytes.push(byte)) as int == ((fnv1a(bytes) ^ (byte as u64)) as int * 1099511628211)
            % 18446744073709551616,
{
    assert(bytes.push(byte).drop_last() =~= bytes);
}

/// The eight digits read as the low half of what the hash comes to when the time is mixed
/// in, like one more byte, after all the bytes of the text.
pub proof fn hashes_end_with_the_time(s: Seq<char>, now: u64)
    ensures
        number_read(hash_text(s, now), 16) == ((fnv1a(vstd::utf8::encode_utf8(s)) ^ now) as int
            * 1099511628211) % 18446744073709551616 % 4294967296,
        hash_text(s, now).len() == 8,
{
    let low = stamped_hash(vstd::utf8::encode_utf8(s), now) as nat % 0x1_0000_0000;
    hexadecimals_read_back(low, 8);
    assert(vstd::arithmetic::power::pow(16, 8) == 0x1_0000_0000) by {
        reveal_with_fuel(vstd::arithmetic::power::pow, 9);
    }
    assert(low as int % 0x1_0000_0000 == low);
}

/// The hash of `s` at the time `now`.
pub fn short_hash_at(s: &str, now: u64) -> (h: String)
    ensures
        h@ == hash_text(s@, now),
        is_hash_text(h@),
{
    proof {
        hashes_are_hexadecimal(s@, now);
    }
    let bytes = s.as_bytes();
    let mut h: u64 = 0xcbf2_9ce4_8422_2325;
    let mut i: usize = 0;
    while i < bytes.len()
        invariant
            i <= bytes@.len(),
            h == fnv1a(bytes@.take(i as int)),
        decreases bytes@.len() - i,
    {
        assert(bytes@.take(i + 1).drop_last() == bytes@.take(i as int));
        h = (h ^ bytes[i] as u64).wrapping_mul(FNV_PRIME);
        i += 1;
    }
    assert(bytes@.take(bytes@.len() as int) == bytes@);
    h = (h ^ now).wrapping_mul(FNV_PRIME);
    hexadecimal_text((h % 0x1_0000_0000) as u32)
}

/// Short hash of the payload, for a unique branch and file name without relying on
/// a random source. The time that the clock shows is mixed in.
pub fn short_hash(s: &str) -> (h: String)
    ensures
        exists|now: u64| is_clock_time(now) && h@ == #[trigger] hash_text(s@, now),
        is_hash_text(h@),
{
    let now = now_unix();
    let h = short_hash_at(s, now);
    assert(h@ == hash_text(s@, now));
    h
}

// ---------------------------------------------------------------------------
// Where a submission is filed
// ---------------------------------------------------------------------------

/// The branch of a submission.
pub open spec fn branch_of(slug: Seq<char>, hash: Seq<char>) -> Seq<char> {
    "bench/"@ + slug + "-"@ + hash
}

/// The path of a submission: the directory of the hardware, then the time and the
/// hash.
pub open spec fn path_of(slug: Seq<char>, now: u64, hash: Seq<char>) -> Seq<char> {
    SUBMISSION_DIR@ + "/"@ + slug + "/"@ + decimal(now as nat) + "-"@ + hash + ".json"@
}

/// The branch of a submission.
pub fn branch_name(slug: &str, hash: &str) -> (branch: String)
    ensures
        branch@ == branch_of(slug@, hash@),
{
    let mut branch = "bench/".to_owned();
    branch.append(slug);
    branch.append("-");
    branch.append(hash);
    branch
}

/// The path of a submission that is filed at the time `now`.
pub fn submission_path(slug: &str, now: u64, hash: &str) -> (path: String)
    ensures
        path@ == path_of(slug@, now, hash@),
{
    let mut path = SUBMISSION_DIR.to_owned();
    path.append("/");
    path.append(slug);
    path.append("/");
    path.append(decimal_text(now).as_str());
    path.append("-");
    path.append(hash);
    path.append(".json");
    path
}

/// The layout of the community data: below its directory, one directory for each slug, and
/// in it one file for each submission, named by the time, in decimal, and the hash.
pub proof fn submissions_are_filed_by_hardware(
    slug: Seq<char>,
    now: u64,
    hash: Seq<char>,
) -> (time: Seq<char>)
    ensures
        path_of(slug, now, hash) == "llmfit-core/data/community/"@ + slug + "/"@ + time + "-"@
            + hash + ".json"@,
        number_read(time, 10) == now,
        time.len() > 0 && (time[0] == '0' ==> now == 0),
        branch_of(slug, hash) == "bench/"@ + slug + "-"@ + hash,
{
    let time = decimal(now as nat);
    decimals_read_back(now as nat);
    reveal_strlit("llmfit-core/data/community/");
    reveal_strlit("llmfit-core/data/community");
    reveal_strlit("/");
    assert(SUBMISSION_DIR@ + "/"@ =~= "llmfit-core/data/community/"@);
    time
}

/// The first place where a separator stands splits a text in one way only.
proof fn lemma_split_is_unique(
    a: Seq<char>,
    b: Seq<char>,
    c: Seq<char>,
    d: Seq<char>,
    separator: char,
)
    requires
        a + seq![separator] + b == c + seq![separator] + d,
        !a.contains(separator),
        !c.contains(separator),
    ensures
        a == c,
        b == d,
{
    let left = a + seq![separator] + b;
    let right = c + seq![separator] + d;
    assert(left[a.len() as int] == separator);
    assert(right[c.len() as int] == separator);
    if a.len() < c.len() {
        assert(right[a.len() as int] == c[a.len() as int]);
        assert(c.contains(separator));
    } else if c.len() < a.len() {
        assert(left[c.len() as int] == a[c.len() as int]);
        assert(a.contains(separator));
    }
    let n = a.len() as int;
    assert(left.take(n) == a && right.take(n) == c);
    assert(left.skip(n + 1) == b && right.skip(n + 1) == d);
}

proof fn lemma_decimal_digits(n: nat)
    ensures
        decimal(n).len() > 0,
        forall|i: int|
            0 <= i < decimal(n).len() ==> '0' <= #[trigger] decimal(n)[i] && decimal(n)[i] <= '9',
    decreases n,
{
    reveal_strlit("0123456789abcdef");
    if n >= 10 {
        lemma_decimal_digits(n / 10);
    }
}

proof fn lemma_decimal_is_injective(m: nat, n: nat)
    requires
        decimal(m) == decimal(n),
    ensures
        m == n,
    decreases m,
{
    lemma_decimal_digits(m / 10);
    lemma_decimal_digits(n / 10);
    let a = decimal(m);
    let b = decimal(n);
    assert(a.last() == digit(m % 10) && b.last() == digit(n % 10));
    lemma_digit_is_injective(m % 10, n % 10);
    if m >= 10 {
        assert(a.len() > 1);
        assert(n >= 10);
        assert(a.drop_last() == decimal(m / 10));
        assert(b.drop_last() == decimal(n / 10));
        lemma_decimal_is_injective(m / 10, n / 10);
    } else {
        assert(n < 10);
    }
}

/// Submissions never share a path unless hardware, time and hash all agree.
pub proof fn paths_do_not_collide(
    slug: Seq<char>,
    now: u64,
    hash: Seq<char>,
    other_slug: Seq<char>,
    other_now: u64,
    other_hash: Seq<char>,
)
    requires
        is_filename_safe(slug),
        is_filename_safe(other_slug),
        path_of(slug, now, hash) == path_of(other_slug, other_now, other_hash),
    ensures
        slug == other_slug,
        now == other_now,
        hash == other_hash,
{
    reveal_strlit("/");
    reveal_strlit("-");
    let head = SUBMISSION_DIR@ + "/"@;
    let tail = ".json"@;
    let name = decimal(now as nat) + seq!['-'] + (hash + tail);
    let other_name = decimal(other_now as nat) + seq!['-'] + (other_hash + tail);
    let below = slug + seq!['/'] + name;
    let other_below = other_slug + seq!['/'] + other_name;
    assert("/"@ == seq!['/']);
    assert("-"@ == seq!['-']);
    assert(path_of(slug, now, hash) == head + below);
    assert(path_of(other_slug, other_now, other_hash) == head + other_below);
    assert((head + below).skip(head.len() as int) == below);
    assert((head + other_below).skip(head.len() as int) == other_below);
    lemma_split_is_unique(slug, name, other_slug, other_name, '/');
    lemma_decimal_digits(now as nat);
    lemma_decimal_digits(other_now as nat);
    lemma_split_is_unique(
        decimal(now as nat),
        hash + tail,
        decimal(other_now as nat),
        other_hash + tail,
        '-',
    );
    lemma_decimal_is_injective(now as nat, other_now as nat);
    assert((hash + tail).len() == hash.len() + tail.len());
    assert((other_hash + tail).len() == other_hash.len() + tail.len());
    assert((hash + tail).take(hash.len() as int) == hash);
    assert((other_hash + tail).take(hash.len() as int) == other_hash);
}

/// Submissions never share a branch unless hardware and hash both agree.
pub proof fn branches_do_not_collide(
    slug: Seq<char>,
    hash: Seq<char>,
    other_slug: Seq<char>,
    other_hash: Seq<char>,
)
    requires
        is_hash_text(hash),
        is_hash_text(other_hash),
        branch_of(slug, hash) == branch_of(other_slug, other_hash),
    ensures
        slug == other_slug,
        hash == other_hash,
{
    let head = "bench/"@;
    let dash = "-"@;
    let a = branch_of(slug, hash);
    let b = branch_of(other_slug, other_hash);
    assert(a.len() == head.len() + slug.len() + dash.len() + 8);
    assert(b.len() == head.len() + other_slug.len() + dash.len() + 8);
    assert(a.skip(a.len() - 8) == hash);
    assert(b.skip(a.len() - 8) == other_hash);
    assert(a.subrange(head.len() as int, (head.len() + slug.len()) as int) == slug);
    assert(b.subrange(head.len() as int, (head.len() + slug.len()) as int) == other_slug);
}

} // verus!
