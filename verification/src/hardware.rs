//! The machine that a benchmark ran on: its operating system, its memory tier, and
//! the slug that names it in branches and paths.

use crate::text::{
    ascii_lowercase, chars_of, has_no_capitals, is_ascii_text, joined, lowercase, same_text,
};
use vstd::arithmetic::power2::{
    lemma2_to64, lemma_pow2_adds, lemma_pow2_pos, lemma_pow2_strictly_increases, pow2,
};
use vstd::prelude::*;
use vstd::string::*;

verus! {

// ---------------------------------------------------------------------------
// Measured quantities
// ---------------------------------------------------------------------------

/// A measured quantity: an IEEE 754 double, held by its 64 bits.
#[derive(Clone, Copy, PartialEq, Eq, Structural, Debug)]
pub struct Binary64 {
    pub bits: u64,
}

impl Binary64 {
    /// The biased exponent, from 0 to 2047.
    pub open spec fn exponent(self) -> nat {
        (self.bits as nat / 0x10_0000_0000_0000) % 0x800
    }

    /// The fraction, without the implicit leading bit.
    pub open spec fn fraction(self) -> nat {
        self.bits as nat % 0x10_0000_0000_0000
    }

    /// Whether the sign bit is set.
    pub open spec fn is_negative(self) -> bool {
        self.bits >= 0x8000_0000_0000_0000
    }

    /// Neither infinite nor not-a-number.
    pub open spec fn is_finite(self) -> bool {
        self.exponent() < 0x7ff
    }

    /// How often the smallest positive double goes into the absolute value.
    pub open spec fn magnitude(self) -> nat {
        if self.exponent() == 0 {
            self.fraction()
        } else {
            (0x10_0000_0000_0000 + self.fraction()) * pow2((self.exponent() - 1) as nat)
        }
    }

    /// The exact value, counted in units of the smallest positive double: every
    /// finite double is a whole number of them.
    pub open spec fn units(self) -> int {
        if self.is_negative() {
            -(self.magnitude() as int)
        } else {
            self.magnitude() as int
        }
    }
}

/// How many units make the number one.
pub open spec fn units_per_one() -> nat {
    pow2(1074)
}

// ---------------------------------------------------------------------------
// Memory tiers
// ---------------------------------------------------------------------------

/// The memory sizes, in gigabytes, that the leaderboard groups by.
pub const TIERS: [u32; 12] = [8, 12, 16, 24, 32, 48, 64, 80, 96, 128, 192, 256];

/// How far a memory size is from a tier, in units.
pub open spec fn tier_distance(gb: Binary64, tier: u32) -> nat {
    let d = gb.units() - tier * units_per_one();
    if d < 0 {
        (-d) as nat
    } else {
        d as nat
    }
}

/// No tier is nearer to `gb` than `tier`, and no smaller one is as near.
pub open spec fn is_nearest_tier(gb: Binary64, tier: u32) -> bool {
    &&& TIERS@.contains(tier)
    &&& forall|other: u32| #[trigger]
        TIERS@.contains(other) ==> tier_distance(gb, tier) <= tier_distance(gb, other) && (
        tier_distance(gb, tier) == tier_distance(gb, other) ==> tier <= other)
}

/// Whether `gb` is above the whole number `bound`.
fn is_above(gb: Binary64, bound: u32) -> (r: bool)
    requires
        gb.is_finite(),
        8 <= bound <= 256,
    ensures
        r == (gb.units() > bound * units_per_one()),
{
    let exponent: u64 = (gb.bits / 0x10_0000_0000_0000) % 0x800;
    let fraction: u64 = gb.bits % 0x10_0000_0000_0000;
    proof {
        lemma_pow2_pos(1074);
        assert(bound * units_per_one() >= 8 * units_per_one()) by (nonlinear_arith)
            requires
                bound >= 8,
                units_per_one() > 0,
        ;
    }
    if gb.bits >= 0x8000_0000_0000_0000 {
        assert(gb.units() <= 0);
        return false;
    }
    if exponent == 0 {
        proof {
            lemma_pow2_adds(52, 1022);
            lemma_pow2_pos(1022);
            lemma_mantissa_bounds();
            assert(0x10_0000_0000_0000 * pow2(1022) >= 0x10_0000_0000_0000) by (nonlinear_arith)
                requires
                    pow2(1022) >= 1,
            ;
        }
        return false;
    }
    let mantissa: u64 = 0x10_0000_0000_0000 + fraction;
    let ghost scale = pow2((exponent - 1) as nat);
    proof {
        lemma_pow2_pos((exponent - 1) as nat);
    }
    if exponent >= 1075 {
        proof {
            lemma_pow2_adds(1074, (exponent - 1075) as nat);
            lemma_pow2_pos((exponent - 1075) as nat);
            let high = pow2((exponent - 1075) as nat);
            assert(mantissa * scale > bound * units_per_one()) by (nonlinear_arith)
                requires
                    scale == units_per_one() * high,
                    high >= 1,
                    mantissa > bound,
                    units_per_one() > 0,
                    bound >= 0,
            ;
        }
        return true;
    }
    let shift: u64 = 1075 - exponent;
    proof {
        lemma_pow2_adds((exponent - 1) as nat, shift as nat);
    }
    if shift >= 53 {
        proof {
            lemma_pow2_adds(53, (shift - 53) as nat);
            lemma_pow2_pos((shift - 53) as nat);
            lemma_mantissa_bounds();
            let low = pow2((shift - 53) as nat);
            assert(mantissa * scale <= bound * units_per_one()) by (nonlinear_arith)
                requires
                    units_per_one() == scale * (0x20_0000_0000_0000 * low),
                    low >= 1,
                    mantissa < 0x20_0000_0000_0000,
                    bound >= 1,
                    scale > 0,
            ;
        }
        return false;
    }
    let factor: u64 = power_of_two(shift);
    proof {
        assert(bound * factor <= 256 * 0x20_0000_0000_0000) by (nonlinear_arith)
            requires
                bound <= 256,
                factor <= 0x20_0000_0000_0000,
        ;
        assert(bound * units_per_one() == (bound * factor) * scale) by (nonlinear_arith)
            requires
                units_per_one() == scale * factor,
        ;
        assert((mantissa * scale > (bound * factor) * scale) == (mantissa > bound * factor))
            by (nonlinear_arith)
            requires
                scale > 0,
        ;
    }
    mantissa > bound as u64 * factor
}

/// Two to the power `n`.
fn power_of_two(n: u64) -> (r: u64)
    requires
        n < 53,
    ensures
        r == pow2(n as nat),
        r < 0x20_0000_0000_0000,
{
    proof {
        lemma_mantissa_bounds();
        lemma_pow2_strictly_increases(n as nat, 53);
        assert(1 * pow2(n as nat) == pow2(n as nat));
        vstd::bits::lemma_u64_shl_is_mul(1, n);
    }
    1u64 << n
}

/// A mantissa lies between these two powers of two.
proof fn lemma_mantissa_bounds()
    ensures
        pow2(52) == 0x10_0000_0000_0000,
        pow2(53) == 0x20_0000_0000_0000,
{
    lemma2_to64();
    lemma_pow2_adds(32, 20);
    lemma_pow2_adds(32, 21);
}

proof fn lemma_nearer(value: int, one: int, low: int, high: int)
    by (nonlinear_arith)
    requires
        one > 0,
        low < high,
    ensures
        2 * value > (low + high) * one ==> {
            &&& value - low * one > high * one - value
            &&& value - low * one > value - high * one
            &&& value - low * one > 0
        },
        2 * value <= (low + high) * one ==> {
            &&& high * one - value >= value - low * one
            &&& high * one - value >= low * one - value
            &&& high * one - value >= 0
        },
{
}

/// Round a memory size to the nearest common tier, so that submissions group
/// cleanly; half way between two tiers the lower one is taken. A size that is no
/// number, or an infinite one, has no tier: the result is then 0.
pub fn nearest_mem_tier(gb: Binary64) -> (tier: u32)
    ensures
        gb.is_finite() ==> is_nearest_tier(gb, tier),
        !gb.is_finite() ==> tier == 0,
{
    if (gb.bits / 0x10_0000_0000_0000) % 0x800 == 0x7ff {
        return 0;
    }
    let ghost one = units_per_one() as int;
    let mut i: usize = 0;
    while i < 11
        invariant_except_break
            i <= 11,
            gb.is_finite(),
            one == units_per_one(),
            forall|k: int|
                0 <= k < i ==> 2 * gb.units() > (#[trigger] TIERS@[k] + TIERS@[k + 1]) * one,
        ensures
            i <= 11,
            forall|k: int|
                0 <= k < i ==> 2 * gb.units() > (#[trigger] TIERS@[k] + TIERS@[k + 1]) * one,
            i < 11 ==> 2 * gb.units() <= (TIERS@[i as int] + TIERS@[i + 1]) * one,
        decreases 11 - i,
    {
        proof {
            lemma_tiers();
        }
        let middle: u32 = (TIERS[i] + TIERS[i + 1]) / 2;
        assert((TIERS@[i as int] + TIERS@[i + 1]) * one == 2 * (middle * one)) by (nonlinear_arith)
            requires
                TIERS@[i as int] + TIERS@[i + 1] == 2 * middle,
        ;
        if !is_above(gb, middle) {
            break;
        }
        i += 1;
    }
    proof {
        lemma_nearest(gb, i as int);
    }
    TIERS[i]
}

/// A size that is a finite number has a tier, and no tier is zero.
pub proof fn tiers_are_positive(gb: Binary64, tier: u32)
    requires
        is_nearest_tier(gb, tier),
    ensures
        tier >= 8,
{
    lemma_tiers();
}

/// The tier is one of twelve sizes, from 8 to 256 gigabytes, and none of the others is
/// nearer to the measured size; half way between two of them it is the lower one.
pub proof fn tiers_are_the_nearest_of_twelve(gb: Binary64, tier: u32, other: u32)
    requires
        is_nearest_tier(gb, tier),
        seq![8u32, 12, 16, 24, 32, 48, 64, 80, 96, 128, 192, 256].contains(other),
    ensures
        seq![8u32, 12, 16, 24, 32, 48, 64, 80, 96, 128, 192, 256].contains(tier),
        ({
            let off = gb.units() - tier * pow2(1074);
            let other_off = gb.units() - other * pow2(1074);
            &&& vstd::math::abs(off) <= vstd::math::abs(other_off)
            &&& vstd::math::abs(off) == vstd::math::abs(other_off) ==> tier <= other
        }),
{
    assert(TIERS@ =~= seq![8u32, 12, 16, 24, 32, 48, 64, 80, 96, 128, 192, 256]);
    assert(TIERS@.contains(other));
}

/// A double of whole gigabytes that is a tier is in that tier.
pub proof fn tiers_are_their_own(gb: Binary64, tier: u32, size: u32)
    requires
        is_nearest_tier(gb, tier),
        seq![8u32, 12, 16, 24, 32, 48, 64, 80, 96, 128, 192, 256].contains(size),
        gb.units() == size * pow2(1074),
    ensures
        tier == size,
{
    tiers_are_the_nearest_of_twelve(gb, tier, size);
    lemma_pow2_pos(1074);
    assert(tier == size) by (nonlinear_arith)
        requires
            size * pow2(1074) - tier * pow2(1074) == 0,
            pow2(1074) > 0,
    ;
}

/// The doubles from zero up, in the order of their bits, begin at nothing and are one unit
/// apart at first; with every step of the exponent from its second value on, the distance
/// doubles.
pub proof fn doubles_go_up_in_steps(gb: Binary64, next: Binary64)
    requires
        next.bits == gb.bits + 1,
        next.bits < 0x7ff0_0000_0000_0000,
    ensures
        gb.bits == 0 ==> gb.units() == 0,
        next.units() - gb.units() == pow2(
            (if gb.bits as nat / 0x10_0000_0000_0000 >= 1 {
                gb.bits as nat / 0x10_0000_0000_0000 - 1
            } else {
                0
            }) as nat,
        ),
{
    let e = gb.bits as nat / 0x10_0000_0000_0000;
    let f = gb.bits as nat % 0x10_0000_0000_0000;
    assert(e < 0x7ff);
    assert(gb.exponent() == e && gb.fraction() == f);
    lemma2_to64();
    if f + 1 < 0x10_0000_0000_0000 {
        assert(next.bits as nat / 0x10_0000_0000_0000 == e);
        assert(next.bits as nat % 0x10_0000_0000_0000 == f + 1);
        assert(next.exponent() == e && next.fraction() == f + 1);
        if e > 0 {
            let p = pow2((e - 1) as nat);
            assert((0x10_0000_0000_0000 + (f + 1)) * p - (0x10_0000_0000_0000 + f) * p == p)
                by (nonlinear_arith);
        }
    } else {
        assert(next.bits as nat / 0x10_0000_0000_0000 == e + 1);
        assert(next.bits as nat % 0x10_0000_0000_0000 == 0);
        assert(next.exponent() == e + 1 && next.fraction() == 0);
        if e > 0 {
            let p = pow2((e - 1) as nat);
            lemma_pow2_adds((e - 1) as nat, 1);
            assert((e + 1 - 1) as nat == e && (e - 1) as nat + 1 == e);
            assert(0x10_0000_0000_0000 * (p * 2) - (0x10_0000_0000_0000 + 0xf_ffff_ffff_ffff) * p
                == p) by (nonlinear_arith);
        }
    }
}

/// The sign bit turns a double into its opposite.
pub proof fn the_sign_bit_negates(gb: Binary64, opposite: Binary64)
    requires
        gb.bits < 0x8000_0000_0000_0000,
        opposite.bits == gb.bits + 0x8000_0000_0000_0000,
    ensures
        gb.units() >= 0,
        opposite.units() == -gb.units(),
        gb.is_finite() <==> gb.bits < 0x7ff0_0000_0000_0000,
        opposite.is_finite() <==> gb.is_finite(),
{
    let e = gb.bits as nat / 0x10_0000_0000_0000;
    assert(opposite.bits as nat / 0x10_0000_0000_0000 == e + 0x800);
    assert(opposite.bits as nat % 0x10_0000_0000_0000 == gb.bits as nat % 0x10_0000_0000_0000);
}

/// More memory never means a lower tier; in particular a size has one tier only.
pub proof fn tiers_grow_with_memory(less: Binary64, more: Binary64, low: u32, high: u32)
    requires
        less.units() <= more.units(),
        is_nearest_tier(less, low),
        is_nearest_tier(more, high),
    ensures
        low <= high,
{
    if high < low {
        lemma_pow2_pos(1074);
        let one = units_per_one() as int;
        lemma_nearer(less.units(), one, high as int, low as int);
        lemma_nearer(more.units(), one, high as int, low as int);
        assert(tier_distance(less, low) <= tier_distance(less, high));
        assert(tier_distance(more, high) <= tier_distance(more, low));
    }
}

/// The tiers go up, and the middle between two neighbours is a whole number.
proof fn lemma_tiers()
    ensures
        TIERS@.len() == 12,
        forall|k: int| #![trigger TIERS@[k]]
            0 <= k < 11 ==> TIERS@[k] < TIERS@[k + 1] && (TIERS@[k] + TIERS@[k + 1]) % 2 == 0,
        forall|k: int, l: int| 0 <= k < l < 12 ==> TIERS@[k] < TIERS@[l],
        forall|k: int| 0 <= k < 12 ==> 8 <= #[trigger] TIERS@[k] <= 256,
{
    let t = seq![8u32, 12, 16, 24, 32, 48, 64, 80, 96, 128, 192, 256];
    assert(TIERS@ =~= t);
}

/// The tier below whose upper middle a size lies, and above all the middles further
/// down, is the nearest one.
proof fn lemma_nearest(gb: Binary64, i: int)
    requires
        0 <= i < 12,
        forall|k: int|
            0 <= k < i ==> 2 * gb.units() > (#[trigger] TIERS@[k] + TIERS@[k + 1])
                * units_per_one(),
        i < 11 ==> 2 * gb.units() <= (TIERS@[i] + TIERS@[i + 1]) * units_per_one(),
    ensures
        is_nearest_tier(gb, TIERS@[i]),
{
    lemma_tiers();
    lemma_pow2_pos(1074);
    let one = units_per_one() as int;
    let value = gb.units();
    let tier = TIERS@[i];
    assert forall|other: u32| #[trigger] TIERS@.contains(other) implies tier_distance(gb, tier)
        <= tier_distance(gb, other) && (tier_distance(gb, tier) == tier_distance(gb, other)
        ==> tier <= other) by {
        let k = choose|k: int| 0 <= k < TIERS@.len() && TIERS@[k] == other;
        if k < i {
            assert(2 * value > (other + tier) * one) by {
                assert(2 * value > (TIERS@[i - 1] + TIERS@[i - 1 + 1]) * one);
                assert((TIERS@[i - 1] + tier) * one >= (other + tier) * one) by (nonlinear_arith)
                    requires
                        TIERS@[i - 1] >= other,
                        one > 0,
                ;
            }
            lemma_nearer(value, one, other as int, tier as int);
        } else if k > i {
            assert(2 * value <= (tier + other) * one) by {
                assert((tier + TIERS@[i + 1]) * one <= (tier + other) * one) by (nonlinear_arith)
                    requires
                        TIERS@[i + 1] <= other,
                        one > 0,
                ;
            }
            lemma_nearer(value, one, tier as int, other as int);
        }
    }
}

// ---------------------------------------------------------------------------
// The machine
// ---------------------------------------------------------------------------

/// A memory size in gigabytes.
#[derive(Clone, Copy, PartialEq, Eq, Structural, Debug)]
pub struct Memory {
    /// The size as it was measured.
    pub exact: Binary64,
    /// The size rounded to two decimals, as it is published.
    pub published: Binary64,
}

/// What a submission needs to know of the machine.
pub struct SystemSpecs {
    pub total_ram_gb: Memory,
    pub total_cpu_cores: usize,
    pub cpu_name: String,
    pub has_gpu: bool,
    /// The memory of all graphics cards together.
    pub total_gpu_vram_gb: Option<Memory>,
    pub gpu_name: Option<String>,
    pub gpu_count: u32,
    /// Whether the graphics processor shares the main memory.
    pub unified_memory: bool,
}

/// The name under which submissions list an operating system.
pub open spec fn os_label(target_os: Seq<char>) -> Seq<char> {
    if target_os == "macos"@ {
        "macos"@
    } else if target_os == "windows"@ {
        "windows"@
    } else {
        "linux"@
    }
}

/// Submissions list three operating systems: macOS and Windows under their own names, and
/// only those, and everything else as Linux.
pub proof fn operating_systems_are_three(target_os: Seq<char>)
    ensures
        os_label(target_os) == "macos"@ <==> target_os == "macos"@,
        os_label(target_os) == "windows"@ <==> target_os == "windows"@,
        os_label(target_os) == "linux"@ <==> target_os != "macos"@ && target_os != "windows"@,
{
    reveal_strlit("macos");
    reveal_strlit("windows");
    reveal_strlit("linux");
    assert("macos"@[0] != "linux"@[0]);
    assert("windows"@[0] != "linux"@[0]);
    assert("windows"@[0] != "macos"@[0]);
}

/// The name under which submissions list the operating system `target_os`:
/// whatever is neither macOS nor Windows counts as Linux.
pub fn os_name(target_os: &str) -> (name: &'static str)
    ensures
        name@ == os_label(target_os@),
{
    if same_text(target_os, "macos") {
        "macos"
    } else if same_text(target_os, "windows") {
        "windows"
    } else {
        "linux"
    }
}

// ---------------------------------------------------------------------------
// The slug
// ---------------------------------------------------------------------------

/// An ASCII letter or digit.
pub open spec fn is_alphanumeric(c: char) -> bool {
    ('0' <= c && c <= '9') || ('A' <= c && c <= 'Z') || ('a' <= c && c <= 'z')
}

/// The letters and digits of `s` in their order, with one hyphen wherever other
/// characters stand between two of them.
pub open spec fn hyphenated(s: Seq<char>) -> Seq<char>
    decreases s.len(),
{
    if s.len() == 0 {
        s
    } else {
        let before = hyphenated(s.drop_last());
        let c = s.last();
        if !is_alphanumeric(c) {
            before
        } else if before.len() > 0 && !is_alphanumeric(s[s.len() - 2]) {
            before.push('-').push(c)
        } else {
            before.push(c)
        }
    }
}

/// The slug of a lower-case hardware name.
pub open spec fn slug_of(lowered: Seq<char>) -> Seq<char> {
    if hyphenated(lowered).len() == 0 {
        "unknown"@
    } else {
        hyphenated(lowered)
    }
}

/// The name that a machine goes by: that of its graphics card, or else that of its
/// processor.
pub open spec fn hardware_label(gpu_name: Option<String>, cpu_name: Seq<char>) -> Seq<char> {
    match gpu_name {
        Some(name) => name@,
        None => "cpu-"@ + cpu_name,
    }
}

/// Safe to use as the name of a file or a branch: not empty, made of letters,
/// digits and single hyphens, none of them at an end.
pub open spec fn is_filename_safe(s: Seq<char>) -> bool {
    &&& s.len() > 0
    &&& s[0] != '-'
    &&& s.last() != '-'
    &&& forall|i: int| 0 <= i < s.len() ==> is_alphanumeric(#[trigger] s[i]) || s[i] == '-'
    &&& forall|i: int| 0 <= i < s.len() - 1 ==> #[trigger] s[i] == '-' ==> s[i + 1] != '-'
}

proof fn lemma_hyphenated_is_safe(s: Seq<char>)
    ensures
        hyphenated(s).len() > 0 ==> is_filename_safe(hyphenated(s)) && is_alphanumeric(
            hyphenated(s).last(),
        ),
    decreases s.len(),
{
    if s.len() > 0 {
        lemma_hyphenated_is_safe(s.drop_last());
    }
}

/// Every slug can be used as the name of a file or a branch.
pub proof fn slugs_are_filename_safe(lowered: Seq<char>)
    ensures
        is_filename_safe(slug_of(lowered)),
{
    lemma_hyphenated_is_safe(lowered);
    reveal_strlit("unknown");
}

proof fn lemma_hyphenated_adds_no_capitals(s: Seq<char>)
    requires
        has_no_capitals(s),
    ensures
        has_no_capitals(hyphenated(s)),
    decreases s.len(),
{
    if s.len() > 0 {
        assert forall|i: int| 0 <= i < s.len() - 1 implies !('A' <= #[trigger] s.drop_last()[i]
            && s.drop_last()[i] <= 'Z') by {
            assert(s.drop_last()[i] == s[i]);
        }
        lemma_hyphenated_adds_no_capitals(s.drop_last());
        assert(s.last() == s[s.len() - 1]);
    }
}

/// A name without capitals has a slug without capitals.
pub proof fn slugs_stay_in_lower_case(lowered: Seq<char>)
    requires
        has_no_capitals(lowered),
    ensures
        has_no_capitals(slug_of(lowered)),
{
    lemma_hyphenated_adds_no_capitals(lowered);
    reveal_strlit("unknown");
}

proof fn lemma_hyphenated_keeps_prefix(s: Seq<char>, n: int)
    requires
        is_filename_safe(s),
        0 <= n <= s.len(),
    ensures
        hyphenated(s.take(n)) == (if n > 0 && s[n - 1] == '-' {
            s.take(n - 1)
        } else {
            s.take(n)
        }),
    decreases n,
{
    if n > 0 {
        lemma_hyphenated_keeps_prefix(s, n - 1);
        assert(s.take(n).drop_last() == s.take(n - 1));
        if n > 1 {
            assert(s.take(n)[n - 2] == s[n - 2]);
            assert(s[n - 2] == '-' ==> s[n - 1] != '-');
            if s[n - 2] == '-' {
                assert(n > 2);
                assert(s.take(n) == s.take(n - 2).push('-').push(s[n - 1]));
            } else {
                assert(s.take(n) == s.take(n - 1).push(s[n - 1]));
            }
        } else {
            assert(s.take(n) == s.take(n - 1).push(s[n - 1]));
        }
    }
}

/// A name that is safe already is its own slug.
pub proof fn slugs_keep_safe_names(s: Seq<char>)
    requires
        is_filename_safe(s),
    ensures
        slug_of(s) == s,
{
    lemma_hyphenated_keeps_prefix(s, s.len() as int);
    assert(s.take(s.len() as int) == s);
}

/// A slug is its own slug: lower-casing leaves it as it is, and so does what makes a
/// slug of that.
pub proof fn slugs_are_their_own_slugs(s: Seq<char>)
    requires
        is_filename_safe(s),
        has_no_capitals(s),
    ensures
        is_ascii_text(s),
        ascii_lowercase(s) == s,
        slug_of(ascii_lowercase(s)) == s,
{
    assert(ascii_lowercase(s) =~= s);
    slugs_keep_safe_names(s);
}

/// The character is a letter or a digit, by its place in ASCII.
pub open spec fn is_word_char(c: char) -> bool {
    48 <= c as int <= 57 || 65 <= c as int <= 90 || 97 <= c as int <= 122
}

/// There is a letter or a digit in the text.
pub open spec fn has_word_char(s: Seq<char>) -> bool {
    exists|i: int| 0 <= i < s.len() && is_word_char(#[trigger] s[i])
}

proof fn lemma_hyphenated_is_empty(s: Seq<char>)
    ensures
        hyphenated(s).len() == 0 <==> !has_word_char(s),
    decreases s.len(),
{
    if s.len() > 0 {
        let before = s.drop_last();
        lemma_hyphenated_is_empty(before);
        if has_word_char(before) {
            let i = choose|i: int| 0 <= i < before.len() && is_word_char(#[trigger] before[i]);
            assert(s[i] == before[i]);
        }
        if has_word_char(s) {
            let i = choose|i: int| 0 <= i < s.len() && is_word_char(#[trigger] s[i]);
            if i < before.len() {
                assert(before[i] == s[i]);
            }
        }
        assert(s[s.len() - 1] == s.last());
    }
}

proof fn lemma_hyphenated_keeps_words(s: Seq<char>)
    requires
        forall|i: int| 0 <= i < s.len() ==> is_word_char(#[trigger] s[i]),
    ensures
        hyphenated(s) == s,
    decreases s.len(),
{
    if s.len() > 0 {
        let before = s.drop_last();
        assert forall|i: int| 0 <= i < before.len() implies is_word_char(#[trigger] before[i]) by {
            assert(before[i] == s[i]);
        }
        lemma_hyphenated_keeps_words(before);
        assert(is_word_char(s[s.len() - 1]));
        if s.len() > 1 {
            assert(is_word_char(s[s.len() - 2]));
        }
        assert(s =~= before.push(s.last()));
    }
}

proof fn lemma_hyphenated_splits(a: Seq<char>, x: char, b: Seq<char>)
    requires
        !is_word_char(x),
    ensures
        hyphenated(a + seq![x] + b) == (if hyphenated(b).len() == 0 {
            hyphenated(a)
        } else if hyphenated(a).len() == 0 {
            hyphenated(b)
        } else {
            hyphenated(a) + seq!['-'] + hyphenated(b)
        }),
    decreases b.len(),
{
    let s = a + seq![x] + b;
    if b.len() == 0 {
        assert(s.drop_last() =~= a);
    } else {
        let less = b.drop_last();
        let c = b.last();
        assert(s.drop_last() =~= a + seq![x] + less);
        assert(s.last() == c);
        lemma_hyphenated_splits(a, x, less);
        let previous = s[s.len() - 2];
        if b.len() == 1 {
            assert(previous == x);
            assert(less =~= Seq::empty());
        } else {
            assert(previous == b[b.len() - 2]);
            assert(less.last() == previous);
        }
        let (h, k) = (hyphenated(a), hyphenated(less));
        let joined_up = h + seq!['-'] + k;
        assert(joined_up.push(c) =~= h + seq!['-'] + k.push(c));
        assert(joined_up.push('-').push(c) =~= h + seq!['-'] + k.push('-').push(c));
        assert(h.push('-').push(c) =~= h + seq!['-'] + Seq::empty().push(c));
    }
}

/// A name of letters and digits alone is its own slug, and a name without any has the
/// slug "unknown".
pub proof fn slugs_keep_words(s: Seq<char>)
    ensures
        s.len() > 0 && (forall|i: int| 0 <= i < s.len() ==> is_word_char(#[trigger] s[i]))
            ==> slug_of(s) == s,
        !has_word_char(s) ==> slug_of(s) == "unknown"@,
{
    lemma_hyphenated_is_empty(s);
    if forall|i: int| 0 <= i < s.len() ==> is_word_char(#[trigger] s[i]) {
        lemma_hyphenated_keeps_words(s);
    }
}

/// A name falls apart at every character that is no letter or digit: its slug is that
/// of what stands before, a hyphen, and that of what stands after; where one of the two
/// has no letters or digits, it is that of the other alone.
pub proof fn slugs_split_at_separators(a: Seq<char>, x: char, b: Seq<char>)
    requires
        !is_word_char(x),
    ensures
        has_word_char(a) && has_word_char(b) ==> slug_of(a + seq![x] + b) == slug_of(a) + seq!['-']
            + slug_of(b),
        has_word_char(a) && !has_word_char(b) ==> slug_of(a + seq![x] + b) == slug_of(a),
        !has_word_char(a) && has_word_char(b) ==> slug_of(a + seq![x] + b) == slug_of(b),
{
    lemma_hyphenated_splits(a, x, b);
    lemma_hyphenated_is_empty(a);
    lemma_hyphenated_is_empty(b);
}

/// Which character separates does not matter: a character that is no letter or digit may
/// be replaced by any other such character, a hyphen among them, without a change of the
/// slug.
pub proof fn separators_are_alike(s: Seq<char>, i: int, c: char)
    requires
        0 <= i < s.len(),
        !is_word_char(s[i]),
        !is_word_char(c),
    ensures
        slug_of(s.update(i, c)) == slug_of(s),
{
    let a = s.take(i);
    let b = s.skip(i + 1);
    lemma_hyphenated_splits(a, s[i], b);
    lemma_hyphenated_splits(a, c, b);
    assert(s =~= a + seq![s[i]] + b);
    assert(s.update(i, c) =~= a + seq![c] + b);
}

/// Letters and digits stand in the slug as they stand in the name: two that are next to
/// each other, the second at the end of the name, are so in the slug, and two with
/// something else between them have a hyphen there.
pub proof fn slugs_keep_neighbours_apart(s: Seq<char>, c: char, d: char, x: char)
    requires
        is_word_char(c),
        is_word_char(d),
        !is_word_char(x),
    ensures
        slug_of(s.push(c).push(d)) == slug_of(s.push(c)).push(d),
        slug_of(s.push(c).push(x).push(d)) == slug_of(s.push(c)).push('-').push(d),
        slug_of(s.push(c).push(x)) == slug_of(s.push(c)),
{
    let t = s.push(c);
    reveal_with_fuel(hyphenated, 3);
    assert(t.drop_last() =~= s);
    assert(t.push(d).drop_last() =~= t);
    assert(t.push(x).drop_last() =~= t);
    assert(t.push(x).push(d).drop_last() =~= t.push(x));
    assert(t.last() == c);
    assert(t.push(d)[t.len() - 1] == c);
    assert(t.push(x).push(d)[t.len() as int] == x);
}

/// Whatever the name is, its slug is made of letters, digits and hyphens, has a letter or
/// a digit at either end, and never two hyphens in a row.
pub proof fn slugs_are_words_with_single_hyphens(s: Seq<char>)
    ensures
        slug_of(s).len() > 0,
        is_word_char(slug_of(s)[0]),
        is_word_char(slug_of(s).last()),
        forall|i: int|
            0 <= i < slug_of(s).len() ==> is_word_char(#[trigger] slug_of(s)[i]) || slug_of(s)[i]
                == '-',
        forall|i: int|
            0 <= i < slug_of(s).len() - 1 ==> #[trigger] slug_of(s)[i] == '-' ==> slug_of(s)[i + 1]
                != '-',
{
    slugs_are_filename_safe(s);
}

/// A machine goes by the name of its graphics card, whatever its processor is called; one
/// without a card goes by the name of its processor, with "cpu-" before it.
pub proof fn machines_go_by_their_card(
    card: String,
    processor: Seq<char>,
    other_processor: Seq<char>,
)
    ensures
        hardware_label(Some(card), processor) == card@,
        hardware_label(Some(card), processor) == hardware_label(Some(card), other_processor),
        hardware_label(None, processor) == "cpu-"@ + processor,
        hardware_label(None, processor) == hardware_label(None, other_processor) ==> processor
            == other_processor,
{
    let a = "cpu-"@ + processor;
    let b = "cpu-"@ + other_processor;
    let n = "cpu-"@.len() as int;
    assert(a.skip(n) =~= processor);
    assert(b.skip(n) =~= other_processor);
}

/// The slug of a hardware name that is in lower case already.
pub fn slug_from_lowercase(lowered: &str) -> (slug: String)
    ensures
        slug@ == slug_of(lowered@),
        is_filename_safe(slug@),
{
    proof {
        slugs_are_filename_safe(lowered@);
    }
    let v = chars_of(lowered);
    let mut slug = String::new();
    let mut empty = true;
    let mut gap = false;
    let mut i: usize = 0;
    while i < v.len()
        invariant
            i <= v@.len(),
            slug@ == hyphenated(v@.take(i as int)),
            empty == (slug@.len() == 0),
            gap == (i > 0 && !is_alphanumeric(v@[i - 1])),
        decreases v@.len() - i,
    {
        let c = v[i];
        assert(v@.take(i + 1).drop_last() == v@.take(i as int));
        if (c >= '0' && c <= '9') || (c >= 'A' && c <= 'Z') || (c >= 'a' && c <= 'z') {
            if gap && !empty {
                slug.push('-');
            }
            slug.push(c);
            empty = false;
            gap = false;
        } else {
            gap = true;
        }
        i += 1;
    }
    assert(v@.take(v@.len() as int) == v@);
    if empty {
        "unknown".to_owned()
    } else {
        slug
    }
}

/// The slug of a machine.
pub open spec fn machine_slug(specs: SystemSpecs) -> Seq<char> {
    slug_of(lowercase(hardware_label(specs.gpu_name, specs.cpu_name@)))
}

/// The slug of a machine comes from the name of its graphics card or, without one, from that
/// of its processor with "cpu-" before it, in lower case; nothing else about the machine
/// matters.
pub proof fn machines_are_filed_by_name(specs: SystemSpecs, other: SystemSpecs)
    ensures
        specs.gpu_name matches Some(card) ==> machine_slug(specs) == slug_of(lowercase(card@)),
        specs.gpu_name is None ==> machine_slug(specs) == slug_of(
            lowercase("cpu-"@ + specs.cpu_name@),
        ),
        specs.gpu_name == other.gpu_name && specs.cpu_name@ == other.cpu_name@ ==> machine_slug(
            specs,
        ) == machine_slug(other),
        specs.gpu_name is Some && specs.gpu_name == other.gpu_name ==> machine_slug(specs)
            == machine_slug(other),
{
}

/// Slug identifying the hardware, used for the branch name and submission path.
pub fn hardware_slug(specs: &SystemSpecs) -> (slug: String)
    ensures
        slug@ == machine_slug(*specs),
        slug@ == slug_of(lowercase(hardware_label(specs.gpu_name, specs.cpu_name@))),
        is_filename_safe(slug@),
        has_no_capitals(slug@),
        ({
            let label = hardware_label(specs.gpu_name, specs.cpu_name@);
            is_ascii_text(label) ==> slug@ == slug_of(ascii_lowercase(label))
        }),
        ({
            let label = hardware_label(specs.gpu_name, specs.cpu_name@);
            is_filename_safe(label) && has_no_capitals(label) ==> slug@ == label
        }),
{
    let raw = match &specs.gpu_name {
        Some(name) => name.clone(),
        None => joined("cpu-", specs.cpu_name.as_str()),
    };
    let lowered = raw.as_str().to_lowercase();
    proof {
        slugs_stay_in_lower_case(lowered@);
        if is_filename_safe(raw@) && has_no_capitals(raw@) {
            slugs_are_their_own_slugs(raw@);
        }
    }
    slug_from_lowercase(lowered.as_str())
}

} // verus!
