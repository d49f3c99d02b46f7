//! Bandwidth adaptation: how fast each viewer wants the stream to be, and
//! how fast it is encoded.
//!
//! Each viewer's desired bitrate follows a simple AIMD scheme on reported
//! packet loss. Since encoding is shared across all viewers, the bitrate
//! actually applied is the minimum across all viewers' desired values.
use vstd::arithmetic::power2::{lemma2_to64, lemma2_to64_rest, pow2};
use vstd::prelude::*;

use crate::rounding::{
    lemma_nearest, lemma_nearest_keeps_order, lemma_nearest_of_few_bits, nearest, round_bits, TWO_52,
    TWO_53,
};
use crate::table::Table;

verus! {

// ---------------------------------------------------------------------
// Scaling by a factor
// ---------------------------------------------------------------------
//
// A factor such as 0.7 is the double-precision number nearest to it: a whole
// number of 2^-53 (or 2^-52) steps. A bitrate times a factor is the exact
// product rounded to 53 significant bits, ties to even, and the scaled
// bitrate is the whole part of that.

/// 0.70 in steps of 2^-53.
pub const FACTOR_070: u128 = 0x16_6666_6666_6666;

/// 0.85 in steps of 2^-53.
pub const FACTOR_085: u128 = 0x1b_3333_3333_3333;

/// 1.05 in steps of 2^-52.
pub const FACTOR_105: u128 = 0x10_cccc_cccc_cccd;

/// The whole part of `n` times `factor` steps of `1 / unit`, no larger than
/// a `u32` can be.
pub open spec fn scaled(n: u32, factor: u128, unit: u128) -> u32 {
    let whole = nearest((n * factor) as nat, TWO_53 as nat) / (unit as nat);
    if whole <= u32::MAX {
        whole as u32
    } else {
        u32::MAX
    }
}

/// Scales `n` by a factor given in steps of `1 / unit`.
fn scale(n: u32, factor: u128, unit: u128) -> (r: u32)
    requires
        factor < TWO_53,
        unit > 0,
    ensures
        r == scaled(n, factor, unit),
{
    assert(n * factor < 0x2000_0000_0000_0000_0000_0000) by (nonlinear_arith)
        requires
            n <= u32::MAX,
            factor < 0x20_0000_0000_0000,
    ;
    let whole: u128 = round_bits(n as u128 * factor, TWO_53) / unit;
    if whole <= u32::MAX as u128 {
        whole as u32
    } else {
        u32::MAX
    }
}

// ---------------------------------------------------------------------
// One viewer
// ---------------------------------------------------------------------

/// The lowest bitrate that any viewer may ask for.
pub const MIN_BITRATE_BPS: u32 = 1_000_000;

/// How many good reports in a row raise the bitrate.
pub const GOOD_REPORTS_TO_RAISE: u32 = 3;

/// The lowest bitrate a viewer of a stream of at most `max_bitrate_bps` may
/// ask for: a quarter of it, but not below [`MIN_BITRATE_BPS`].
pub open spec fn floor_bps(max_bitrate_bps: u32) -> u32 {
    if max_bitrate_bps / 4 > MIN_BITRATE_BPS {
        max_bitrate_bps / 4
    } else {
        MIN_BITRATE_BPS
    }
}

/// Whether a receiver report of `fraction_lost` 256ths means a loss of more
/// than `percent` percent.
pub open spec fn loses_more_than(fraction_lost: u8, percent: int) -> bool {
    fraction_lost * 100 > percent * 256
}

/// `n` brought into the range from `low` to `high`.
pub open spec fn clamped(n: u32, low: u32, high: u32) -> u32 {
    if n < low {
        low
    } else if n > high {
        high
    } else {
        n
    }
}

/// What one viewer's bitrate adaptation remembers.
#[verifier::ext_equal]
pub struct RateView {
    /// Good reports since the last bad one or the last raise.
    pub good_streak: int,
    /// The bitrate the viewer wants.
    pub current: u32,
    /// The bitrate the stream started with, never exceeded.
    pub max: u32,
}

/// The bitrate that a report asks for, before it is brought into range: 70%
/// of the current one on more than 10% loss, 85% on more than 2%, 105% on
/// the third good report in a row, and otherwise the current one.
pub open spec fn asked_for(rate: RateView, fraction_lost: u8) -> u32 {
    if loses_more_than(fraction_lost, 10) {
        scaled(rate.current, FACTOR_070, TWO_53)
    } else if loses_more_than(fraction_lost, 2) {
        scaled(rate.current, FACTOR_085, TWO_53)
    } else if rate.good_streak + 1 >= GOOD_REPORTS_TO_RAISE {
        scaled(rate.current, FACTOR_105, TWO_52)
    } else {
        rate.current
    }
}

/// What is remembered after a report.
pub open spec fn after_report(rate: RateView, fraction_lost: u8) -> RateView {
    RateView {
        good_streak: if loses_more_than(fraction_lost, 2) || rate.good_streak + 1
            >= GOOD_REPORTS_TO_RAISE {
            0
        } else {
            rate.good_streak + 1
        },
        current: clamped(asked_for(rate, fraction_lost), floor_bps(rate.max), rate.max),
        max: rate.max,
    }
}

/// One viewer's bitrate adaptation.
pub struct ViewerRate {
    good_streak: u32,
    current: u32,
    max: u32,
}

impl View for ViewerRate {
    type V = RateView;

    closed spec fn view(&self) -> RateView {
        RateView { good_streak: self.good_streak as int, current: self.current, max: self.max }
    }
}

impl ViewerRate {
    #[verifier::type_invariant]
    closed spec fn short_streak(&self) -> bool {
        self.good_streak < GOOD_REPORTS_TO_RAISE
    }

    /// A viewer starts out wanting the full bitrate.
    pub fn new(max_bitrate_bps: u32) -> (rate: Self)
        ensures
            rate@ == (RateView {
                good_streak: 0,
                current: max_bitrate_bps,
                max: max_bitrate_bps,
            }),
    {
        ViewerRate { good_streak: 0, current: max_bitrate_bps, max: max_bitrate_bps }
    }

    /// Takes note of a receiver report, and returns the bitrate the viewer
    /// now wants.
    pub fn on_report(&mut self, fraction_lost: u8) -> (desired: u32)
        requires
            old(self)@.max >= MIN_BITRATE_BPS,
        ensures
            final(self)@ == after_report(old(self)@, fraction_lost),
            desired == final(self)@.current,
    {
        proof {
            use_type_invariant(&*self);
        }
        let floor: u32 = if self.max / 4 > MIN_BITRATE_BPS {
            self.max / 4
        } else {
            MIN_BITRATE_BPS
        };
        let lost: u32 = fraction_lost as u32 * 100;
        let asked: u32 = if lost > 10 * 256 {
            self.good_streak = 0;
            scale(self.current, FACTOR_070, TWO_53)
        } else if lost > 2 * 256 {
            self.good_streak = 0;
            scale(self.current, FACTOR_085, TWO_53)
        } else if self.good_streak + 1 >= GOOD_REPORTS_TO_RAISE {
            self.good_streak = 0;
            scale(self.current, FACTOR_105, TWO_52)
        } else {
            self.good_streak = self.good_streak + 1;
            self.current
        };
        self.current = if asked < floor {
            floor
        } else if asked > self.max {
            self.max
        } else {
            asked
        };
        self.current
    }
}

/// Scaling down never raises and scaling up never lowers.
pub proof fn law_factors(n: u32)
    ensures
        scaled(n, FACTOR_070, TWO_53) <= scaled(n, FACTOR_085, TWO_53) <= n <= scaled(
            n,
            FACTOR_105,
            TWO_52,
        ),
        n > 0 ==> scaled(n, FACTOR_085, TWO_53) < n,
{
    let a = (n * FACTOR_070) as nat;
    let b = (n * FACTOR_085) as nat;
    let c = (n * FACTOR_105) as nat;
    assert(a >= 0 && b >= 0 && c >= 0);
    lemma_nearest(a, TWO_53 as nat);
    lemma_nearest(b, TWO_53 as nat);
    lemma_nearest(c, TWO_53 as nat);
    assert(a == n * 0x16_6666_6666_6666);
    assert(b == n * 0x1b_3333_3333_3333);
    assert(c == n * 0x10_cccc_cccc_cccd);
    if n == 0 {
        assert(nearest(0, TWO_53 as nat) == 0);
    }
}

/// Within its limits, a viewer's bitrate stays within them; a report of much
/// loss never raises it, a good report never lowers it, and only the third
/// good report in a row raises it.
pub proof fn law_adaptation(rate: RateView, fraction_lost: u8)
    requires
        rate.max >= MIN_BITRATE_BPS,
        floor_bps(rate.max) <= rate.current <= rate.max,
        0 <= rate.good_streak < GOOD_REPORTS_TO_RAISE,
    ensures
        ({
            let next = after_report(rate, fraction_lost);
            &&& floor_bps(rate.max) <= next.current <= rate.max
            &&& next.max == rate.max
            &&& 0 <= next.good_streak < GOOD_REPORTS_TO_RAISE
            &&& loses_more_than(fraction_lost, 2) ==> next.current <= rate.current
                && next.good_streak == 0
            &&& !loses_more_than(fraction_lost, 2) ==> next.current >= rate.current
            &&& !loses_more_than(fraction_lost, 2) && rate.good_streak < 2 ==> next.current
                == rate.current
        }),
{
    law_factors(rate.current);
}

/// Each factor is the double-precision number nearest to it.
pub proof fn law_factors_are_nearest()
    ensures
        -5 <= 10 * FACTOR_070 - 7 * TWO_53 <= 5,
        -50 <= 100 * FACTOR_085 - 85 * TWO_53 <= 50,
        -50 <= 100 * FACTOR_105 - 105 * TWO_52 <= 50,
        TWO_53 == 2 * TWO_52,
        TWO_52 == 0x4000_0000int * 0x40_0000int,
{
}

/// Scaling gives 70%, 85% or 105% of a bitrate, as whole numbers: at most
/// that much, and not a full bit per second less.
pub proof fn law_scaling_is_by_percent(n: u32)
    ensures
        10 * scaled(n, FACTOR_070, TWO_53) <= 7 * n <= 10 * scaled(n, FACTOR_070, TWO_53) + 10,
        100 * scaled(n, FACTOR_085, TWO_53) <= 85 * n <= 100 * scaled(n, FACTOR_085, TWO_53) + 100,
        100 * scaled(n, FACTOR_105, TWO_52) <= 105 * n,
        105 * n < 100 * scaled(n, FACTOR_105, TWO_52) + 100 || scaled(n, FACTOR_105, TWO_52)
            == u32::MAX,
{
    let a = (n * FACTOR_070) as nat;
    let b = (n * FACTOR_085) as nat;
    let c = (n * FACTOR_105) as nat;
    let limit = TWO_53 as nat;
    assert(a == n * 0x16_6666_6666_6666);
    assert(b == n * 0x1b_3333_3333_3333);
    assert(c == n * 0x10_cccc_cccc_cccd);
    lemma_nearest(a, limit);
    lemma_nearest(b, limit);
    lemma_nearest(c, limit);
    let whole = 105 * n / 100;
    lemma_whole_below(whole as nat, c, n);
}

/// Rounding never takes a product below a whole number that it reaches.
proof fn lemma_whole_below(whole: nat, product: nat, n: u32)
    requires
        product == n * FACTOR_105,
        whole == 105 * n / 100,
    ensures
        nearest(product, TWO_53 as nat) >= whole * TWO_52,
{
    let limit = TWO_53 as nat;
    let exact = (whole * TWO_52) as nat;
    assert(exact <= product);
    lemma_nearest_keeps_order(exact, product, limit);
    lemma2_to64();
    lemma2_to64_rest();
    assert(pow2(52) == TWO_52);
    lemma_nearest_of_few_bits(exact, limit, whole, 52);
}

/// What a report does to the bitrate that a viewer wants. Whatever it
/// reports, the bitrate stays between a quarter of what the stream started
/// with, but not less than a million bits per second, and what it started
/// with. On more than 10% loss (26 of 256 packets) it is cut to 70%, on more
/// than 2% (6 of 256) to 85%, and only where that would go below the lower
/// bound is it raised to the bound.
pub proof fn law_reports_cut_the_bitrate(rate: &mut ViewerRate, fraction_lost: u8, desired: u32)
    requires
        call_ensures(ViewerRate::on_report, (rate, fraction_lost), desired),
        1_000_000 <= old(rate)@.max,
        old(rate)@.current <= old(rate)@.max,
    ensures
        ({
            let start = old(rate)@.max;
            let before = old(rate)@.current;
            let least = if start >= 4_000_000 {
                start as int / 4
            } else {
                1_000_000
            };
            &&& desired >= 1_000_000
            &&& desired >= start / 4
            &&& desired <= start
            &&& final(rate)@.current == desired
            &&& final(rate)@.max == start
            &&& fraction_lost >= 26 ==> {
                ||| 10 * desired <= 7 * before <= 10 * desired + 10
                ||| desired == least && 7 * before <= 10 * least + 10
            }
            &&& 6 <= fraction_lost < 26 ==> {
                ||| 100 * desired <= 85 * before <= 100 * desired + 100
                ||| desired == least && 85 * before <= 100 * least + 100
            }
            &&& fraction_lost < 6 && before >= least ==> desired >= before
        }),
{
    law_scaling_is_by_percent(old(rate)@.current);
    law_factors(old(rate)@.current);
}

/// Three good reports in a row, the first of them right after a viewer
/// connected or after a report of loss, raise the bitrate by 5%, but not
/// above what the stream started with. The first two leave it alone, and the
/// counting then starts again.
pub proof fn law_third_good_report_raises(
    first: &mut ViewerRate,
    second: &mut ViewerRate,
    third: &mut ViewerRate,
    lost: (u8, u8, u8),
    desired: (u32, u32, u32),
)
    requires
        call_ensures(ViewerRate::on_report, (first, lost.0), desired.0),
        call_ensures(ViewerRate::on_report, (second, lost.1), desired.1),
        call_ensures(ViewerRate::on_report, (third, lost.2), desired.2),
        old(second)@ == final(first)@,
        old(third)@ == final(second)@,
        lost.0 < 6 && lost.1 < 6 && lost.2 < 6,
        old(first)@.good_streak == 0,
        1_000_000 <= old(first)@.max,
        old(first)@.max / 4 <= old(first)@.current <= old(first)@.max,
        1_000_000 <= old(first)@.current,
    ensures
        desired.0 == old(first)@.current,
        desired.1 == old(first)@.current,
        100 * desired.2 <= 105 * old(first)@.current,
        105 * old(first)@.current < 100 * desired.2 + 100 || desired.2 == old(first)@.max,
        final(third)@.good_streak == 0,
{
    law_scaling_is_by_percent(old(first)@.current);
    law_factors(old(first)@.current);
}

/// A report of loss starts the counting of good reports again, and a viewer
/// that connects starts with none and wants the full bitrate.
pub proof fn law_loss_ends_a_streak(
    rate: &mut ViewerRate,
    fraction_lost: u8,
    desired: u32,
    max: u32,
    connected: ViewerRate,
)
    requires
        call_ensures(ViewerRate::on_report, (rate, fraction_lost), desired),
        call_ensures(ViewerRate::new, (max,), connected),
        fraction_lost >= 6,
    ensures
        final(rate)@.good_streak == 0,
        connected@.good_streak == 0,
        connected@.current == max,
        connected@.max == max,
{
}

// ---------------------------------------------------------------------
// All viewers
// ---------------------------------------------------------------------

/// Whether `target` is the bitrate to encode at: the lowest of what the
/// viewers want, or `max` if no viewer has asked for any.
pub open spec fn is_target(desired: Map<Seq<char>, u32>, max: u32, target: u32) -> bool {
    if desired.dom().is_empty() {
        target == max
    } else {
        &&& exists|viewer: Seq<char>| #[trigger]
            desired.contains_key(viewer) && desired[viewer] == target
        &&& forall|viewer: Seq<char>| #[trigger]
            desired.contains_key(viewer) ==> target <= desired[viewer]
    }
}

/// There is only one bitrate to encode at.
pub proof fn law_target_is_unique(desired: Map<Seq<char>, u32>, max: u32, a: u32, b: u32)
    requires
        is_target(desired, max, a),
        is_target(desired, max, b),
    ensures
        a == b,
{
}

/// The bitrate to encode at.
pub fn shared_target(desired: &Table<u32>, max: u32) -> (target: u32)
    ensures
        is_target(desired@, max, target),
{
    let n: usize = desired.len();
    if n == 0 {
        assert(desired@.dom() =~= Set::<Seq<char>>::empty());
        return max;
    }
    let mut target: u32 = *desired.value_at(0);
    let mut i: usize = 1;
    assert(desired@.contains_key(desired.order()[0]) && desired@[desired.order()[0]] == target);
    while i < n
        invariant
            1 <= i <= n,
            n == desired.order().len(),
            desired.order().to_set() == desired@.dom(),
            exists|viewer: Seq<char>| #[trigger]
                desired@.contains_key(viewer) && desired@[viewer] == target,
            forall|j: int| 0 <= j < i ==> target <= desired@[#[trigger] desired.order()[j]],
        decreases n - i,
    {
        let value: u32 = *desired.value_at(i);
        if value < target {
            target = value;
            assert(desired@.contains_key(desired.order()[i as int]) && desired@[desired.order()[i as int]]
                == target);
        }
        i = i + 1;
    }
    proof {
        assert forall|viewer: Seq<char>| #[trigger] desired@.contains_key(viewer) implies target
            <= desired@[viewer] by {
            assert(desired.order().to_set().contains(viewer));
            let j = choose|j: int|
                0 <= j < desired.order().len() && desired.order()[j] == viewer;
            assert(desired.order()[j] == viewer);
        }
        let viewer = choose|viewer: Seq<char>| #[trigger]
            desired@.contains_key(viewer) && desired@[viewer] == target;
        assert(desired@.dom().contains(viewer));
    }
    target
}

/// The bitrate to encode at is what the viewer wants that wants least, so
/// that nobody gets more than it wants; without any wishes it is what the
/// stream started with.
pub proof fn law_lowest_wish_counts(desired: Table<u32>, max: u32, target: u32)
    requires
        call_ensures(shared_target, (&desired, max), target),
    ensures
        forall|viewer: Seq<char>| #[trigger]
            desired@.contains_key(viewer) ==> target <= desired@[viewer],
        (exists|viewer: Seq<char>| desired@.contains_key(viewer)) ==> exists|viewer: Seq<char>|
            #[trigger] desired@.contains_key(viewer) && desired@[viewer] == target,
        (forall|viewer: Seq<char>| !desired@.contains_key(viewer)) ==> target == max,
{
    if exists|viewer: Seq<char>| desired@.contains_key(viewer) {
        let viewer = choose|viewer: Seq<char>| desired@.contains_key(viewer);
        assert(desired@.dom().contains(viewer));
    } else {
        assert(desired@.dom() =~= Set::<Seq<char>>::empty());
    }
}

} // verus!
