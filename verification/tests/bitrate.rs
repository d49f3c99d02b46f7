use framewire::bitrate::{shared_target, ViewerRate};
use framewire::table::Table;

/// What the adaptation does, in floating point.
struct FloatRate {
    good_streak: u32,
    current: u32,
    max: u32,
}

impl FloatRate {
    fn on_report(&mut self, fraction_lost: u8) -> u32 {
        let floor = (self.max / 4).max(1_000_000);
        let loss = fraction_lost as f64 / 256.0;
        let desired = if loss > 0.10 {
            self.good_streak = 0;
            (self.current as f64 * 0.70) as u32
        } else if loss > 0.02 {
            self.good_streak = 0;
            (self.current as f64 * 0.85) as u32
        } else {
            self.good_streak += 1;
            if self.good_streak >= 3 {
                self.good_streak = 0;
                (self.current as f64 * 1.05) as u32
            } else {
                self.current
            }
        };
        self.current = desired.clamp(floor, self.max);
        self.current
    }
}

#[test]
fn adaptation_agrees_with_floating_point() {
    let mut seed: u64 = 12345;
    for max in [1_000_000, 1_234_567, 4_000_000, 20_000_000, 999_999_937, u32::MAX] {
        let mut exact = ViewerRate::new(max);
        let mut float = FloatRate { good_streak: 0, current: max, max };
        for _ in 0..3000 {
            seed = seed.wrapping_mul(6364136223846793005).wrapping_add(1442695040888963407);
            let lost = if (seed >> 60) < 8 { 0 } else { (seed >> 40) as u8 };
            assert_eq!(exact.on_report(lost), float.on_report(lost));
        }
    }
}

#[test]
fn heavy_loss_cuts_by_thirty_percent() {
    let mut rate = ViewerRate::new(20_000_000);
    assert_eq!(rate.on_report(26), 14_000_000);
    assert_eq!(rate.on_report(26), 9_800_000);
    assert_eq!(rate.on_report(255), 6_860_000);
    assert_eq!(rate.on_report(255), 5_000_000);
    assert_eq!(rate.on_report(255), 5_000_000);
}

#[test]
fn some_loss_cuts_by_fifteen_percent() {
    let mut rate = ViewerRate::new(20_000_000);
    assert_eq!(rate.on_report(25), 17_000_000);
    assert_eq!(rate.on_report(6), 14_450_000);
    assert_eq!(rate.on_report(5), 14_450_000);
}

#[test]
fn only_the_third_good_report_raises() {
    let mut rate = ViewerRate::new(20_000_000);
    rate.on_report(26);
    assert_eq!(rate.on_report(0), 14_000_000);
    assert_eq!(rate.on_report(5), 14_000_000);
    assert_eq!(rate.on_report(0), 14_700_000);
    assert_eq!(rate.on_report(0), 14_700_000);
    rate.on_report(6);
    assert_eq!(rate.on_report(0), 12_495_000);
    assert_eq!(rate.on_report(0), 12_495_000);
    assert_eq!(rate.on_report(0), 13_119_750);
}

#[test]
fn rate_never_exceeds_the_start() {
    let mut rate = ViewerRate::new(2_000_000);
    for _ in 0..10 {
        assert_eq!(rate.on_report(0), 2_000_000);
    }
    let mut low = ViewerRate::new(1_000_000);
    assert_eq!(low.on_report(255), 1_000_000);
}

#[test]
fn slowest_viewer_sets_the_target() {
    let mut desired: Table<u32> = Table::new();
    assert_eq!(shared_target(&desired, 20), 20);
    desired.insert("a".to_string(), 15);
    desired.insert("b".to_string(), 7);
    desired.insert("c".to_string(), 9);
    assert_eq!(shared_target(&desired, 20), 7);
    desired.remove("b");
    assert_eq!(shared_target(&desired, 20), 9);
    desired.insert("c".to_string(), 18);
    assert_eq!(shared_target(&desired, 20), 15);
    desired.clear();
    assert_eq!(shared_target(&desired, 20), 20);
}
