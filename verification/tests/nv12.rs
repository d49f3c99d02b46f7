use framewire::nv12::{dump_nv12_stats, PlaneStats};

#[test]
fn planes_are_told_apart() {
    // 4x2 pixels, rows 6 bytes apart.
    let buf = vec![
        10, 20, 30, 40, 255, 255, // Y
        50, 60, 70, 80, 255, 255, // Y
        1, 101, 3, 103, // UV
    ];
    let stats = dump_nv12_stats(&buf, 4, 2, 6);
    assert_eq!(stats.y, PlaneStats { min: 10, max: 80, sum: 360, count: 8 });
    assert_eq!(stats.u, PlaneStats { min: 1, max: 3, sum: 4, count: 2 });
    assert_eq!(stats.v, PlaneStats { min: 101, max: 103, sum: 204, count: 2 });
}

#[test]
fn odd_sizes_leave_out_half_samples() {
    let buf = vec![
        1, 2, 3, //
        4, 5, 6, //
        7, 8, 9, //
        10, 20, 99,
    ];
    let stats = dump_nv12_stats(&buf, 3, 3, 3);
    assert_eq!(stats.y, PlaneStats { min: 1, max: 9, sum: 45, count: 9 });
    assert_eq!(stats.u, PlaneStats { min: 10, max: 10, sum: 10, count: 1 });
    assert_eq!(stats.v, PlaneStats { min: 20, max: 20, sum: 20, count: 1 });
}

#[test]
fn empty_planes() {
    let none = PlaneStats { min: 255, max: 0, sum: 0, count: 0 };
    let stats = dump_nv12_stats(&vec![42], 1, 1, 1);
    assert_eq!(stats.y, PlaneStats { min: 42, max: 42, sum: 42, count: 1 });
    assert_eq!((stats.u, stats.v), (none, none));
    let nothing = dump_nv12_stats(&vec![], 0, 0, 0);
    assert_eq!((nothing.y, nothing.u, nothing.v), (none, none, none));
}

#[test]
fn flat_image_has_one_value() {
    let stats = dump_nv12_stats(&vec![128; 16 * 16 * 3 / 2], 16, 16, 16);
    assert_eq!(stats.y, PlaneStats { min: 128, max: 128, sum: 128 * 256, count: 256 });
    assert_eq!(stats.v, PlaneStats { min: 128, max: 128, sum: 128 * 64, count: 64 });
}
