use framewire::version::{parse_version, version_at_least};

#[test]
fn short_version_reads_like_the_long_one() {
    assert_eq!(parse_version("0.2"), (0, 2, 0));
    assert_eq!(parse_version("0.2"), parse_version("0.2.0"));
    assert_eq!(parse_version("7"), (7, 0, 0));
}

#[test]
fn garbled_components_count_as_zero() {
    assert_eq!(parse_version(""), (0, 0, 0));
    assert_eq!(parse_version("garbage"), (0, 0, 0));
    assert_eq!(parse_version("1.x.3"), (1, 0, 3));
    assert_eq!(parse_version("1.2.3-beta"), (1, 2, 0));
    assert_eq!(parse_version("+1.-2.3"), (1, 0, 3));
    assert_eq!(parse_version("4294967295.4294967296.1"), (4294967295, 0, 1));
    assert_eq!(parse_version("1.2.3.4"), (1, 2, 3));
}

#[test]
fn versions_compare_component_by_component() {
    assert!(version_at_least((0, 2, 0), (0, 2, 0)));
    assert!(version_at_least((0, 10, 0), (0, 9, 9)));
    assert!(version_at_least((1, 0, 0), (0, 99, 99)));
    assert!(!version_at_least((0, 2, 0), (0, 2, 1)));
    for a in [(0, 0, 0), (0, 1, 5), (2, 0, 0), (2, 3, 1)] {
        for b in [(0, 0, 0), (0, 1, 5), (2, 0, 0), (2, 3, 1)] {
            assert_eq!(version_at_least(a, b), a >= b);
        }
    }
}

#[test]
fn written_versions_read_back() {
    for a in [0u32, 7, 10, 4294967295] {
        for b in [0u32, 9, 100, 4294967295] {
            for c in [0u32, 1, 20, 4294967295] {
                assert_eq!(parse_version(&format!("{}", a)), (a, 0, 0));
                assert_eq!(parse_version(&format!("{}.{}", a, b)), (a, b, 0));
                assert_eq!(parse_version(&format!("{}.{}.{}", a, b, c)), (a, b, c));
                for rest in ["", "5", "x.y", "...", "日本"] {
                    assert_eq!(parse_version(&format!("{}.{}.{}.{}", a, b, c, rest)), (a, b, c));
                }
            }
        }
    }
}
