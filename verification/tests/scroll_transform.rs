use marquee::remap::remap;

#[test]
fn remap_scenarios() {
    assert_eq!(remap(5, -3, 10, true), 2);
    assert_eq!(remap(-1, 0, 10, true), 9);
    assert_eq!(remap(0, 0, 10, false), 0);
}

#[test]
fn remap_wrap_always_in_range() {
    for x in -25i64..25 {
        for offset in -25i64..25 {
            let r = remap(x, offset, 7, true);
            assert!(0 <= r && r < 7, "remap({x}, {offset}, 7, true) = {r}");
        }
    }
}

#[test]
fn remap_periodic_in_offset() {
    for x in -12i64..12 {
        for offset in -12i64..12 {
            assert_eq!(remap(x, offset, 9, true), remap(x, offset + 9, 9, true));
            assert_eq!(remap(x, offset, 9, true), remap(x, offset - 9, 9, true));
        }
    }
}

#[test]
fn remap_no_wrap_is_identity_translation() {
    assert_eq!(remap(5, -3, 10, false), 2);
    assert_eq!(remap(3, -9, 10, false), -6);
    assert_eq!(remap(100, 41, 10, false), 141);
    assert_eq!(remap(-7, -8, 1, false), -15);
}

#[test]
fn remap_wrap_handles_large_magnitudes() {
    let r = remap(i64::MIN + 5, 3, 10, true);
    assert!(0 <= r && r < 10);
    let r = remap(i64::MAX - 2, -11, 13, true);
    assert!(0 <= r && r < 13);
    // Exact checks against the mathematical remainder.
    assert_eq!(remap(-20, 0, 10, true), 0);
    assert_eq!(remap(-21, 0, 10, true), 9);
    assert_eq!(remap(-1, -1, 3, true), 1);
}
