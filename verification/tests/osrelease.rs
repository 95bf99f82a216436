use rproc::sys::kernel::osrelease::{kernel_version, OsRelease};
use rproc::{GrammarError, ReadError};
use std::cmp::Ordering;

#[test]
fn osrelease_test_current() {
    if let Ok(os_release) = OsRelease::current(Some("6.18.44-fc-v165\n")) {
        println!("current os_release = {:?}", os_release);
        println!("current os_release string = {}", os_release.to_string());
        assert!(os_release.version_code > 0);
        assert!(os_release.major > 0);
        assert!(os_release.minor > 0);
        assert!(os_release.patch > 0);
    } else {
        assert!(false, "Error during OsRelease::current()");
    }
}

#[test]
fn test_sup() {
    let one = OsRelease::new(1, 2, 3);
    let two = OsRelease::new(4, 5, 6);

    assert!(one < two);
}

#[test]
fn test_eq0() {
    let one = OsRelease::new(1, 2, 3);
    let two = OsRelease::new(1, 2, 3);

    assert!(one == two);
}

#[test]
fn test_eq1() {
    let one = OsRelease::new(1, 2, 255);
    let two = OsRelease::new(1, 2, 300);

    assert!(one == two);
}

#[test]
fn osrelease_test_str_parser0() {
    let osrelease = OsRelease::from_str("5.14.12-amd64").unwrap();

    assert_eq!(osrelease.version_code, 331276);
    assert_eq!(osrelease.major, 5);
    assert_eq!(osrelease.minor, 14);
    assert_eq!(osrelease.patch, 12);
}

#[test]
fn test_str_parser1() {
    let osrelease = OsRelease::from_str("5.14.12").unwrap();

    assert_eq!(osrelease.version_code, 331276);
    assert_eq!(osrelease.major, 5);
    assert_eq!(osrelease.minor, 14);
    assert_eq!(osrelease.patch, 12);
}

#[test]
fn version_code_known_values() {
    assert_eq!(kernel_version(3, 18, 0), 201216);
    assert_eq!(kernel_version(5, 14, 12), 331276);
    assert_eq!(kernel_version(4, 4, 288), 263423);
    assert_eq!(kernel_version(0, 0, 0), 0);
    assert_eq!(kernel_version(255, 255, 65535), 0xff_ffff);
}

#[test]
fn version_code_saturates_patch_at_255() {
    assert_eq!(kernel_version(4, 4, 254), 263422);
    assert_eq!(kernel_version(4, 4, 255), 263423);
    assert_eq!(kernel_version(4, 4, 256), 263423);
    assert_eq!(kernel_version(4, 4, 65535), 263423);
    for major in [0u8, 1, 5, 255] {
        for minor in [0u8, 7, 255] {
            for patch in [255u16, 256, 300, 1000, 65535] {
                assert_eq!(kernel_version(major, minor, patch), kernel_version(major, minor, 255));
            }
        }
    }
}

#[test]
fn version_code_orders_by_major_then_minor_then_patch() {
    assert!(kernel_version(5, 0, 0) > kernel_version(4, 255, 65535));
    assert!(kernel_version(5, 14, 0) > kernel_version(5, 13, 255));
    assert!(kernel_version(5, 14, 12) > kernel_version(5, 14, 11));
    assert!(kernel_version(5, 14, 254) < kernel_version(5, 14, 255));
    assert_eq!(kernel_version(5, 14, 255), kernel_version(5, 14, 256));
}

#[test]
fn suffix_and_no_suffix_give_one_release() {
    let with_suffix = OsRelease::from_str("5.14.12-amd64").unwrap();
    let without = OsRelease::from_str("5.14.12").unwrap();

    assert!(with_suffix == without);
    assert_eq!(with_suffix.version_code, without.version_code);
    assert_eq!(with_suffix.major, without.major);
    assert_eq!(with_suffix.minor, without.minor);
    assert_eq!(with_suffix.patch, without.patch);
}

#[test]
fn release_with_line_feed_and_long_suffix() {
    let release = OsRelease::from_str("6.18.44-fc-v165\n").unwrap();

    assert_eq!(release.major, 6);
    assert_eq!(release.minor, 18);
    assert_eq!(release.patch, 44);
    assert_eq!(release.version_code, (6 << 16) + (18 << 8) + 44);
}

#[test]
fn release_keeps_patch_beyond_ceiling() {
    let release = OsRelease::from_str("4.4.288").unwrap();

    assert_eq!(release.patch, 288);
    assert_eq!(release.version_code, 263423);
}

#[test]
fn release_reads_only_three_components() {
    let release = OsRelease::from_str("5.15.0.7-generic").unwrap();

    assert_eq!((release.major, release.minor, release.patch), (5, 15, 0));
}

#[test]
fn release_with_too_few_components() {
    assert_eq!(OsRelease::from_str("5.14").unwrap_err(), GrammarError::TooFewFields);
    assert_eq!(OsRelease::from_str("").unwrap_err(), GrammarError::TooFewFields);
    assert_eq!(OsRelease::from_str("5-14.12.3").unwrap_err(), GrammarError::TooFewFields);
}

#[test]
fn release_with_bad_component() {
    assert_eq!(OsRelease::from_str("x.14.12").unwrap_err(), GrammarError::NotNumeric(0));
    assert_eq!(OsRelease::from_str("5.x.12").unwrap_err(), GrammarError::NotNumeric(1));
    assert_eq!(OsRelease::from_str("5.14.x").unwrap_err(), GrammarError::NotNumeric(2));
    assert_eq!(OsRelease::from_str("5..12").unwrap_err(), GrammarError::NotNumeric(1));
    assert_eq!(OsRelease::from_str("256.1.1").unwrap_err(), GrammarError::NotNumeric(0));
    assert_eq!(OsRelease::from_str("5.14.65536").unwrap_err(), GrammarError::NotNumeric(2));
    assert_eq!(OsRelease::from_str("5.14.12 ").unwrap_err(), GrammarError::NotNumeric(2));
    assert_eq!(OsRelease::from_str("5.14.12\n-amd64").unwrap_err(), GrammarError::NotNumeric(2));
}

#[test]
fn release_largest_numbers() {
    let release = OsRelease::from_str("255.255.65535").unwrap();

    assert_eq!((release.major, release.minor, release.patch), (255, 255, 65535));
    assert_eq!(release.version_code, 0xff_ffff);
}

#[test]
fn current_without_source_is_unavailable() {
    assert_eq!(OsRelease::current(None).unwrap_err(), ReadError::Unavailable);
}

#[test]
fn current_with_bad_source_is_malformed() {
    assert_eq!(
        OsRelease::current(Some("five.14.12")).unwrap_err(),
        ReadError::Malformed(GrammarError::NotNumeric(0))
    );
    assert_eq!(
        OsRelease::current(Some("5.14\n")).unwrap_err(),
        ReadError::Malformed(GrammarError::TooFewFields)
    );
}

#[test]
fn current_with_source() {
    let release = OsRelease::current(Some("5.14.12-amd64\n")).unwrap();

    assert_eq!(release.version_code, 331276);
}

#[test]
fn release_to_string_and_back() {
    for (major, minor, patch) in [(0u8, 0u8, 0u16), (5, 14, 12), (4, 4, 288), (255, 255, 65535), (10, 100, 1000)] {
        let release = OsRelease::new(major, minor, patch);
        let text = release.to_string();
        assert_eq!(text, format!("{}.{}.{}", major, minor, patch));
        let back = OsRelease::from_str(&text).unwrap();
        assert_eq!((back.major, back.minor, back.patch), (major, minor, patch));
        assert_eq!(back.version_code, release.version_code);
    }
}

#[test]
fn release_order_goes_by_version_code() {
    let low = OsRelease::new(5, 12, 300);
    let high = OsRelease::new(5, 13, 0);
    let same = OsRelease::new(5, 12, 255);

    assert!(low < high);
    assert!(high > low);
    assert!(low <= same && low >= same);
    assert!(low != high);
    assert_eq!(low.cmp(&high), Ordering::Less);
    assert_eq!(high.cmp(&low), Ordering::Greater);
    assert_eq!(low.cmp(&same), Ordering::Equal);
    assert_eq!(low.partial_cmp(&same), Some(Ordering::Equal));
}

#[test]
fn default_release_is_zero() {
    let release = OsRelease::default();

    assert_eq!((release.version_code, release.major, release.minor, release.patch), (0, 0, 0, 0));
}
