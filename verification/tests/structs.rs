use msixvc::parse::structs::{compare_versions, Version};
use std::cmp::Ordering;

#[test]
fn test_version_cmp() {
    let lower = Version {
        major: 1,
        minor: 26,
        patch: 3005,
        build: 0,
    };
    let higher = Version {
        major: 1,
        minor: 26,
        patch: 3101,
        build: 0,
    };
    let other_high = Version {
        major: 1,
        minor: 26,
        patch: 3101,
        build: 0,
    };
    let other_high2 = Version {
        major: 2,
        minor: 26,
        patch: 3101,
        build: 0,
    };

    assert!(lower < higher);
    assert!(higher > lower);
    assert!(higher == other_high);
    assert!(other_high2 > other_high);
}

#[test]
fn version_from_bytes_reads_components_least_significant_first() {
    let v = Version::from_bytes([0x01, 0x00, 0xbd, 0x0b, 0x1a, 0x00, 0x02, 0x01]);
    assert_eq!(v.build, 1);
    assert_eq!(v.patch, 3005);
    assert_eq!(v.minor, 26);
    assert_eq!(v.major, 0x0102);
}

#[test]
fn version_text_is_dotted_decimal() {
    let v = Version { major: 1, minor: 26, patch: 3005, build: 0 };
    assert_eq!(v.to_string(), "1.26.3005.0");
    let w = Version { major: 65535, minor: 10, patch: 9, build: 100 };
    assert_eq!(w.to_string(), "65535.10.9.100");
}

#[test]
fn version_order_matches_order_of_le_bytes() {
    let a = [0x00, 0x01, 0xff, 0xff, 0x00, 0x00, 0x01, 0x00];
    let b = [0xff, 0x00, 0x00, 0x00, 0x01, 0x00, 0x01, 0x00];
    let va = Version::from_bytes(a);
    let vb = Version::from_bytes(b);
    assert_eq!(
        compare_versions(&va, &vb),
        u64::from_le_bytes(a).cmp(&u64::from_le_bytes(b))
    );
    assert_eq!(compare_versions(&va, &vb), Ordering::Less);
    assert_eq!(compare_versions(&vb, &va), Ordering::Greater);
    assert_eq!(compare_versions(&va, &va), Ordering::Equal);
    assert_eq!(va.partial_cmp(&vb), Some(Ordering::Less));
    assert_eq!(va.cmp(&vb), Ordering::Less);
}
