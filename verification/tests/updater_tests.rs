use std::cmp::Ordering;
use warden_core::updater::{local_version, Asset, ReleaseInfo, UpdateCheck, Version};

#[test]
fn t_version_parse_simple() {
    let v = Version::parse("0.1.0").unwrap();
    assert_eq!((v.major, v.minor, v.patch), (0, 1, 0));
    assert!(v.pre.is_none());

    let v = Version::parse("v1.2.3-beta").unwrap();
    assert_eq!((v.major, v.minor, v.patch), (1, 2, 3));
    assert_eq!(v.pre.as_deref(), Some("beta"));

    let v = Version::parse("V2.0.0").unwrap();
    assert_eq!((v.major, v.minor, v.patch), (2, 0, 0));
    assert!(v.pre.is_none());
}

#[test]
fn t_version_cmp() {
    let a = Version::parse("0.1.0").unwrap();
    let b = Version::parse("0.1.1").unwrap();
    assert_eq!(a.compare(&b), Ordering::Less);

    let a = Version::parse("0.2.0").unwrap();
    let b = Version::parse("0.1.9").unwrap();
    assert_eq!(a.compare(&b), Ordering::Greater);

    let a = Version::parse("1.0.0").unwrap();
    let b = Version::parse("1.0.0").unwrap();
    assert_eq!(a.compare(&b), Ordering::Equal);

    let a = Version::parse("1.0.0").unwrap();
    let b = Version::parse("1.0.0-beta").unwrap();
    assert_eq!(a.compare(&b), Ordering::Greater);
}

fn release(asset_name: &str) -> ReleaseInfo {
    ReleaseInfo {
        tag_name: "v0.2.0".into(),
        name: "v0.2.0".into(),
        prerelease: false,
        assets: vec![Asset { name: asset_name.into(), url: "https://example/x".into() }],
    }
}

#[test]
fn t_release_parse_and_asset_for() {
    let info = release("warden-x86_64-linux");
    let v = info.version().unwrap();
    assert_eq!((v.major, v.minor, v.patch), (0, 2, 0));
    let a = info.asset_for("x86_64-linux").unwrap();
    assert_eq!(a.url, "https://example/x");
    assert_eq!(a.name, "warden-x86_64-linux");
}

#[test]
fn t_asset_for_none() {
    let info = release("warden-aarch64-linux");
    assert!(info.asset_for("x86_64-linux").is_none());
}

#[test]
fn version_parse_errors() {
    assert!(Version::parse("1.2").is_err());
    assert!(Version::parse("1.x.3").is_err());
    assert!(Version::parse("").is_err());
}

#[test]
fn update_check_compares_with_local() {
    assert_eq!(local_version(), "0.1.0");
    let newer = Version::parse("0.2.0").unwrap();
    let c = UpdateCheck::from("0.1.0", Some(&newer));
    assert!(c.available);
    assert_eq!(c.remote.as_deref(), Some("0.2.0"));
    let same = Version::parse("0.1.0").unwrap();
    assert!(!UpdateCheck::from("0.1.0", Some(&same)).available);
    assert!(!UpdateCheck::from("0.1.0", None).available);
}
