use conda_pilot::PreIdent;
use conda_pilot::Version;

fn pre(major: u64, minor: u64, patch: u64, idents: Vec<PreIdent>) -> Version {
    Version { major, minor, patch, pre: idents, build: Vec::new() }
}

#[test]
fn core_version_order() {
    assert!(Version::release(1, 24, 0).precedes(&Version::release(1, 26, 1)));
    assert!(Version::release(1, 9, 0).precedes(&Version::release(2, 0, 0)));
    assert!(Version::release(1, 2, 3).precedes(&Version::release(1, 2, 4)));
    assert!(!Version::release(2, 0, 0).precedes(&Version::release(1, 9, 0)));
    assert!(!Version::release(1, 2, 3).precedes(&Version::release(1, 2, 3)));
}

#[test]
fn pre_release_orders_below_release() {
    let alpha = pre(1, 0, 0, vec![PreIdent::Alpha(String::from("alpha"))]);
    let release = Version::release(1, 0, 0);
    assert!(alpha.precedes(&release));
    assert!(!release.precedes(&alpha));
}

#[test]
fn pre_release_ident_order() {
    let alpha = pre(1, 0, 0, vec![PreIdent::Alpha(String::from("alpha"))]);
    let alpha_1 = pre(
        1,
        0,
        0,
        vec![PreIdent::Alpha(String::from("alpha")), PreIdent::Num(1)],
    );
    let beta = pre(1, 0, 0, vec![PreIdent::Alpha(String::from("beta"))]);
    let numeric = pre(1, 0, 0, vec![PreIdent::Num(11)]);
    assert!(alpha.precedes(&alpha_1));
    assert!(alpha_1.precedes(&beta));
    assert!(numeric.precedes(&alpha));
    assert!(!alpha.precedes(&numeric));
}

#[test]
fn numeric_pre_release_idents_compare_by_value() {
    let two = pre(1, 0, 0, vec![PreIdent::Num(2)]);
    let eleven = pre(1, 0, 0, vec![PreIdent::Num(11)]);
    assert!(two.precedes(&eleven));
    assert!(!eleven.precedes(&two));
}

#[test]
fn version_text_rendering() {
    assert_eq!(Version::release(1, 24, 0).to_text(), "1.24.0");
    let full = Version {
        major: 1,
        minor: 0,
        patch: 0,
        pre: vec![PreIdent::Alpha(String::from("alpha")), PreIdent::Num(1)],
        build: vec![String::from("build"), String::from("5")],
    };
    assert_eq!(full.to_text(), "1.0.0-alpha.1+build.5");
    assert_eq!(Version::release(10, 0, 250).to_text(), "10.0.250");
}
