use pwmp_msg::version::Version;

#[test]
fn version_1() {
    assert_eq!(Version::parse("1.0.0"), Some(Version::new(1, 0, 0)));
}

#[test]
fn version_2() {
    assert_eq!(Version::parse("100.45.78"), Some(Version::new(100, 45, 78)));
}

#[test]
fn version_3() {
    assert_eq!(Version::parse("1...0"), None);
}

#[test]
fn version_parse_and_render() {
    let version = Version::parse("1.2.6").unwrap();
    assert_eq!(version.major(), 1);
    assert_eq!(version.middle(), 2);
    assert_eq!(version.minor(), 6);
    assert_eq!(version.to_text(), "1.2.6");
}

#[test]
fn version_parse_too_few_groups() {
    assert_eq!(Version::parse("1.2"), None);
    assert_eq!(Version::parse("1"), None);
    assert_eq!(Version::parse(""), None);
}

#[test]
fn version_parse_too_many_groups() {
    assert_eq!(Version::parse("1.2.3.4"), None);
}

#[test]
fn version_parse_out_of_range() {
    assert_eq!(Version::parse("256.0.0"), None);
    assert_eq!(Version::parse("0.0.255"), Some(Version::new(0, 0, 255)));
}

#[test]
fn version_parse_non_numeric() {
    assert_eq!(Version::parse("1.20.4a"), None);
    assert_eq!(Version::parse("+1.2.3"), None);
    assert_eq!(Version::parse("1. 2.3"), None);
}

#[test]
fn version_parse_leading_zeros() {
    assert_eq!(Version::parse("01.002.0"), Some(Version::new(1, 2, 0)));
}

#[test]
fn version_render_widths() {
    assert_eq!(Version::new(0, 0, 0).to_text(), "0.0.0");
    assert_eq!(Version::new(7, 45, 255).to_text(), "7.45.255");
    assert_eq!(Version::new(100, 45, 78).to_text(), "100.45.78");
}

#[test]
fn version_text_reparses() {
    let version = Version::new(255, 0, 19);
    assert_eq!(Version::parse(&version.to_text()), Some(version));
}

#[test]
fn version_tuple_conversions() {
    let version: Version = (1u8, 2u8, 3u8).into();
    assert_eq!(version, Version::new(1, 2, 3));
    let triple: (u8, u8, u8) = version.into();
    assert_eq!(triple, (1, 2, 3));
}

#[test]
fn version_signed_triple() {
    let version = Version::new(1, 4, 7);
    assert_eq!(version.to_signed_triple(), (1i16, 4i16, 7i16));
}
