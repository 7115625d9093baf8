use int2dds_ffi::abi::{component, int2dds_abi_capabilities, int2dds_abi_version};

#[test]
fn the_version_packs_the_crate_version() {
    // the crate version, 0.1.0
    let version = int2dds_abi_version("0", "1", "0");
    let field = |s: &str| s.parse::<u32>().expect("Cargo sets a decimal component");
    assert_eq!((version >> 16) & 0xff, field("0"));
    assert_eq!((version >> 8) & 0xff, field("1"));
    assert_eq!(version & 0xff, field("0"));
    assert_eq!(version >> 24, 0, "the high byte is unassigned");
}

#[test]
fn every_capability_bit_is_reserved() {
    assert_eq!(int2dds_abi_capabilities(), 0);
}

#[test]
fn components_parse_decimal_digits() {
    assert_eq!(component("0"), 0);
    assert_eq!(component("17"), 17);
    assert_eq!(component("4294967295"), u32::MAX);
    assert_eq!(component(""), 0);
}

#[test]
fn version_components_pack_into_bytes() {
    assert_eq!(int2dds_abi_version("1", "2", "3"), 0x0001_0203);
    assert_eq!(int2dds_abi_version("255", "0", "7"), 0x00FF_0007);
    assert_eq!(int2dds_abi_version("", "", ""), 0);
}
