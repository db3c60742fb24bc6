//! Checks of the caster-description parser.

use std::str::FromStr;

use rt_navi::ntrip::{NTRIPInfos, NTRIPParsing};

#[test]
fn full_description_parses() {
    let infos = NTRIPInfos::parse("caster.example.com:2101/MOUNT/user=foo,password=bar").unwrap();
    assert_eq!(infos.host, "caster.example.com");
    assert_eq!(infos.port, 2101);
    assert_eq!(infos.mount, "MOUNT");
    // The credential items are stored whole, key included.
    assert_eq!(infos.username.as_deref(), Some("user=foo"));
    assert_eq!(infos.password.as_deref(), Some("password=bar"));
}

#[test]
fn port_and_mount_are_optional() {
    let infos = NTRIPInfos::parse("caster.example.com/MOUNT").unwrap();
    assert_eq!(infos.port, 0);
    assert_eq!(infos.mount, "MOUNT");
    assert_eq!(infos.username, None);
    assert_eq!(infos.password, None);

    let infos = NTRIPInfos::parse("caster.example.com").unwrap();
    assert_eq!(infos.host, "caster.example.com");
    assert_eq!(infos.mount, "");
}

#[test]
fn surrounding_whitespace_is_trimmed() {
    let infos = NTRIPInfos::parse("caster: 2101 / MOUNT ").unwrap();
    assert_eq!(infos.host, "caster");
    assert_eq!(infos.port, 2101);
    assert_eq!(infos.mount, "MOUNT");
}

#[test]
fn unparsable_port_falls_back_to_zero() {
    assert_eq!(NTRIPInfos::parse("caster:abc/MOUNT").unwrap().port, 0);
    assert_eq!(NTRIPInfos::parse("caster:70000/MOUNT").unwrap().port, 0);
    assert_eq!(NTRIPInfos::parse("caster:+2101/MOUNT").unwrap().port, 2101);
}

#[test]
fn extra_colon_part_is_rejected() {
    assert!(NTRIPInfos::parse("caster:1:2/MOUNT").is_none());
}

#[test]
fn unknown_credential_item_is_rejected() {
    assert!(NTRIPInfos::parse("caster:2101/MOUNT/token=abc").is_none());
}

#[test]
fn later_credentials_overwrite_earlier_ones() {
    let infos = NTRIPInfos::parse("c/m/user=a,user=b/password=x").unwrap();
    assert_eq!(infos.username.as_deref(), Some("user=b"));
    assert_eq!(infos.password.as_deref(), Some("password=x"));
}

#[test]
fn from_str_reports_invalid_descriptions() {
    let infos = NTRIPInfos::from_str("caster:2101/MOUNT").unwrap();
    assert_eq!(infos.port, 2101);
    let err = NTRIPInfos::from_str("caster/mount/junk").unwrap_err();
    assert_eq!(err, NTRIPParsing::InvalidDescription);
}

#[test]
fn empty_description_is_all_defaults() {
    let infos = NTRIPInfos::parse("").unwrap();
    assert_eq!(infos.host, "");
    assert_eq!(infos.port, 0);
    assert_eq!(infos.mount, "");
    assert_eq!(infos.username, None);
}
