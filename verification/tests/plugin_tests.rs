use snb::plugin::{
    admit_exported_abi, admit_plugin, check_abi, first_occurrences, is_plugin_library, snb_plugin_abi, AbiRejection,
    Version,
};
use snb::error::PluginError;

#[test]
fn plugin_library_names() {
    assert!(is_plugin_library("libsnb_adapter_stdin.so"));
    assert!(is_plugin_library("snb_plugin_example.dll"));
    assert!(is_plugin_library("libsnb_x.dylib"));
    assert!(!is_plugin_library("libother.so"));
    assert!(!is_plugin_library("snb_notes.txt"));
    assert!(!is_plugin_library("libsnb_.so.1"));
}

#[test]
fn earlier_copies_shadow_later_ones() {
    let names: Vec<String> = ["a.so", "b.so", "a.so", "c.so", "b.so"].iter().map(|s| s.to_string()).collect();
    assert_eq!(first_occurrences(&names), vec![true, true, false, true, false]);
    assert!(first_occurrences(&Vec::new()).is_empty());
}

#[test]
fn versions_parse_and_print() {
    let v = Version::parse("1.22.3").unwrap();
    assert_eq!(v, Version { major: 1, minor: 22, patch: 3 });
    assert_eq!(v.to_string(), "1.22.3");
    assert!(Version::parse("1.2").is_err());
    assert!(Version::parse("1.2.x").is_err());
    assert!(Version::parse("1.2.3.4").is_err());
}

#[test]
fn host_abi_is_admitted() {
    let host = snb_plugin_abi();
    assert!(check_abi(host, host).is_ok());
    assert!(admit_exported_abi(&host.to_string(), host).is_ok());
}

#[test]
fn incompatible_abis_are_refused() {
    let host = Version { major: 1, minor: 2, patch: 0 };
    assert_eq!(check_abi(Version { major: 2, minor: 0, patch: 0 }, host).unwrap_err(), AbiRejection::MajorMismatch);
    assert!(check_abi(Version { major: 1, minor: 3, patch: 0 }, host).is_err());
    assert!(check_abi(Version { major: 1, minor: 1, patch: 9 }, host).is_ok());
    assert!(admit_exported_abi("not a version", host).is_err());
}

#[test]
fn declared_and_exported_abi_must_agree() {
    let v = Version { major: 0, minor: 1, patch: 0 };
    let w = Version { major: 1, minor: 1, patch: 0 };
    assert_eq!(admit_plugin(v, w, false), Err(PluginError::BrokenAbi));
    assert_eq!(admit_plugin(v, v, true), Err(PluginError::DuplicatePlugin));
    assert_eq!(admit_plugin(v, v, false), Ok(()));
}

#[test]
fn version_errors_name_the_bad_component() {
    assert_eq!(Version::parse("1.2").unwrap_err(), "expected major.minor.patch, got `1.2`");
    assert_eq!(Version::parse("a.2.3").unwrap_err(), "bad major: invalid digit found in string");
    assert_eq!(Version::parse("1..3").unwrap_err(), "bad minor: cannot parse integer from empty string");
    assert_eq!(Version::parse("1.2.99999999999").unwrap_err(), "bad patch: number too large to fit in target type");
    assert_eq!(Version::parse("+1.0.4294967295").unwrap(), Version { major: 1, minor: 0, patch: 4294967295 });
    assert!(Version::parse("-1.0.0").is_err());
}

#[test]
fn every_abi_rejection_has_its_case() {
    let stable = Version { major: 1, minor: 2, patch: 0 };
    assert_eq!(check_abi(Version { major: 1, minor: 3, patch: 0 }, stable).unwrap_err(), AbiRejection::MinorTooNew);
    let pre = Version { major: 0, minor: 2, patch: 0 };
    assert_eq!(
        check_abi(Version { major: 0, minor: 1, patch: 0 }, pre).unwrap_err(),
        AbiRejection::PreStableMinorMismatch
    );
    let w = check_abi(Version { major: 1, minor: 1, patch: 7 }, stable).unwrap();
    assert!(w.older_minor && w.patch_differs);
    let same = check_abi(stable, stable).unwrap();
    assert!(!same.older_minor && !same.patch_differs);
    assert_eq!(admit_exported_abi("0.1.0", pre), Err(PluginError::UnsupportedAbi));
    assert_eq!(admit_exported_abi("0.2.5", pre).unwrap().0, Version { major: 0, minor: 2, patch: 5 });
}
