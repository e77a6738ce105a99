use snb::build_tool::{
    package_info_from_manifest, parse_build_section, snb_build_plan, BuildPlan, TomlEntry,
};
use snb::logger::{log_level_from_config, parse_log_filter, LogFilter};

#[test]
fn log_level_is_read_from_the_config_text() {
    assert_eq!(log_level_from_config("log_level = \"DEBUG\"\n"), LogFilter::Debug);
    assert_eq!(log_level_from_config("log_level = \"trace\"\n[admin]\nids = []\n"), LogFilter::Trace);
    assert_eq!(log_level_from_config("log_level = \"off\""), LogFilter::Off);
    assert_eq!(log_level_from_config("log_level = \"Warn\""), LogFilter::Warn);
}

#[test]
fn log_level_falls_back_to_info() {
    assert_eq!(log_level_from_config(""), LogFilter::Info);
    assert_eq!(log_level_from_config("log_level = \"loud\""), LogFilter::Info);
    assert_eq!(log_level_from_config("log_level = 3"), LogFilter::Info);
    assert_eq!(log_level_from_config("this is = = not toml"), LogFilter::Info);
    assert_eq!(log_level_from_config("[bot]\nlog_level = \"debug\""), LogFilter::Info);
}

#[test]
fn level_filter_names_ignore_ascii_case() {
    assert_eq!(parse_log_filter("ERROR"), Some(LogFilter::Error));
    assert_eq!(parse_log_filter("iNfO"), Some(LogFilter::Info));
    assert_eq!(parse_log_filter("verbose"), None);
}

#[test]
fn build_section_is_read_key_by_key() {
    let text = "[build]\nmanifest = \"Cargo.toml\"\nversion = 2\n";
    let b = parse_build_section(text, "snb.toml").unwrap().unwrap();
    assert!(matches!(&b.manifest, TomlEntry::Text(m) if m == "Cargo.toml"));
    assert!(matches!(b.version, TomlEntry::Other));
    assert!(matches!(b.source, TomlEntry::Missing));
    assert!(matches!(b.package, TomlEntry::Missing));
    assert!(matches!(b.name, TomlEntry::Missing));
    match snb_build_plan(Some(b), "snb.toml") {
        Ok(BuildPlan::Manifest(m)) => assert_eq!(m, "Cargo.toml"),
        other => panic!("unexpected plan {:?}", other),
    }
}

#[test]
fn build_section_from_source() {
    let text = "[build]\nsource = \"src/lib.rs\"\nname = \"demo\"\n";
    let b = parse_build_section(text, "snb.toml").unwrap().unwrap();
    assert!(matches!(&b.name, TomlEntry::Text(n) if n == "demo"));
    match snb_build_plan(Some(b), "snb.toml") {
        Ok(BuildPlan::Source(s)) => assert_eq!(s, "src/lib.rs"),
        other => panic!("unexpected plan {:?}", other),
    }
}

#[test]
fn missing_build_table_reads_as_none() {
    assert!(parse_build_section("[other]\nx = 1\n", "snb.toml").unwrap().is_none());
    assert!(parse_build_section("build = \"not a table\"\n", "snb.toml").unwrap().is_none());
    let err = snb_build_plan(None, "p/snb.toml").unwrap_err();
    assert_eq!(err, "p/snb.toml must contain [build]");
}

#[test]
fn unparsable_snb_toml_is_an_error() {
    let err = parse_build_section("[build\nmanifest = ", "p/snb.toml").err().unwrap();
    assert!(err.starts_with("failed to parse p/snb.toml: "));
    assert!(err.len() > "failed to parse p/snb.toml: ".len());
}

#[test]
fn package_info_is_read_from_the_manifest() {
    let text = "[package]\nname = \"snb_demo\"\nversion = \"0.3.1\"\nedition = \"2021\"\n";
    let p = package_info_from_manifest(text, "Cargo.toml").unwrap();
    assert_eq!(p.name, "snb_demo");
    assert_eq!(p.version, "0.3.1");
}

#[test]
fn package_info_errors() {
    assert_eq!(
        package_info_from_manifest("[dependencies]\n", "c/Cargo.toml").err().unwrap(),
        "c/Cargo.toml must contain [package]"
    );
    assert_eq!(
        package_info_from_manifest("[package]\nversion = \"1.0.0\"\n", "c/Cargo.toml").err().unwrap(),
        "c/Cargo.toml [package].name is required"
    );
    assert_eq!(
        package_info_from_manifest("[package]\nname = \"x\"\nversion = 1\n", "c/Cargo.toml").err().unwrap(),
        "c/Cargo.toml [package].version is required"
    );
    let err = package_info_from_manifest("[package", "c/Cargo.toml").err().unwrap();
    assert!(err.starts_with("failed to parse c/Cargo.toml: "));
}
