use snb::build_tool::{
    cargo_package_info, default_target_dir_args, generated_manifest, has_target_dir_arg, has_target_selection_arg,
    is_example, is_help_arg, lib_only_args, looks_like_cargo_build_arg, plugin_listing, plugin_matches,
    plugin_name_matches, resolve_plugin_name, snb_build_plan, snb_package_name, snb_package_version, split_build_plugin_args,
    toml_key, toml_string, BuildPlan, BuildSection, ListedPlugin, ManifestInputs, PackageSection, PluginName,
    TomlEntry,
};

fn strings(v: &[&str]) -> Vec<String> {
    v.iter().map(|s| s.to_string()).collect()
}

#[test]
fn split_build_plugin_args_keeps_named_plugin() {
    let args = strings(&["snb_plugin_example", "--release"]);
    let (plugin, cargo_args) = split_build_plugin_args(&args);

    assert_eq!(plugin, Some(&args[0]));
    assert_eq!(cargo_args, &args[1..]);
}

#[test]
fn split_build_plugin_args_treats_leading_flag_as_cargo_args() {
    let args = strings(&["--release"]);
    let (plugin, cargo_args) = split_build_plugin_args(&args);

    assert_eq!(plugin, None);
    assert_eq!(cargo_args, &args[..]);
}

#[test]
fn plugin_matches_snb_source_package_name() {
    assert!(plugin_matches("custom_plugin_dir", Some("snb_custom_plugin"), "snb_custom_plugin"));
}

#[test]
fn fuzzy_names_from_the_usage_text() {
    assert!(plugin_name_matches("snb_adapter_tg", "tg"));
    assert!(plugin_name_matches("snb_adapter_tg", "adapter_tg"));
    assert!(plugin_name_matches("snb_adapter_tg", "snb_adapter_tg"));
    assert!(plugin_name_matches("plugin_name-rs", "plugin_name"));
    assert!(plugin_name_matches("plugin_name", "plugin-name"));
    assert!(plugin_name_matches("snb-plugin-x", "x"));
    assert!(plugin_name_matches("a", "a_rs"));
    assert!(!plugin_name_matches("snb_adapter_tg", "discord"));
    assert!(!plugin_name_matches("tg", "snb_adapter_tgx"));
    assert!(!plugin_matches("custom_plugin_dir", None, "snb_custom_plugin"));
}

#[test]
fn flags_and_help_are_recognised() {
    assert!(looks_like_cargo_build_arg("--release"));
    assert!(!looks_like_cargo_build_arg("tg"));
    assert!(is_help_arg("-h") && is_help_arg("--help") && is_help_arg("help"));
    assert!(!is_help_arg("--helpful"));
    assert!(has_target_selection_arg(&strings(&["--release", "--bin"])));
    assert!(!has_target_selection_arg(&strings(&["--release"])));
    assert!(has_target_dir_arg(&strings(&["--target-dir=/x"])));
    assert!(has_target_dir_arg(&strings(&["--target-dir", "/x"])));
    assert!(!has_target_dir_arg(&strings(&["--target"])));
}

#[test]
fn cargo_arguments_are_added_only_when_missing() {
    assert_eq!(lib_only_args(true, &strings(&["--release"])), strings(&["--lib"]));
    assert!(lib_only_args(true, &strings(&["--tests"])).is_empty());
    assert!(lib_only_args(false, &strings(&[])).is_empty());
    assert_eq!(default_target_dir_args("/w/target", &strings(&[])), strings(&["--target-dir", "/w/target"]));
    assert!(default_target_dir_args("/w/target", &strings(&["--target-dir=/o"])).is_empty());
}

#[test]
fn toml_strings_and_keys() {
    assert_eq!(toml_string("a\"b\\c\nd\te\r"), "\"a\\\"b\\\\c\\nd\\te\\r\"");
    assert_eq!(toml_string(""), "\"\"");
    assert_eq!(toml_key("serde_json-x1"), "serde_json-x1");
    assert_eq!(toml_key("a.b"), "\"a.b\"");
    assert_eq!(toml_key("é"), "\"é\"");
}

fn inputs(deps: Vec<(String, String)>) -> ManifestInputs {
    ManifestInputs {
        package_name: "snb_demo".to_string(),
        package_version: "0.2.0".to_string(),
        source: "/p/demo/src/compat.rs".to_string(),
        dependency_name: "demo".to_string(),
        plugin_dir: "/p/demo".to_string(),
        core_dir: "/w/crates/snb_core".to_string(),
        macros_dir: "/w/crates/snb_macros".to_string(),
        dependencies: deps,
    }
}

#[test]
fn generated_manifest_text() {
    let m = inputs(vec![("serde".to_string(), "\"1\"".to_string())]);
    assert_eq!(
        generated_manifest(&m, "/p/demo").unwrap(),
        "[package]\nname = \"snb_demo\"\nversion = \"0.2.0\"\nedition = \"2024\"\n\n[workspace]\n\n[lib]\npath = \"/p/demo/src/compat.rs\"\ncrate-type = [\"cdylib\"]\n\n[dependencies]\ndemo = { path = \"/p/demo\" }\nsnb_core = { path = \"/w/crates/snb_core\" }\nsnb_macros = { path = \"/w/crates/snb_macros\" }\nserde = \"1\"\n"
    );
}

#[test]
fn generated_manifest_refuses_overrides() {
    let m = inputs(vec![("snb_core".to_string(), "\"9\"".to_string()), ("demo".to_string(), "\"1\"".to_string())]);
    assert_eq!(
        generated_manifest(&m, "/p/demo").unwrap_err(),
        "/p/demo snb.toml [dependencies] must not override generated dependency `demo`"
    );
    let m = inputs(vec![("snb_macros".to_string(), "\"9\"".to_string())]);
    assert_eq!(
        generated_manifest(&m, "/p/demo").unwrap_err(),
        "/p/demo snb.toml [dependencies] must not override generated dependency `snb_macros`"
    );
}

fn section(manifest: TomlEntry, source: TomlEntry) -> BuildSection {
    BuildSection {
        manifest,
        source,
        package: TomlEntry::Missing,
        name: TomlEntry::Missing,
        version: TomlEntry::Missing,
    }
}

#[test]
fn build_plans_and_their_errors() {
    match snb_build_plan(Some(section(TomlEntry::Text("Cargo.toml".into()), TomlEntry::Text("x.rs".into()))), "s") {
        Ok(BuildPlan::Manifest(m)) => assert_eq!(m, "Cargo.toml"),
        other => panic!("unexpected {other:?}"),
    }
    match snb_build_plan(Some(section(TomlEntry::Other, TomlEntry::Text("x.rs".into()))), "s") {
        Ok(BuildPlan::Source(m)) => assert_eq!(m, "x.rs"),
        other => panic!("unexpected {other:?}"),
    }
    assert_eq!(
        snb_build_plan(Some(section(TomlEntry::Missing, TomlEntry::Other)), "p/snb.toml").unwrap_err(),
        "p/snb.toml [build] must contain either manifest or source"
    );
    assert_eq!(snb_build_plan(None, "p/snb.toml").unwrap_err(), "p/snb.toml must contain [build]");
}

#[test]
fn package_name_and_version_defaults() {
    let mut b = section(TomlEntry::Missing, TomlEntry::Missing);
    assert_eq!(snb_package_name(&b, "my-plugin"), "snb_my_plugin");
    b.name = TomlEntry::Text("named".into());
    assert_eq!(snb_package_name(&b, "my-plugin"), "named");
    b.package = TomlEntry::Other;
    assert_eq!(snb_package_name(&b, "my-plugin"), "snb_my_plugin");
    b.package = TomlEntry::Text("pkg".into());
    assert_eq!(snb_package_name(&b, "my-plugin"), "pkg");
    assert_eq!(snb_package_version(&b, "1.0.0"), "1.0.0");
    b.version = TomlEntry::Text("2.0.0".into());
    assert_eq!(snb_package_version(&b, "1.0.0"), "2.0.0");
}

#[test]
fn cargo_package_info_errors() {
    let ok = cargo_package_info(
        &Some(PackageSection { name: TomlEntry::Text("a".into()), version: TomlEntry::Text("1".into()) }),
        "C",
    )
    .unwrap();
    assert_eq!((ok.name.as_str(), ok.version.as_str()), ("a", "1"));
    assert_eq!(cargo_package_info(&None, "C").unwrap_err(), "C must contain [package]");
    assert_eq!(
        cargo_package_info(&Some(PackageSection { name: TomlEntry::Other, version: TomlEntry::Missing }), "C")
            .unwrap_err(),
        "C [package].name is required"
    );
    assert_eq!(
        cargo_package_info(&Some(PackageSection { name: TomlEntry::Text("a".into()), version: TomlEntry::Missing }), "C")
            .unwrap_err(),
        "C [package].version is required"
    );
}

#[test]
fn plugin_listing_lines() {
    assert_eq!(plugin_listing(&Vec::new()), strings(&["No plugins found"]));
    let ps = vec![
        ListedPlugin { name: "snb_adapter_stdin".into(), path: "plugins/snb_adapter_stdin/Cargo.toml".into() },
        ListedPlugin { name: "tg".into(), path: "plugins/tg/Cargo.toml".into() },
    ];
    let lines = plugin_listing(&ps);
    assert_eq!(lines.len(), 5);
    assert_eq!(lines[0], "\x1b[1mNAME\x1b[0m       \x1b[1mTYPE\x1b[0m  \x1b[1mPATH\x1b[0m");
    assert_eq!(lines[1], format!("{}  {}  {}", "-".repeat(17), "-".repeat(7), "-".repeat(20)));
    assert_eq!(lines[2], format!("\x1b[32m{:<17}\x1b[0m  \x1b[36m{:<7}\x1b[0m  plugins/tg/Cargo.toml", "tg", "plugin"));
    assert_eq!(
        lines[3],
        "\x1b[33msnb_adapter_stdin\x1b[0m  \x1b[90mexample\x1b[0m  \x1b[90mplugins/snb_adapter_stdin/Cargo.toml\x1b[0m"
    );
    assert_eq!(lines[4], "\n\x1b[1mTotal:\x1b[0m 1 plugin, 1 example");
    assert!(is_example("snb_plugin_example"));
    assert!(!is_example("tg"));
}

#[test]
fn requests_resolve_to_exactly_one_plugin() {
    let ps = vec![
        PluginName { name: "snb_adapter_tg".into(), package_name: None },
        PluginName { name: "custom_dir".into(), package_name: Some("snb_custom".into()) },
        PluginName { name: "snb_plugin_tg".into(), package_name: None },
    ];
    assert_eq!(resolve_plugin_name(&ps, "adapter_tg"), Ok(0));
    assert_eq!(resolve_plugin_name(&ps, "custom"), Ok(1));
    assert_eq!(resolve_plugin_name(&ps, "tg"), Err("plugin name 'tg' is ambiguous".to_string()));
    assert_eq!(resolve_plugin_name(&ps, "zz"), Err("plugin manifest not found for 'zz'".to_string()));
}
