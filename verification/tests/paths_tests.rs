use snb::command::{may_dispatch, CommandVisibility};
use snb::event::Event;
use snb::paths::{first_disallowed_part, is_path_like, plugin_path_admissible, stays_under, PathPart};
use snb::registry::AdapterList;

fn normal(s: &str) -> PathPart {
    PathPart::Normal(s.to_string())
}

#[test]
fn plain_relative_paths_have_no_disallowed_part() {
    assert_eq!(first_disallowed_part(&vec![normal("data"), normal("state.json")]), None);
    assert_eq!(first_disallowed_part(&vec![]), None);
}

#[test]
fn traversal_components_are_found_first() {
    assert_eq!(first_disallowed_part(&vec![normal("a"), PathPart::ParentDir, normal("b")]), Some(1));
    assert_eq!(first_disallowed_part(&vec![PathPart::RootDir, normal("etc")]), Some(0));
    assert_eq!(first_disallowed_part(&vec![normal("a"), PathPart::CurDir]), Some(1));
    assert_eq!(first_disallowed_part(&vec![PathPart::Prefix("C:".to_string())]), Some(0));
}

#[test]
fn plugin_paths_may_not_leave_the_plugin_directory() {
    assert!(plugin_path_admissible(&vec![normal("src"), normal("lib.rs")]));
    assert!(plugin_path_admissible(&vec![PathPart::CurDir, normal("Cargo.toml")]));
    assert!(!plugin_path_admissible(&vec![PathPart::ParentDir, normal("Cargo.toml")]));
    assert!(!plugin_path_admissible(&vec![PathPart::RootDir, normal("Cargo.toml")]));
    assert!(!plugin_path_admissible(&vec![PathPart::Prefix("C:".to_string())]));
}

#[test]
fn path_like_plugin_arguments() {
    assert!(!is_path_like(false, &vec![normal("echo")]));
    assert!(is_path_like(true, &vec![PathPart::RootDir, normal("echo")]));
    assert!(is_path_like(false, &vec![normal("plugins"), normal("echo")]));
    assert!(is_path_like(false, &vec![PathPart::CurDir]));
    assert!(is_path_like(false, &vec![PathPart::ParentDir]));
}

#[test]
fn resolved_paths_stay_under_their_root() {
    let root = vec![PathPart::RootDir, normal("srv"), normal("cfg")];
    assert!(stays_under(&root, &vec![PathPart::RootDir, normal("srv"), normal("cfg"), normal("a.toml")]));
    assert!(stays_under(&root, &root.clone()));
    assert!(!stays_under(&root, &vec![PathPart::RootDir, normal("srv"), normal("cfgx"), normal("a.toml")]));
    assert!(!stays_under(&root, &vec![PathPart::RootDir, normal("srv")]));
    assert!(!stays_under(&root, &vec![PathPart::RootDir, normal("etc"), normal("passwd")]));
}

#[test]
fn admin_commands_run_only_for_admins() {
    let mut from_admin = Event::message("tg", "/reload");
    from_admin.message.as_mut().unwrap().is_admin = true;
    let from_user = Event::message("tg", "/reload");
    let bare = Event::command("tg", "reload", "");
    assert!(may_dispatch(CommandVisibility::Admin, &from_admin));
    assert!(!may_dispatch(CommandVisibility::Admin, &from_user));
    assert!(!may_dispatch(CommandVisibility::Admin, &bare));
    assert!(may_dispatch(CommandVisibility::Public, &from_user));
    assert!(may_dispatch(CommandVisibility::Hidden, &bare));
}

#[test]
fn targeted_events_route_to_the_first_adapter_of_the_plugin() {
    let mut adapters: AdapterList<u32> = AdapterList::new();
    adapters.register("stdin", 10);
    adapters.register("tg", 20);
    adapters.register("tg", 30);
    let untargeted = Event::message("core", "hi");
    assert_eq!(adapters.direct_route(&untargeted), None);
    let to_tg = Event::message("core", "hi").with_target_plugin("tg");
    assert_eq!(adapters.direct_route(&to_tg), Some(1));
    let to_none = Event::message("core", "hi").with_target_plugin("irc");
    assert_eq!(adapters.direct_route(&to_none), None);
}
