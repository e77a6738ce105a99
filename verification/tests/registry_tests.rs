use snb::event::{Event, EventType};
use snb::hook::HookType;
use snb::registry::{
    command_args, conflicts_verdict, dispatch_for, hook_applies_exec, CommandTable, ConflictLog, Dispatch, HookPhase,
    PriorityList, Registry,
};
use snb::error::PluginError;

#[test]
fn commands_resolve_by_name_and_alias() {
    let mut t: CommandTable<u32> = CommandTable::new();
    assert!(t.register("p", "echo".to_string(), vec!["say".to_string()], 1).is_ok());
    assert_eq!(t.lookup("echo"), Some(&1));
    assert_eq!(t.lookup("say"), Some(&1));
    assert_eq!(t.lookup("nope"), None);
}

#[test]
fn taken_names_are_refused_not_overwritten() {
    let mut t: CommandTable<u32> = CommandTable::new();
    t.register("p", "echo".to_string(), vec!["say".to_string()], 1).unwrap();
    assert_eq!(
        t.register("q", "echo".to_string(), vec![], 2),
        Err("command 'echo' already registered by plugin 'p'".to_string())
    );
    assert_eq!(
        t.register("q", "say".to_string(), vec![], 2),
        Err("command 'say' clashes with an existing alias".to_string())
    );
    assert!(t.register("q", "talk".to_string(), vec!["echo".to_string()], 2).is_err());
    assert_eq!(t.lookup("echo"), Some(&1));
    assert_eq!(t.lookup("talk"), None);
}

#[test]
fn removing_a_plugin_removes_its_commands_and_aliases() {
    let mut t: CommandTable<u32> = CommandTable::new();
    t.register("p", "echo".to_string(), vec!["say".to_string()], 1).unwrap();
    t.register("q", "ping".to_string(), vec![], 2).unwrap();
    t.remove_plugin("p");
    assert_eq!(t.lookup("echo"), None);
    assert_eq!(t.lookup("say"), None);
    assert_eq!(t.lookup("ping"), Some(&2));
    assert_eq!(t.names(), vec!["ping".to_string()]);
}

#[test]
fn hooks_run_in_priority_order() {
    let mut l: PriorityList<HookType, &str> = PriorityList::new();
    l.register("hook", "p", "late".to_string(), 10, HookType::All, "late").unwrap();
    l.register("hook", "p", "early".to_string(), 1, HookType::All, "early").unwrap();
    l.register("hook", "q", "mid".to_string(), 5, HookType::BeforeCommand, "mid").unwrap();
    l.register("hook", "q", "tie".to_string(), 10, HookType::All, "tie").unwrap();
    let order: Vec<&str> = (0..l.len()).map(|i| l.get(i).item).collect();
    assert_eq!(order, vec!["early", "mid", "late", "tie"]);
    assert!(l.check_order());
    assert_eq!(
        l.register("hook", "z", "mid".to_string(), 0, HookType::All, "x"),
        Err("hook 'mid' already registered by plugin 'q'".to_string())
    );
    let ev = Event::message("a", "b");
    let main: Vec<&str> = l.matching(HookPhase::Main, &ev).iter().map(|&i| l.get(i).item).collect();
    assert_eq!(main, vec!["early", "late", "tie"]);
    l.remove_plugin("p");
    assert_eq!(l.len(), 2);
}

#[test]
fn hook_phases() {
    let named = HookType::BeforeNamedCommand("echo".to_string());
    assert!(hook_applies_exec(&named, HookPhase::BeforeCommand, Some("echo"), &EventType::Command));
    assert!(!hook_applies_exec(&named, HookPhase::BeforeCommand, Some("ping"), &EventType::Command));
    assert!(!hook_applies_exec(&named, HookPhase::Main, Some("echo"), &EventType::Command));
    assert!(hook_applies_exec(&HookType::Event(EventType::Message), HookPhase::Main, None, &EventType::Message));
    assert!(!hook_applies_exec(&HookType::All, HookPhase::AfterCommand, None, &EventType::Message));
}

#[test]
fn dispatch_and_args() {
    assert_eq!(dispatch_for(&EventType::Command), Dispatch::Command);
    assert_eq!(dispatch_for(&EventType::Message), Dispatch::Message);
    assert_eq!(dispatch_for(&EventType::MessageEdit), Dispatch::Nothing);
    assert_eq!(command_args(&Event::command("a", "echo", "x y")), "x y");
    assert_eq!(command_args(&Event::message("a", "b")), "");
}

#[test]
fn conflicts_refuse_a_plugin() {
    let mut log = ConflictLog::new();
    log.begin();
    assert_eq!(conflicts_verdict(&log.take()), Ok(()));
    log.record("command 'x' already registered by plugin 'p'".to_string());
    let c = log.take();
    assert_eq!(c.len(), 1);
    assert_eq!(conflicts_verdict(&c), Err(PluginError::ComponentConflict));
    assert!(log.take().is_empty());
}

#[test]
fn registry_removal_keeps_other_plugins() {
    let mut r: Registry<u8, u8, u8, u8, u8> = Registry::new();
    r.commands.register("p", "a".to_string(), vec![], 1).unwrap();
    r.commands.register("q", "b".to_string(), vec![], 2).unwrap();
    r.adapters.register("p", 3);
    r.adapters.register("q", 4);
    r.databases.insert("p".to_string(), 5);
    r.remove_plugin_components("p");
    assert_eq!(r.commands.lookup("a"), None);
    assert_eq!(r.commands.lookup("b"), Some(&2));
    assert_eq!(r.adapters.len(), 1);
    assert_eq!(r.adapters.find("q"), Some(0));
    assert!(!r.databases.contains("p"));
}
