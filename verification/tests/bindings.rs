use key_launcher::bindings::Binding;
use key_launcher::bindings::BindingTable;
use key_launcher::config::ConfigError;
use key_launcher::config::Config;
use key_launcher::keys::Modifier;

fn binding(name: &str, command: &str, args: &[&str]) -> Binding {
    Binding {
        name: name.to_string(),
        command: command.to_string(),
        args: args.iter().map(|a| a.to_string()).collect(),
    }
}

fn entry(label: &str, name: &str) -> (String, Binding) {
    (label.to_string(), binding(name, "open", &["-a", name]))
}

#[test]
fn empty_mapping_is_refused() {
    let raw: Vec<(String, Binding)> = Vec::new();
    assert_eq!(BindingTable::build(&raw).err(), Some(ConfigError::EmptyBindings));
}

#[test]
fn one_entry_is_enough() {
    let table = BindingTable::build(&[entry("b", "X")]).expect("a table");
    assert_eq!(table.len(), 1);
    assert_eq!(table.get("b"), Some(&binding("X", "open", &["-a", "X"])));
}

#[test]
fn entries_keep_their_order_and_their_bindings() {
    let raw = vec![entry("t", "Terminal"), entry("b", "Browser"), entry("f5", "Reload")];
    let table = BindingTable::build(&raw).expect("a table");
    assert_eq!(table.len(), 3);
    assert_eq!(table.entries(), &raw);
}

#[test]
fn labels_are_stored_in_normal_form() {
    let raw = vec![entry("B", "Browser"), entry("Esc", "Quit"), entry("Enter", "Run")];
    let table = BindingTable::build(&raw).expect("a table");
    let labels: Vec<&str> = table.entries().iter().map(|e| e.0.as_str()).collect();
    assert_eq!(labels, vec!["b", "escape", "enter"]);
}

#[test]
fn the_first_entry_of_a_label_stands() {
    let raw = vec![
        entry("b", "First"),
        entry("esc", "Quit"),
        entry("B", "Second"),
        entry("escape", "Leave"),
        entry("t", "Terminal"),
    ];
    let table = BindingTable::build(&raw).expect("a table");
    assert_eq!(table.len(), 3);
    assert_eq!(table.get("b").map(|b| b.name.as_str()), Some("First"));
    assert_eq!(table.get("escape").map(|b| b.name.as_str()), Some("Quit"));
    assert_eq!(table.get("t").map(|b| b.name.as_str()), Some("Terminal"));
}

#[test]
fn get_takes_the_label_as_written() {
    let raw = [entry("b", "Browser"), entry("esc", "Quit")];
    let table = BindingTable::build(&raw).expect("a table");
    assert!(table.get("b").is_some());
    assert!(table.get("B").is_none());
    assert!(table.get("esc").is_none());
    assert!(table.get("escape").is_some());
    assert!(table.contains("escape"));
    assert!(!table.contains("esc"));
    assert!(!table.contains("t"));
}

#[test]
fn lookup_ignores_case_and_reads_aliases() {
    let raw = [entry("b", "Browser"), entry("esc", "Quit")];
    let table = BindingTable::build(&raw).expect("a table");
    assert_eq!(table.lookup("B").map(|b| b.name.as_str()), Some("Browser"));
    assert_eq!(table.lookup("b").map(|b| b.name.as_str()), Some("Browser"));
    assert_eq!(table.lookup("ESC").map(|b| b.name.as_str()), Some("Quit"));
    assert_eq!(table.lookup("Escape").map(|b| b.name.as_str()), Some("Quit"));
    assert_eq!(table.lookup("t"), None);
    assert_eq!(table.lookup(""), None);
}

#[test]
fn a_binding_is_copied_whole() {
    let editor = binding("Editor", "code", &["--new-window", "--wait", ""]);
    let copy = editor.clone();
    assert_eq!(copy, editor);
    assert_eq!(copy.args, vec!["--new-window", "--wait", ""]);
}

#[test]
fn default_configuration() {
    let config = Config::default();
    assert_eq!(config.leader_key, "alt");
    assert_eq!(
        config.bindings,
        vec![
            ("b".to_string(), binding("Brave Browser", "open", &["-a", "Brave Browser"])),
            ("t".to_string(), binding("Alacritty", "open", &["-a", "Alacritty"])),
            (
                "d".to_string(),
                binding("DB Browser for SQLite", "open", &["-a", "DB Browser for SQLite"]),
            ),
        ]
    );
}

#[test]
fn default_configuration_is_valid() {
    let (leader, table) = Config::default().validate().expect("a valid configuration");
    assert_eq!(leader, Modifier::Alt);
    assert_eq!(table.len(), 3);
    assert_eq!(table.lookup("d").map(|b| b.name.as_str()), Some("DB Browser for SQLite"));
}

#[test]
fn configuration_without_bindings_is_refused() {
    let config = Config { leader_key: "alt".to_string(), bindings: Vec::new() };
    assert_eq!(config.validate().err(), Some(ConfigError::EmptyBindings));
}

#[test]
fn unknown_leader_is_refused() {
    for leader in ["", "hyper", "b", "alt+shift", "f1"] {
        let config = Config { leader_key: leader.to_string(), bindings: vec![entry("b", "X")] };
        assert_eq!(config.validate().err(), Some(ConfigError::InvalidLeaderKey), "{:?}", leader);
    }
}

#[test]
fn missing_bindings_are_reported_before_the_leader() {
    let config = Config { leader_key: "hyper".to_string(), bindings: Vec::new() };
    assert_eq!(config.validate().err(), Some(ConfigError::EmptyBindings));
}

#[test]
fn leader_is_read_without_regard_to_case() {
    for (text, leader) in [
        ("Alt", Modifier::Alt),
        ("CTRL", Modifier::Control),
        ("Control", Modifier::Control),
        ("Cmd", Modifier::Super),
        ("META", Modifier::Super),
        ("super", Modifier::Super),
        ("Shift", Modifier::Shift),
    ] {
        let config = Config { leader_key: text.to_string(), bindings: vec![entry("b", "X")] };
        assert_eq!(config.validate().map(|(l, _)| l).ok(), Some(leader), "{:?}", text);
    }
}
