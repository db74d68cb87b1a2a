use global_hotkey::hotkey::Code;
use global_hotkey::hotkey::HotKey;
use global_hotkey::hotkey::Modifiers;
use key_launcher::bindings::Binding;
use key_launcher::bindings::BindingTable;
use key_launcher::chord::Decision;
use key_launcher::chord::Phase;
use key_launcher::config::Config;
use key_launcher::dispatch::fire_event;
use key_launcher::keys::label_to_symbol;
use key_launcher::keys::KeySymbol;
use key_launcher::keys::Modifier;
use key_launcher::registration::chord;
use key_launcher::registration::hotkey_request;
use key_launcher::registration::request_for_key;
use key_launcher::registration::request_from_parse;
use key_launcher::registration::HotkeyRequest;
use key_launcher::registration::RegistrationMap;
use key_launcher::registration::SkipReason;
use key_launcher::registration::StartupError;

fn binding(name: &str) -> Binding {
    Binding {
        name: name.to_string(),
        command: "open".to_string(),
        args: vec!["-a".to_string(), name.to_string()],
    }
}

fn id_of(mods: Modifiers, code: Code) -> u32 {
    HotKey::new(Some(mods), code).id()
}

const LEADERS: [(Modifier, Modifiers); 4] = [
    (Modifier::Alt, Modifiers::ALT),
    (Modifier::Control, Modifiers::CONTROL),
    (Modifier::Super, Modifiers::SUPER),
    (Modifier::Shift, Modifiers::SHIFT),
];

fn keys() -> Vec<(&'static str, Code)> {
    vec![
        ("a", Code::KeyA),
        ("b", Code::KeyB),
        ("c", Code::KeyC),
        ("d", Code::KeyD),
        ("e", Code::KeyE),
        ("f", Code::KeyF),
        ("g", Code::KeyG),
        ("h", Code::KeyH),
        ("i", Code::KeyI),
        ("j", Code::KeyJ),
        ("k", Code::KeyK),
        ("l", Code::KeyL),
        ("m", Code::KeyM),
        ("n", Code::KeyN),
        ("o", Code::KeyO),
        ("p", Code::KeyP),
        ("q", Code::KeyQ),
        ("r", Code::KeyR),
        ("s", Code::KeyS),
        ("t", Code::KeyT),
        ("u", Code::KeyU),
        ("v", Code::KeyV),
        ("w", Code::KeyW),
        ("x", Code::KeyX),
        ("y", Code::KeyY),
        ("z", Code::KeyZ),
        ("0", Code::Digit0),
        ("1", Code::Digit1),
        ("2", Code::Digit2),
        ("3", Code::Digit3),
        ("4", Code::Digit4),
        ("5", Code::Digit5),
        ("6", Code::Digit6),
        ("7", Code::Digit7),
        ("8", Code::Digit8),
        ("9", Code::Digit9),
        ("f1", Code::F1),
        ("f2", Code::F2),
        ("f3", Code::F3),
        ("f4", Code::F4),
        ("f5", Code::F5),
        ("f6", Code::F6),
        ("f7", Code::F7),
        ("f8", Code::F8),
        ("f9", Code::F9),
        ("f10", Code::F10),
        ("f11", Code::F11),
        ("f12", Code::F12),
        ("space", Code::Space),
        ("tab", Code::Tab),
        ("escape", Code::Escape),
    ]
}

#[test]
fn chord_texts() {
    assert_eq!(chord(Modifier::Alt, KeySymbol::KeyB), "alt+b");
    assert_eq!(chord(Modifier::Control, KeySymbol::F12), "control+f12");
    assert_eq!(chord(Modifier::Super, KeySymbol::Space), "super+space");
    assert_eq!(chord(Modifier::Shift, KeySymbol::Digit0), "shift+0");
    assert_eq!(chord(Modifier::Alt, KeySymbol::Shift), "alt+shift");
}

#[test]
fn request_carries_the_chord_and_the_hotkey_id() {
    let request = hotkey_request(Modifier::Alt, "b").expect("a request");
    assert_eq!(request.chord, "alt+b");
    assert_eq!(request.id, id_of(Modifiers::ALT, Code::KeyB));
    assert_eq!(request.clone(), request);
}

#[test]
fn every_key_under_every_leader_has_the_id_of_its_hotkey() {
    let mut seen = std::collections::HashSet::new();
    for (leader, mods) in LEADERS {
        for (label, code) in keys() {
            let request = hotkey_request(leader, label).expect("a request");
            assert_eq!(request.id, id_of(mods, code), "{:?}+{}", leader, label);
            let parsed: HotKey = request.chord.parse().expect("a hotkey");
            assert_eq!(parsed, HotKey::new(Some(mods), code));
            seen.insert(request.id);

            let key = label_to_symbol(label).expect("a key");
            assert_eq!(request_for_key(leader, key), Ok(request));
        }
    }
    assert_eq!(seen.len(), 4 * 51);
}

#[test]
fn request_ignores_case_and_reads_aliases() {
    let expected = id_of(Modifiers::CONTROL, Code::Escape);
    for label in ["escape", "Escape", "esc", "ESC"] {
        let request = hotkey_request(Modifier::Control, label).expect("a request");
        assert_eq!(request.id, expected);
        assert_eq!(request.chord, "control+escape");
    }
}

#[test]
fn labels_that_name_no_key_are_skipped() {
    for label in ["", "enter", "f13", "ab", "alt+b", "ü"] {
        assert_eq!(hotkey_request(Modifier::Alt, label), Err(SkipReason::UnsupportedKey));
    }
}

#[test]
fn a_modifier_is_no_key_for_a_hotkey() {
    for label in ["shift", "alt", "ctrl", "control", "cmd", "meta", "super"] {
        assert_eq!(hotkey_request(Modifier::Alt, label), Err(SkipReason::UnsupportedKey));
    }
    assert_eq!(request_for_key(Modifier::Alt, KeySymbol::Shift), Err(SkipReason::UnsupportedKey));
}

#[test]
fn request_from_what_the_parser_made_of_the_chord() {
    assert_eq!(
        request_from_parse(KeySymbol::KeyB, "alt+b".to_string(), Some(7)),
        Ok(HotkeyRequest { chord: "alt+b".to_string(), id: 7 })
    );
    assert_eq!(
        request_from_parse(KeySymbol::KeyB, "alt+b".to_string(), None),
        Err(SkipReason::UnsupportedKey)
    );
    assert_eq!(
        request_from_parse(KeySymbol::Control, "alt+control".to_string(), Some(7)),
        Err(SkipReason::UnsupportedKey)
    );
}

#[test]
fn no_hotkeys_no_startup() {
    let map = RegistrationMap::new();
    assert_eq!(map.len(), 0);
    assert_eq!(map.startup(), Err(StartupError::NoBindingsRegistered));
}

#[test]
fn refused_hotkeys_do_not_count() {
    let mut map = RegistrationMap::new();
    assert_eq!(map.record(1, "b", &binding("B"), false), Err(SkipReason::Rejected));
    assert_eq!(map.record(2, "t", &binding("T"), false), Err(SkipReason::Rejected));
    assert_eq!(map.len(), 0);
    assert!(map.get(1).is_none());
    assert_eq!(map.startup(), Err(StartupError::NoBindingsRegistered));
}

#[test]
fn one_accepted_hotkey_lets_the_launcher_start() {
    let mut map = RegistrationMap::new();
    assert_eq!(map.record(1, "b", &binding("B"), false), Err(SkipReason::Rejected));
    assert_eq!(map.record(2, "t", &binding("T"), true), Ok(()));
    assert_eq!(map.startup(), Ok(1));
    assert_eq!(map.record(3, "d", &binding("D"), true), Ok(()));
    assert_eq!(map.startup(), Ok(2));
    assert_eq!(map.len(), 2);
}

#[test]
fn a_registered_hotkey_is_never_overwritten() {
    let mut map = RegistrationMap::new();
    assert_eq!(map.record(9, "b", &binding("First"), true), Ok(()));
    assert_eq!(map.record(9, "t", &binding("Second"), true), Err(SkipReason::DuplicateHotkey));
    assert_eq!(map.record(9, "t", &binding("Second"), false), Err(SkipReason::Rejected));
    assert_eq!(map.len(), 1);
    assert_eq!(map.get(9), Some(&("b".to_string(), binding("First"))));
}

#[test]
fn reported_hotkeys_fire_their_binding() {
    let mut map = RegistrationMap::new();
    let b = hotkey_request(Modifier::Alt, "b").expect("a request");
    let t = hotkey_request(Modifier::Alt, "T").expect("a request");
    assert_eq!(map.record(b.id, "b", &binding("Browser"), true), Ok(()));
    assert_eq!(map.record(t.id, "t", &binding("Terminal"), true), Ok(()));

    assert_eq!(map.on_hotkey(b.id, Phase::Pressed), Decision::Fire("b".to_string()));
    assert_eq!(map.on_hotkey(t.id, Phase::Pressed), Decision::Fire("t".to_string()));
    assert_eq!(map.get(t.id).map(|e| e.1.name.as_str()), Some("Terminal"));

    let unknown = id_of(Modifiers::ALT, Code::KeyQ);
    assert_eq!(map.on_hotkey(unknown, Phase::Pressed), Decision::NoOp);
    assert!(map.get(unknown).is_none());
}

#[test]
fn a_hotkey_fires_when_it_goes_down_and_not_when_it_comes_up() {
    let mut map = RegistrationMap::new();
    let b = hotkey_request(Modifier::Alt, "b").expect("a request");
    assert_eq!(map.record(b.id, "b", &binding("Browser"), true), Ok(()));

    let mut fired = 0;
    for phase in [Phase::Pressed, Phase::Released] {
        if let Decision::Fire(label) = map.on_hotkey(b.id, phase) {
            assert_eq!(label, "b");
            fired += 1;
        }
    }
    assert_eq!(fired, 1);
    assert_eq!(map.on_hotkey(b.id, Phase::Released), Decision::NoOp);
}

#[test]
fn from_the_default_configuration_to_a_launch() {
    let (leader, table) = Config::default().validate().expect("a valid configuration");
    let mut map = RegistrationMap::new();
    let mut ids = Vec::new();
    for (label, binding) in table.entries() {
        let request = hotkey_request(leader, label).expect("a request");
        // The operating system refuses the hotkey of `t` and takes the others.
        let accepted = label != "t";
        let result = map.record(request.id, label, binding, accepted);
        assert_eq!(result.is_ok(), accepted);
        ids.push(request.id);
    }
    assert_eq!(map.startup(), Ok(2));

    let decision = map.on_hotkey(ids[0], Phase::Pressed);
    assert_eq!(decision, Decision::Fire("b".to_string()));
    assert_eq!(fire_event(&decision, &table).map(|b| b.name.as_str()), Some("Brave Browser"));
    assert_eq!(map.get(ids[0]).map(|e| e.1.command.as_str()), Some("open"));

    assert_eq!(map.on_hotkey(ids[1], Phase::Pressed), Decision::NoOp);
    assert_eq!(map.on_hotkey(ids[2], Phase::Pressed), Decision::Fire("d".to_string()));
}

#[test]
fn every_binding_unsupported_or_refused_means_no_startup() {
    let raw = vec![
        ("enter".to_string(), binding("Run")),
        ("shift".to_string(), binding("Shift")),
        ("b".to_string(), binding("Browser")),
    ];
    let table = BindingTable::build(&raw).expect("a table");
    let mut map = RegistrationMap::new();
    let mut skipped = Vec::new();
    for (label, binding) in table.entries() {
        match hotkey_request(Modifier::Alt, label) {
            Ok(request) => {
                skipped.push(map.record(request.id, label, binding, false).unwrap_err());
            }
            Err(reason) => skipped.push(reason),
        }
    }
    assert_eq!(
        skipped,
        vec![SkipReason::UnsupportedKey, SkipReason::UnsupportedKey, SkipReason::Rejected]
    );
    assert_eq!(map.startup(), Err(StartupError::NoBindingsRegistered));
}
