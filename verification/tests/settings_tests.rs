use mess::settings::{reserved_env_pairs, resolve, Settings};

fn pair(k: &str, v: &str) -> (String, String) {
    (k.to_string(), v.to_string())
}

#[test]
fn file_pairs_are_loaded_uppercased() {
    let s = resolve(&vec![pair("Duration", "60")], &vec![]);
    assert_eq!(s.get("DURATION"), Some("60".to_string()));
}

#[test]
fn missing_key_is_none() {
    let s = resolve(&vec![pair("duration", "60")], &vec![]);
    assert_eq!(s.get("MESSENGERS"), None);
}

#[test]
fn env_overrides_file() {
    let s = resolve(&vec![pair("duration", "60")], &vec![pair("MESS_DURATION", "5")]);
    assert_eq!(s.get("DURATION"), Some("5".to_string()));
}

#[test]
fn env_without_reserved_prefix_is_ignored() {
    let s = resolve(&vec![pair("duration", "60")], &vec![pair("DURATION", "5")]);
    assert_eq!(s.get("DURATION"), Some("60".to_string()));
}

#[test]
fn reserved_prefix_is_stripped_and_filtered() {
    let env = vec![pair("MESS_MESSENGERS", "beep"), pair("PATH", "/bin"), pair("MESSY", "x")];
    let overlay = reserved_env_pairs(&env);
    assert_eq!(overlay, vec![pair("MESSENGERS", "beep")]);
}

#[test]
fn later_insert_shadows_earlier() {
    let mut s = Settings::empty();
    s.insert("debug", "false".to_string());
    s.insert("DEBUG", "true".to_string());
    assert_eq!(s.get("DEBUG"), Some("true".to_string()));
}

#[test]
fn merging_same_overlay_twice_changes_nothing() {
    let file = vec![pair("duration", "60"), pair("messengers", "beep")];
    let env = vec![pair("MESS_DURATION", "5"), pair("MESS_EXTRA", "x")];
    let once = resolve(&file, &env);
    let mut twice = resolve(&file, &env);
    twice.insert_all(&reserved_env_pairs(&env));
    for key in ["DURATION", "MESSENGERS", "EXTRA", "ABSENT"] {
        assert_eq!(once.get(key), twice.get(key));
    }
}
