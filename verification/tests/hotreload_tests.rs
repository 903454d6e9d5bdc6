use lai::hotreload::{is_skill_event, is_skill_extension, EventClass};

#[test]
fn skill_extensions() {
    assert!(is_skill_extension("alisp"));
    assert!(is_skill_extension("json"));
    assert!(!is_skill_extension("txt"));
}

#[test]
fn skill_events() {
    let exts = vec![None, Some("txt".to_string()), Some("json".to_string())];
    assert!(is_skill_event(EventClass::Modify, &exts));
    assert!(is_skill_event(EventClass::Create, &exts));
    assert!(!is_skill_event(EventClass::Other, &exts));
    assert!(!is_skill_event(EventClass::Remove, &vec![Some("md".to_string())]));
}
