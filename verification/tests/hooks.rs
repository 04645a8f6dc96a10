use streambreak::cli::init::{can_register_hooks, register_hooks_in_settings, is_streambreak_entry_exec, make_hook_entry, register_hooks, Json};

fn s(x: &str) -> Json {
    Json::Str(x.to_string())
}

fn obj(members: Vec<(&str, Json)>) -> Json {
    Json::Object(members.into_iter().map(|(k, v)| (k.to_string(), v)).collect())
}

fn get<'a>(v: &'a Json, key: &str) -> &'a Json {
    match v {
        Json::Object(m) => &m.iter().find(|(k, _)| k == key).unwrap().1,
        _ => panic!("not an object"),
    }
}

fn array(v: &Json) -> &Vec<Json> {
    match v {
        Json::Array(a) => a,
        _ => panic!("not an array"),
    }
}

fn command_of(entry: &Json) -> String {
    match get(&array(get(entry, "hooks"))[0], "command") {
        Json::Str(c) => c.clone(),
        _ => panic!("no command"),
    }
}

fn user_entry() -> Json {
    obj(vec![
        ("matcher", s("")),
        ("hooks", Json::Array(vec![obj(vec![("type", s("command")), ("command", s("echo hi"))])])),
    ])
}

#[test]
fn registers_three_hooks_in_empty_settings() {
    let out = register_hooks(Json::Null);
    let hooks = get(&out, "hooks");
    let pre = array(get(hooks, "PreToolUse"));
    assert_eq!(pre.len(), 1);
    assert_eq!(command_of(&pre[0]), "streambreak timer start");
    let note = array(get(hooks, "Notification"));
    assert_eq!(command_of(&note[0]), "streambreak show --reason=idle");
    match get(&note[0], "matcher") {
        Json::Str(m) => assert_eq!(m, "idle_prompt|permission_prompt"),
        _ => panic!(),
    }
    let stop = array(get(hooks, "Stop"));
    assert_eq!(command_of(&stop[0]), "streambreak hide --reason=complete");
    match get(&array(get(&stop[0], "hooks"))[0], "timeout") {
        Json::Number(n) => assert_eq!(n, "3"),
        _ => panic!(),
    }
}

#[test]
fn keeps_user_hooks_and_replaces_ours() {
    let old_ours = make_hook_entry("", "streambreak timer start --old");
    let settings = obj(vec![
        ("theme", s("dark")),
        ("hooks", obj(vec![("PreToolUse", Json::Array(vec![old_ours, user_entry()]))])),
    ]);
    let out = register_hooks(settings);
    match get(&out, "theme") {
        Json::Str(t) => assert_eq!(t, "dark"),
        _ => panic!(),
    }
    let pre = array(get(get(&out, "hooks"), "PreToolUse"));
    assert_eq!(pre.len(), 2);
    assert_eq!(command_of(&pre[0]), "echo hi");
    assert_eq!(command_of(&pre[1]), "streambreak timer start");
}

#[test]
fn non_array_event_is_replaced() {
    let settings = obj(vec![("hooks", obj(vec![("Stop", s("oops"))]))]);
    let out = register_hooks(settings);
    let stop = array(get(get(&out, "hooks"), "Stop"));
    assert_eq!(stop.len(), 1);
    assert_eq!(command_of(&stop[0]), "streambreak hide --reason=complete");
}

#[test]
fn registering_twice_changes_nothing() {
    let settings = obj(vec![
        ("hooks", obj(vec![("PreToolUse", Json::Array(vec![user_entry()]))])),
        ("model", s("x")),
    ]);
    let once = register_hooks(settings);
    let once_text = format!("{:?}", once);
    let twice = register_hooks(once);
    assert_eq!(format!("{:?}", twice), once_text);
}

#[test]
fn settings_that_cannot_take_hooks() {
    assert!(can_register_hooks(&Json::Null));
    assert!(can_register_hooks(&obj(vec![])));
    assert!(can_register_hooks(&obj(vec![("hooks", obj(vec![]))])));
    assert!(!can_register_hooks(&obj(vec![("hooks", Json::Null)])));
    assert!(!can_register_hooks(&Json::Array(vec![])));
    assert!(!can_register_hooks(&s("x")));
}

#[test]
fn recognises_our_entries() {
    assert!(is_streambreak_entry_exec(&make_hook_entry("", "streambreak show")));
    assert!(!is_streambreak_entry_exec(&user_entry()));
    assert!(!is_streambreak_entry_exec(&make_hook_entry("", "echo streambreak")));
    assert!(!is_streambreak_entry_exec(&Json::Null));
}

#[test]
fn missing_settings_start_from_an_empty_object() {
    let out = register_hooks_in_settings(None).unwrap();
    assert_eq!(array(get(get(&out, "hooks"), "Stop")).len(), 1);
    assert!(register_hooks_in_settings(Some(Json::Array(vec![]))).is_none());
    assert!(register_hooks_in_settings(Some(obj(vec![("hooks", s("x"))]))).is_none());
    let kept = register_hooks_in_settings(Some(obj(vec![("theme", s("dark"))]))).unwrap();
    match get(&kept, "theme") {
        Json::Str(t) => assert_eq!(t, "dark"),
        _ => panic!(),
    }
}
