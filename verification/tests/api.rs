use streambreak::api::{hide_plan, keep_waiting_for_focus, HidePlan, ReasonQuery};
use streambreak::tray::{language_code, tray_action, TrayAction};

#[test]
fn complete_reason_fades_out() {
    let q = ReasonQuery { reason: Some("complete".to_string()) };
    assert_eq!(hide_plan(&q, 3000), HidePlan::AfterFocusLost { delay_ms: 3000 });
}

#[test]
fn other_reasons_hide_at_once() {
    assert_eq!(hide_plan(&ReasonQuery { reason: None }, 3000), HidePlan::Immediate);
    assert_eq!(hide_plan(&ReasonQuery { reason: Some("idle".to_string()) }, 3000), HidePlan::Immediate);
    assert_eq!(hide_plan(&ReasonQuery { reason: Some("completed".to_string()) }, 3000), HidePlan::Immediate);
}

#[test]
fn waits_only_while_focused_and_within_ten_minutes() {
    assert!(keep_waiting_for_focus(0, Some(true)));
    assert!(keep_waiting_for_focus(599_999, Some(true)));
    assert!(!keep_waiting_for_focus(600_000, Some(true)));
    assert!(!keep_waiting_for_focus(0, Some(false)));
    assert!(!keep_waiting_for_focus(0, None));
}

#[test]
fn tray_entries() {
    assert_eq!(tray_action("show"), TrayAction::ShowPopup);
    assert_eq!(tray_action("hide"), TrayAction::HidePopup);
    assert_eq!(tray_action("lang_en"), TrayAction::SetLanguage { korean: false });
    assert_eq!(tray_action("lang_ko"), TrayAction::SetLanguage { korean: true });
    assert_eq!(tray_action("quit"), TrayAction::Quit);
    assert_eq!(tray_action("other"), TrayAction::Ignore);
    assert_eq!(language_code(true), "ko");
    assert_eq!(language_code(false), "en");
}
