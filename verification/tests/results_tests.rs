use clauncher::results::{AppState, FileResult};

#[test]
fn file_result_new_keeps_all_fields() {
    let r = FileResult::new("Notepad".to_string(), "notepad.exe".to_string(), true, 900);
    assert_eq!(r.name, "Notepad");
    assert_eq!(r.path, "notepad.exe");
    assert!(r.is_app);
    assert_eq!(r.score, 900);
    let c = r.clone_result();
    assert_eq!(c, r);
}

#[test]
fn app_state_tracks_hotkey_registration() {
    let mut s = AppState::new();
    assert!(!s.hotkey_registered);
    s.mark_hotkey_registered();
    assert!(s.hotkey_registered);
    s.mark_hotkey_registered();
    assert!(s.hotkey_registered);
}
