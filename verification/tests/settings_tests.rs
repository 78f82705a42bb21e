use clipboard_master::core_api::ClipboardCore;
use clipboard_master::json::settings_from_json;
use clipboard_master::json::settings_to_json;
use clipboard_master::settings::default_settings;

#[test]
fn malformed_document_leaves_settings_unchanged() {
    let mut core = ClipboardCore::new(default_settings());
    let before = core.get_settings();
    assert!(!core.update_settings_doc("this is not json"));
    assert!(!core.update_settings_doc("{\"max_items\": \"not a number\"}"));
    assert!(!core.update_settings_doc("{}"));
    assert_eq!(core.get_settings(), before);
    assert!(core.receive_events().try_recv().is_err());
}

#[test]
fn valid_document_is_applied() {
    let mut core = ClipboardCore::new(default_settings());
    let mut wanted = default_settings();
    wanted.keep_days = 30;
    wanted.compress_images = false;
    let doc = settings_to_json(&wanted);
    assert!(core.update_settings_doc(doc.as_str()));
    let now = core.get_settings();
    assert_eq!(now.keep_days, 30);
    assert!(!now.compress_images);
}

#[test]
fn settings_document_round_trips() {
    let mut s = default_settings();
    s.database_path = "C:\\data\\store \"v2\".db".to_string();
    s.ui.theme = "Dark\nMode\t".to_string();
    let doc = settings_to_json(&s);
    let back = settings_from_json(doc.as_str()).expect("the emitted document must parse");
    assert_eq!(back, s);
}

#[test]
fn settings_document_holds_expected_fields() {
    let doc = settings_to_json(&default_settings());
    assert!(doc.contains("\"max_items\":1000"));
    assert!(doc.contains("\"keep_days\":90"));
    assert!(doc.contains("\"compress_images\":true"));
    assert!(doc.contains("\"show_window\":\"Ctrl+Shift+V\""));
    assert!(doc.starts_with('{') && doc.ends_with('}'));
}

#[test]
fn missing_field_rejects_the_document() {
    let full = settings_to_json(&default_settings());
    let broken = full.replace("\"keep_days\"", "\"keep_dayz\"");
    assert!(settings_from_json(broken.as_str()).is_none());
}

#[test]
fn accepted_document_publishes_one_change_event() {
    let mut core = ClipboardCore::new(default_settings());
    let mut wanted = default_settings();
    wanted.ui.font_size = 18;
    let doc = settings_to_json(&wanted);
    assert!(core.update_settings_doc(doc.as_str()));
    match core.receive_events().try_recv() {
        Ok(clipboard_master::events::ClipboardEvent::SettingsChanged(got)) => {
            assert_eq!(got.ui.font_size, 18);
        }
        other => panic!("expected a settings-changed event, got {:?}", other),
    }
    assert!(core.receive_events().try_recv().is_err());
}

#[test]
fn update_settings_publishes_change_event() {
    let mut core = ClipboardCore::new(default_settings());
    let mut s = default_settings();
    s.max_items = 5;
    core.update_settings(s).unwrap();
    match core.receive_events().try_recv() {
        Ok(clipboard_master::events::ClipboardEvent::SettingsChanged(got)) => {
            assert_eq!(got.max_items, 5);
        }
        other => panic!("expected a settings-changed event, got {:?}", other),
    }
}
