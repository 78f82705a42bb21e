use clipboard_master::capture::capture_snapshot;
use clipboard_master::capture::CaptureError;
use clipboard_master::capture::RawImage;
use clipboard_master::capture::RawSnapshot;
use clipboard_master::core_api::monitor_step;
use clipboard_master::core_api::ClipboardCore;
use clipboard_master::core_api::ClipboardMonitor;
use clipboard_master::core_api::MonitorStep;
use clipboard_master::hash::content_hash;
use clipboard_master::model::ClipboardContent;
use clipboard_master::model::FileItem;
use clipboard_master::settings::default_settings;

fn empty_snapshot() -> RawSnapshot {
    RawSnapshot { text: None, image: None, files: None, html: None }
}

fn text_snapshot(t: &str) -> RawSnapshot {
    RawSnapshot { text: Some(t.to_string()), image: None, files: None, html: None }
}

#[test]
fn default_settings_have_documented_values() {
    let s = default_settings();
    assert_eq!(s.max_items, 1000);
    assert_eq!(s.keep_days, 90);
    assert!(s.compress_images);
    assert!(s.save_text && s.save_images && s.save_files && s.save_html);
    assert_eq!(s.max_image_size_mb, 10);
    assert_eq!(s.ui.opacity_percent, 95);
    assert_eq!(s.hotkeys.show_window, "Ctrl+Shift+V");
}

#[test]
fn short_text_previews_whole_text() {
    let s = default_settings();
    let item = capture_snapshot(text_snapshot("hello world"), &s, 1, 100, None, None).unwrap();
    assert_eq!(item.preview_text, "hello world");
    assert_eq!(item.content, ClipboardContent::Text("hello world".to_string()));
    assert!(item.tags.is_empty());
    assert!(!item.favorite && !item.pinned);
}

#[test]
fn long_text_preview_is_truncated_with_ellipsis() {
    let s = default_settings();
    let long = "x".repeat(250);
    let item = capture_snapshot(text_snapshot(&long), &s, 1, 100, None, None).unwrap();
    assert_eq!(item.preview_text.chars().count(), 103);
    let expected = format!("{}...", "x".repeat(100));
    assert_eq!(item.preview_text, expected);
}

#[test]
fn text_has_priority_over_other_formats() {
    let s = default_settings();
    let snap = RawSnapshot {
        text: Some("plain".to_string()),
        image: None,
        files: None,
        html: Some("<b>rich</b>".to_string()),
    };
    let item = capture_snapshot(snap, &s, 1, 100, None, None).unwrap();
    assert_eq!(item.content, ClipboardContent::Text("plain".to_string()));
}

#[test]
fn image_capture_reencodes_as_png_with_thumbnail() {
    let s = default_settings();
    let pixels: Vec<u8> = vec![255; 2 * 2 * 4];
    let snap = RawSnapshot {
        text: None,
        image: Some(RawImage { pixels: pixels.clone(), width: 2, height: 2 }),
        files: None,
        html: None,
    };
    let item = capture_snapshot(snap, &s, 1, 100, None, None).unwrap();
    assert_eq!(item.preview_text, "[Image 2x2]");
    match &item.content {
        ClipboardContent::Image(img) => {
            assert_eq!(&img.data[0..4], &[137, 80, 78, 71]);
            assert_ne!(img.data, pixels);
            assert!(!img.thumbnail.is_empty());
            assert_eq!(&img.thumbnail[0..4], &[137, 80, 78, 71]);
        }
        other => panic!("expected an image, got {:?}", other),
    }
    assert!(item.preview_image.is_some());
}

#[test]
fn image_capture_without_compression_skips_thumbnail() {
    let mut s = default_settings();
    s.compress_images = false;
    let snap = RawSnapshot {
        text: None,
        image: Some(RawImage { pixels: vec![0; 4], width: 1, height: 1 }),
        files: None,
        html: None,
    };
    let item = capture_snapshot(snap, &s, 1, 100, None, None).unwrap();
    match &item.content {
        ClipboardContent::Image(img) => assert!(img.thumbnail.is_empty()),
        other => panic!("expected an image, got {:?}", other),
    }
    assert!(item.preview_image.is_none());
}

#[test]
fn inconsistent_pixel_buffer_is_a_capture_error() {
    let s = default_settings();
    let snap = RawSnapshot {
        text: None,
        image: Some(RawImage { pixels: vec![0; 3], width: 2, height: 2 }),
        files: None,
        html: None,
    };
    assert_eq!(
        capture_snapshot(snap, &s, 1, 100, None, None).unwrap_err(),
        CaptureError::ImageDecode
    );
}

#[test]
fn empty_snapshot_is_declined() {
    let s = default_settings();
    assert_eq!(
        capture_snapshot(empty_snapshot(), &s, 1, 100, None, None).unwrap_err(),
        CaptureError::NoSupportedFormat
    );
}

#[test]
fn file_list_capture_counts_files() {
    let s = default_settings();
    let files = vec![
        FileItem { path: "a.txt".to_string(), size: 10, modified: 5 },
        FileItem { path: "b.txt".to_string(), size: 20, modified: 6 },
    ];
    let snap = RawSnapshot { text: None, image: None, files: Some(files), html: None };
    let item = capture_snapshot(snap, &s, 1, 100, None, None).unwrap();
    assert_eq!(item.preview_text, "[Files 2]");
}

#[test]
fn html_capture_keeps_markup() {
    let s = default_settings();
    let snap = RawSnapshot {
        text: None,
        image: None,
        files: None,
        html: Some("<h1>t</h1>".to_string()),
    };
    let item = capture_snapshot(snap, &s, 1, 100, None, None).unwrap();
    assert_eq!(item.content, ClipboardContent::Html("<h1>t</h1>".to_string()));
    assert_eq!(item.preview_text, "<h1>t</h1>");
}

#[test]
fn empty_text_gets_nonempty_preview() {
    let s = default_settings();
    let item = capture_snapshot(text_snapshot(""), &s, 1, 100, None, None).unwrap();
    assert_eq!(item.preview_text, "(empty)");
}

#[test]
fn stop_without_start_is_a_safe_no_op() {
    let mut monitor = ClipboardMonitor::new();
    assert!(!monitor.is_running());
    assert!(monitor.stop().is_ok());
    assert!(!monitor.is_running());

    let mut core = ClipboardCore::new(default_settings());
    assert!(core.stop().is_ok());
    assert_eq!(core.get_recent_items(10).len(), 0);
}

#[test]
fn monitor_restarts_after_stop() {
    let mut monitor = ClipboardMonitor::new();
    monitor.start().unwrap();
    assert!(monitor.is_running());
    monitor.stop().unwrap();
    assert!(!monitor.is_running());
    monitor.start().unwrap();
    assert!(monitor.is_running());
}

#[test]
fn monitor_step_decisions() {
    let s = default_settings();
    assert!(matches!(monitor_step(false, None, &s, 1, 100, None, None), MonitorStep::Exit));
    assert!(matches!(monitor_step(true, None, &s, 1, 100, None, None), MonitorStep::Wait));
    match monitor_step(true, Some(text_snapshot("hi")), &s, 1, 100, None, None) {
        MonitorStep::Store(item) => assert_eq!(item.preview_text, "hi"),
        other => panic!("expected a stored entry, got {:?}", other),
    }
    assert!(matches!(
        monitor_step(true, Some(empty_snapshot()), &s, 1, 100, None, None),
        MonitorStep::Skip
    ));
}

#[test]
fn content_hash_matches_known_digest() {
    let h = content_hash(&ClipboardContent::Text("abc".to_string()));
    assert_eq!(h, "ba7816bf8f01cfea414140de5dae2223b00361a396177a9cb410ff61f20015ad");
    let h2 = content_hash(&ClipboardContent::Text("abd".to_string()));
    assert_ne!(h, h2);
}

#[test]
fn file_list_hash_joins_paths() {
    let one = content_hash(&ClipboardContent::FileList(vec![FileItem {
        path: "a|b".to_string(),
        size: 0,
        modified: 0,
    }]));
    let two = content_hash(&ClipboardContent::FileList(vec![
        FileItem { path: "a".to_string(), size: 0, modified: 0 },
        FileItem { path: "b".to_string(), size: 0, modified: 0 },
    ]));
    assert_eq!(one, two);
}

#[test]
fn preview_boundary_at_one_hundred_characters() {
    let s = default_settings();
    let exactly = "y".repeat(100);
    let item = capture_snapshot(text_snapshot(&exactly), &s, 1, 100, None, None).unwrap();
    assert_eq!(item.preview_text, exactly);
    let over = "y".repeat(101);
    let item = capture_snapshot(text_snapshot(&over), &s, 1, 100, None, None).unwrap();
    assert_eq!(item.preview_text, format!("{}...", "y".repeat(100)));
}
